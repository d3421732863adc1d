//! Share links: listing them page by page, filling in what a list leaves out, making new ones.
use crate::errors::ApiError;
use crate::json::{
    array_in, bool_in, entries_view, int_in, items_view, keys_in_order, lemma_json_view,
    lemma_lookup_index, lookup_index, member, opt_json, opt_member, opt_ordered, ordered, text_in,
    Json, JsonView,
};
use crate::lookup::{
    int_under, json_string, member_of, next_token_in, share_next_page_token, text_or_empty,
    text_under,
};
use crate::order::{lemma_before_irreflexive, lemma_before_total, lemma_before_transitive};
use crate::output::{array_value, int_json, int_value, text_json, text_value, Entries};
use crate::query::{encode_query_component, query_component};
use crate::text::{
    chars_of, comes_before, decimal, decimal_text, digit_text, digits, is_empty_text, joined3,
    opt_view, same_text, text_before,
};
use vstd::prelude::*;

verus! {

broadcast use vstd::string::group_string_axioms;

/// How many pages of shares are asked for at most.
pub const SHARE_MAX_PAGES: u32 = 100;

/// The number under `key`, or the default.
pub open spec fn int_or(value: JsonView, key: Seq<char>, default: i64) -> i64 {
    match int_in(member(value, key)) {
        Some(n) => n,
        None => default,
    }
}

fn int_under_or(value: &Json, key: &str, default: i64) -> (r: i64)
    ensures
        r == int_or(value@, key@, default),
{
    match int_under(value, key) {
        Some(n) => n,
        None => default,
    }
}

/// The address of a share: with the password behind the key, where there is one.
pub open spec fn share_address(base_url: Seq<char>, key: Seq<char>, password: Seq<char>) -> Seq<
    char,
> {
    let url = base_url + "/s/"@ + key;
    if password.len() == 0 {
        url
    } else {
        url + "/"@ + password
    }
}

/// A share of version 3 in the form of version 4.
pub open spec fn unified_share(item: JsonView, base_url: Seq<char>) -> JsonView {
    let key = text_or_empty(text_in(member(item, "key"@)));
    let password = text_or_empty(text_in(member(item, "password"@)));
    let name = text_or_empty(text_in(opt_member(member(item, "source"@), "name"@)));
    let expire = int_or(item, "expire"@, -1i64);
    let is_dir = bool_in(member(item, "is_dir"@)) == Some(true);
    JsonView::Object(
        seq![
            (
                "created_at"@,
                text_json(text_or_empty(text_in(member(item, "create_date"@)))),
            ),
            ("downloaded"@, int_json(int_or(item, "downloads"@, 0))),
            ("expired"@, JsonView::Bool(expire == 0)),
            (
                "expires"@,
                if expire > 0 {
                    text_json(decimal(expire as int))
                } else {
                    JsonView::Null
                },
            ),
            ("id"@, text_json(key)),
            ("name"@, text_json(name)),
            ("password"@, text_json(password)),
            ("password_protected"@, JsonView::Bool(password.len() > 0)),
            ("source"@, JsonView::Object(seq![("name"@, text_json(name))])),
            (
                "source_type"@,
                int_json(
                    if is_dir {
                        1
                    } else {
                        0
                    },
                ),
            ),
            ("source_uri"@, text_json(Seq::empty())),
            ("url"@, text_json(share_address(base_url, key, password))),
            ("visited"@, int_json(int_or(item, "views"@, 0))),
        ],
    )
}

/// A share of version 3 in the form of version 4.
pub fn map_v3_share_to_unified(item: &Json, base_url: &str) -> (r: Json)
    ensures
        r@ == unified_share(item@, base_url@),
{
    let key = json_string(item, "key");
    let is_dir = match item.get("is_dir") {
        Some(v) => match v.as_bool() {
            Some(b) => b,
            None => false,
        },
        None => false,
    };
    let password = json_string(item, "password");
    let none = String::new();
    assert(none@ =~= Seq::empty());
    let name = match item.get("source") {
        Some(source) => json_string(source, "name"),
        None => none.clone(),
    };
    let expire: i64 = int_under_or(item, "expire", -1);
    let downloads: i64 = int_under_or(item, "downloads", 0);
    let views: i64 = int_under_or(item, "views", 0);
    let created_at = json_string(item, "create_date");
    let protected = !is_empty_text(password.as_str());
    let mut url = joined3(base_url, "/s/", key.as_str());
    if protected {
        url.append("/");
        url.append(password.as_str());
    }
    let source = Entries::new().with("name", text_value(name.clone()));
    assert(source@ =~= seq![("name"@, text_json(name@))]);
    let entries = Entries::new().with("created_at", text_value(created_at)).with(
        "downloaded",
        int_value(downloads),
    ).with("expired", Json::Bool(expire == 0)).with(
        "expires",
        if expire > 0 {
            text_value(decimal_text(expire))
        } else {
            Json::Null
        },
    ).with("id", text_value(key)).with("name", text_value(name)).with(
        "password",
        text_value(password),
    ).with("password_protected", Json::Bool(protected)).with("source", source.object()).with(
        "source_type",
        int_value(
            if is_dir {
                1
            } else {
                0
            },
        ),
    ).with("source_uri", text_value(none)).with("url", text_value(url)).with(
        "visited",
        int_value(views),
    );
    assert(entries@ =~= unified_share(item@, base_url@)->Object_0);
    entries.object()
}

/// The endpoint for a page of the shares of version 3.
pub fn v3_share_endpoint(page: u32) -> (r: String)
    ensures
        r@ == "/share?page="@ + digits(page as nat) + "&order_by=created_at&order=DESC"@,
{
    joined3("/share?page=", digit_text(page as u64).as_str(), "&order_by=created_at&order=DESC")
}

/// The shares in an answer of version 3.
pub open spec fn v3_items(answer: JsonView) -> Seq<JsonView> {
    match array_in(opt_member(member(answer, "data"@), "items"@)) {
        Some(items) => items,
        None => Seq::empty(),
    }
}

/// The shares in an answer of version 3, in the form that those of version 4 have.
pub open spec fn v3_shares(answer: JsonView, base_url: Seq<char>) -> Seq<JsonView> {
    v3_items(answer).map_values(|item: JsonView| unified_share(item, base_url))
}

/// The mathematical form of a list of the shares of version 3 in the making: the shares so far,
/// and the number of the page that is asked for next.
#[verifier::ext_equal]
pub struct V3SharesState {
    pub found: Seq<JsonView>,
    pub page: u32,
}

/// Whether another page is asked for after an answer: not where it was empty, nor after the last
/// page.
pub open spec fn v3_goes_on(state: V3SharesState, answer: JsonView) -> bool {
    v3_items(answer).len() > 0 && state.page < SHARE_MAX_PAGES
}

/// The list after an answer.
pub open spec fn v3_after_page(
    state: V3SharesState,
    answer: JsonView,
    base_url: Seq<char>,
) -> V3SharesState {
    V3SharesState {
        found: state.found + v3_shares(answer, base_url),
        page: if v3_goes_on(state, answer) {
            (state.page + 1) as u32
        } else {
            state.page
        },
    }
}

/// The list of the shares of version 3, in the making.
pub struct V3ShareList {
    out: Vec<Json>,
    page: u32,
}

impl View for V3ShareList {
    type V = V3SharesState;

    open spec fn view(&self) -> V3SharesState {
        V3SharesState { found: self.found(), page: self.at_page() }
    }
}

impl V3ShareList {
    /// The shares so far.
    pub closed spec fn found(self) -> Seq<JsonView> {
        items_view(self.out@)
    }

    /// The number of the page that is asked for next.
    pub closed spec fn at_page(self) -> u32 {
        self.page
    }

    /// Whether the page is one of those that are asked for at most.
    pub open spec fn wf(self) -> bool {
        1 <= self.at_page() <= SHARE_MAX_PAGES
    }

    /// The list before the first page.
    pub fn new() -> (r: V3ShareList)
        ensures
            r.wf(),
            r.at_page() == 1,
            r.found() == Seq::<JsonView>::empty(),
    {
        let r = V3ShareList { out: Vec::new(), page: 1 };
        assert(r.found() =~= Seq::empty());
        r
    }

    /// The endpoint for the next page.
    pub fn endpoint(&self) -> (r: String)
        ensures
            r@ == "/share?page="@ + digits(self.at_page() as nat)
                + "&order_by=created_at&order=DESC"@,
    {
        v3_share_endpoint(self.page)
    }

    /// Takes in a page and says whether another one is asked for: not where the page was empty,
    /// nor after the last page.
    pub fn take_page(&mut self, answer: &Json, base_url: &str) -> (more: bool)
        requires
            old(self).wf(),
        ensures
            final(self).wf(),
            more == v3_goes_on(old(self)@, answer@),
            final(self)@ == v3_after_page(old(self)@, answer@, base_url@),
    {
        let items = match member_of(answer.get("data"), "items") {
            Some(v) => v.as_array(),
            None => None,
        };
        let ghost all = v3_shares(answer@, base_url@);
        let ghost start = self.found();
        match items {
            None => {
                assert(all =~= Seq::empty());
                assert(self.found() + all =~= self.found());
                false
            },
            Some(items) => {
                let mut i: usize = 0;
                assert(start + all.take(0) =~= start);
                while i < items.len()
                    invariant
                        i <= items@.len(),
                        self.page == old(self).page,
                        all == items_view(items@).map_values(
                            |item: JsonView| unified_share(item, base_url@),
                        ),
                        self.found() == start + all.take(i as int),
                    decreases items@.len() - i,
                {
                    let ghost before = self.found();
                    let share = map_v3_share_to_unified(&items[i], base_url);
                    self.out.push(share);
                    assert(self.found() =~= before.push(share@));
                    assert(start + all.take(i + 1) =~= (start + all.take(i as int)).push(share@));
                    i += 1;
                }
                assert(all.take(all.len() as int) =~= all);
                if items.len() == 0 || self.page >= SHARE_MAX_PAGES {
                    false
                } else {
                    self.page = self.page + 1;
                    true
                }
            },
        }
    }

    /// The list of the shares.
    pub fn finish(self) -> (r: Json)
        ensures
            r@ == JsonView::Array(self.found()),
    {
        array_value(self.out)
    }
}

/// Whether a share says where what it shares is.
pub open spec fn has_source_uri(share: JsonView) -> bool {
    match text_in(member(share, "source_uri"@)) {
        Some(s) => s.len() > 0,
        None => false,
    }
}

/// The endpoint for what a list leaves out of a share: none where the share says where what it
/// shares is, or has no id.
pub open spec fn info_address(share: JsonView) -> Option<Seq<char>> {
    let id = text_or_empty(text_in(member(share, "id"@)));
    let password = text_or_empty(text_in(member(share, "password"@)));
    if has_source_uri(share) || id.len() == 0 {
        None
    } else {
        let address = "/share/info/"@ + query_component(id)
            + "?owner_extended=true&count_views=false"@;
        if password.len() > 0 {
            Some(address + "&password="@ + query_component(password))
        } else {
            Some(address)
        }
    }
}

/// The endpoint for what a list leaves out of a share.
pub fn share_info_endpoint(share: &Json) -> (r: Option<String>)
    ensures
        opt_view(r) == info_address(share@),
{
    if let Some(uri) = text_under(share, "source_uri") {
        if !is_empty_text(uri.as_str()) {
            return None;
        }
    }
    let id = json_string(share, "id");
    if is_empty_text(id.as_str()) {
        return None;
    }
    let password = json_string(share, "password");
    let component = encode_query_component(id.as_str());
    let mut endpoint = joined3(
        "/share/info/",
        component.as_str(),
        "?owner_extended=true&count_views=false",
    );
    if !is_empty_text(password.as_str()) {
        endpoint.append("&password=");
        endpoint.append(encode_query_component(password.as_str()).as_str());
    }
    Some(endpoint)
}

/// Where a key belongs among entries in the order of their keys: before the first key behind it.
pub open spec fn key_place(entries: Seq<(Seq<char>, JsonView)>, key: Seq<char>) -> int
    decreases entries.len(),
{
    if entries.len() == 0 || text_before(key, entries[0].0) {
        0
    } else {
        1 + key_place(entries.drop_first(), key)
    }
}

/// The entries with the value under the key: in place of the one that was there, or where the key
/// belongs.
pub open spec fn put(
    entries: Seq<(Seq<char>, JsonView)>,
    key: Seq<char>,
    value: JsonView,
) -> Seq<(Seq<char>, JsonView)> {
    match lookup_index(entries, key) {
        Some(i) => entries.update(i, (key, value)),
        None => entries.insert(key_place(entries, key), (key, value)),
    }
}

/// The entries with all of the others put among them.
pub open spec fn put_all(
    entries: Seq<(Seq<char>, JsonView)>,
    others: Seq<(Seq<char>, JsonView)>,
) -> Seq<(Seq<char>, JsonView)>
    decreases others.len(),
{
    if others.len() == 0 {
        entries
    } else {
        put(put_all(entries, others.drop_last()), others.last().0, others.last().1)
    }
}

/// A share with what a list leaves out: the entries of the detail go over its own.
pub open spec fn enriched(share: JsonView, detail: Option<JsonView>) -> JsonView {
    match (share, detail) {
        (JsonView::Object(entries), Some(JsonView::Object(others))) => JsonView::Object(
            put_all(entries, others),
        ),
        _ => share,
    }
}

proof fn lemma_key_place(entries: Seq<(Seq<char>, JsonView)>, key: Seq<char>)
    ensures
        0 <= key_place(entries, key) <= entries.len(),
        forall|j: int|
            0 <= j < key_place(entries, key) ==> !text_before(key, (#[trigger] entries[j]).0),
        key_place(entries, key) < entries.len() ==> text_before(
            key,
            entries[key_place(entries, key)].0,
        ),
    decreases entries.len(),
{
    if entries.len() > 0 && !text_before(key, entries[0].0) {
        let rest = entries.drop_first();
        lemma_key_place(rest, key);
        assert forall|j: int| 0 <= j < key_place(entries, key) implies !text_before(
            key,
            (#[trigger] entries[j]).0,
        ) by {
            if j > 0 {
                assert(entries[j] == rest[j - 1]);
            }
        }
    }
}

fn put_entry(entries: &mut Vec<(String, Json)>, key: &String, value: Json)
    ensures
        entries_view(final(entries)@) == put(entries_view(old(entries)@), key@, value@),
{
    let ghost all = entries_view(entries@);
    let wanted = chars_of(key.as_str());
    proof {
        lemma_lookup_index(all, key@);
        lemma_key_place(all, key@);
    }
    let mut i: usize = 0;
    while i < entries.len()
        invariant
            i <= entries@.len(),
            wanted@ == key@,
            all == entries_view(entries@),
            *entries == *old(entries),
            forall|j: int| 0 <= j < i ==> (#[trigger] all[j]).0 != key@,
        decreases entries@.len() - i,
    {
        assert(all[i as int] == (entries@[i as int].0@, entries@[i as int].1@));
        if same_text(entries[i].0.as_str(), key.as_str()) {
            proof {
                lemma_lookup_index(all, key@);
            }
            entries.set(i, (key.clone(), value));
            assert(entries_view(entries@) =~= all.update(i as int, (key@, value@)));
            return;
        }
        i += 1;
    }
    assert(lookup_index(all, key@) is None);
    let mut at: usize = 0;
    assert(all.skip(0) =~= all);
    while at < entries.len() && !comes_before(
        wanted.as_slice(),
        chars_of(entries[at].0.as_str()).as_slice(),
    )
        invariant
            at <= entries@.len(),
            wanted@ == key@,
            all == entries_view(entries@),
            key_place(all, key@) == at + key_place(all.skip(at as int), key@),
        decreases entries@.len() - at,
    {
        assert(all.skip(at as int)[0] == (entries@[at as int].0@, entries@[at as int].1@));
        assert(all.skip(at as int).drop_first() =~= all.skip(at + 1));
        at += 1;
    }
    proof {
        if at < entries@.len() {
            assert(all.skip(at as int)[0] == (entries@[at as int].0@, entries@[at as int].1@));
        }
        assert(key_place(all.skip(at as int), key@) == 0);
    }
    entries.insert(at, (key.clone(), value));
    assert(entries_view(entries@) =~= all.insert(at as int, (key@, value@)));
}

/// A share with what a list leaves out, from the answer to the question for it, where one came.
pub fn enrich_share_source_uri(share: Json, detail: Option<&Json>) -> (r: Json)
    ensures
        r@ == enriched(share@, opt_json(detail)),
        ordered(share@) && opt_ordered(opt_json(detail)) ==> ordered(r@),
{
    broadcast use lemma_json_view;

    proof {
        if let (JsonView::Object(_), Some(JsonView::Object(_))) = (share@, opt_json(detail)) {
            if ordered(share@) && opt_ordered(opt_json(detail)) {
                law_detail_goes_over_share(share@, opt_json(detail)->0, Seq::empty());
            }
        }
    }
    match (share, detail) {
        (Json::Object(list), Some(Json::Object(others))) => {
            let mut entries = list;
            let ghost start = entries_view(entries@);
            let ghost all = entries_view(others@);
            let mut i: usize = 0;
            while i < others.len()
                invariant
                    i <= others@.len(),
                    all == entries_view(others@),
                    entries_view(entries@) == put_all(start, all.take(i as int)),
                decreases others@.len() - i,
            {
                assert(all.take(i + 1).drop_last() =~= all.take(i as int));
                assert(all.take(i + 1).last() == (others@[i as int].0@, others@[i as int].1@));
                put_entry(&mut entries, &others[i].0, others[i].1.duplicate());
                i += 1;
            }
            assert(all.take(all.len() as int) =~= all);
            Json::Object(entries)
        },
        (other, _) => other,
    }
}

/// The shares on a page.
pub open spec fn shares_on(data: JsonView) -> Seq<JsonView> {
    match array_in(member(data, "shares"@)) {
        Some(items) => items,
        None => Seq::empty(),
    }
}

/// The mathematical form of a list of the shares of version 4 in the making: the shares so far,
/// the token of the page that is asked for next, and how many pages were taken in.
#[verifier::ext_equal]
pub struct SharesState {
    pub found: Seq<JsonView>,
    pub token: Option<Seq<char>>,
    pub taken: u32,
}

/// The mathematical form of a page: its shares, filled in, and the token of the next page.
pub struct SharePage {
    pub shares: Seq<JsonView>,
    pub next_token: Option<Seq<char>>,
}

/// Whether another page is asked for after a page: not where the page names no next one or
/// itself, nor after the last page.
pub open spec fn goes_on(state: SharesState, page: SharePage) -> bool {
    &&& page.next_token is Some
    &&& page.next_token != state.token
    &&& state.taken + 1 < SHARE_MAX_PAGES
}

/// The list after a page.
pub open spec fn after_page(state: SharesState, page: SharePage) -> SharesState {
    SharesState {
        found: state.found + page.shares,
        token: if goes_on(state, page) {
            page.next_token
        } else {
            state.token
        },
        taken: (state.taken + 1) as u32,
    }
}

/// The list of the shares of version 4, in the making.
pub struct ShareList {
    shares: Vec<Json>,
    token: Option<String>,
    pages: u32,
}

/// The endpoint for the page with the given token.
pub open spec fn page_address(token: Option<Seq<char>>) -> Seq<char> {
    match token {
        Some(t) => "/share?page_size=100"@ + "&next_page_token="@ + query_component(t),
        None => "/share?page_size=100"@,
    }
}

impl View for ShareList {
    type V = SharesState;

    open spec fn view(&self) -> SharesState {
        SharesState { found: self.found(), token: self.next_token(), taken: self.taken() }
    }
}

impl ShareList {
    /// The shares so far.
    pub closed spec fn found(self) -> Seq<JsonView> {
        items_view(self.shares@)
    }

    /// The token of the page that is asked for next.
    pub closed spec fn next_token(self) -> Option<Seq<char>> {
        opt_view(self.token)
    }

    /// How many pages were taken in.
    pub closed spec fn taken(self) -> u32 {
        self.pages
    }

    /// Whether another page may be asked for.
    pub open spec fn wf(self) -> bool {
        self.taken() < SHARE_MAX_PAGES
    }

    /// The list before the first page.
    pub fn new() -> (r: ShareList)
        ensures
            r.wf(),
            r.found() == Seq::<JsonView>::empty(),
            r.next_token() is None,
            r.taken() == 0,
    {
        let r = ShareList { shares: Vec::new(), token: None, pages: 0 };
        assert(r.found() =~= Seq::empty());
        r
    }

    /// The endpoint for the next page.
    pub fn endpoint(&self) -> (r: String)
        ensures
            r@ == page_address(self.next_token()),
    {
        let mut endpoint = "/share?page_size=100".to_string();
        if let Some(token) = &self.token {
            endpoint.append("&next_page_token=");
            endpoint.append(encode_query_component(token.as_str()).as_str());
        }
        endpoint
    }

    /// The shares on a page, or the error of an answer without data.
    pub fn page_shares(data: &Option<Json>, msg: String) -> (r: Result<Vec<Json>, ApiError>)
        ensures
            match *data {
                Some(d) => r matches Ok(shares) && items_view(shares@) == shares_on(d@),
                None => r matches Err(e) && e.wf() && e.kind is Other && e.text@
                    == "Invalid response: "@ + msg@,
            },
    {
        match data {
            None => Err(ApiError::invalid_response(msg)),
            Some(d) => {
                let mut shares: Vec<Json> = Vec::new();
                let items = match d.get("shares") {
                    Some(v) => v.as_array(),
                    None => None,
                };
                match items {
                    None => {
                        assert(items_view(shares@) =~= Seq::empty());
                    },
                    Some(items) => {
                        let ghost all = items_view(items@);
                        let mut i: usize = 0;
                        while i < items.len()
                            invariant
                                i <= items@.len(),
                                all == items_view(items@),
                                items_view(shares@) == all.take(i as int),
                            decreases items@.len() - i,
                        {
                            let ghost before = shares@;
                            let share = items[i].duplicate();
                            shares.push(share);
                            assert(items_view(shares@) =~= items_view(before).push(share@));
                            assert(all.take(i + 1) =~= all.take(i as int).push(share@));
                            i += 1;
                        }
                        assert(all.take(all.len() as int) =~= all);
                    },
                }
                Ok(shares)
            },
        }
    }

    /// Takes in the shares of a page, filled in, and says whether another page is asked for: not
    /// where the page names no next one or itself, nor after the last page.
    pub fn take_page(&mut self, shares: Vec<Json>, data: &Json) -> (more: bool)
        requires
            old(self).wf(),
        ensures
            more ==> final(self).wf(),
            more == goes_on(
                old(self)@,
                (SharePage { shares: items_view(shares@), next_token: next_token_in(data@) }),
            ),
            final(self)@ == after_page(
                old(self)@,
                (SharePage { shares: items_view(shares@), next_token: next_token_in(data@) }),
            ),
    {
        let ghost start = self.found();
        let mut more_shares = shares;
        self.shares.append(&mut more_shares);
        assert(self.found() =~= start + items_view(shares@));
        self.pages = self.pages + 1;
        match share_next_page_token(data) {
            None => false,
            Some(next) => {
                let repeated = match &self.token {
                    Some(token) => same_text(token.as_str(), next.as_str()),
                    None => false,
                };
                if repeated || self.pages >= SHARE_MAX_PAGES {
                    false
                } else {
                    self.token = Some(next);
                    true
                }
            },
        }
    }

    /// The list of the shares.
    pub fn finish(self) -> (r: Json)
        ensures
            r@ == JsonView::Array(self.found()),
    {
        array_value(self.shares)
    }
}

/// A request for a new share link. The share may be read by everyone.
pub struct ShareLinkRequest {
    pub uri: String,
    pub is_private: Option<bool>,
    /// In how many seconds the link expires.
    pub expire: Option<u32>,
    pub password: Option<String>,
    pub permission: String,
}

/// The request for a new share link: private where it has a password, and for good where the days
/// are not positive.
pub fn create_share_link(path: String, expire_days: i32, password: String) -> (r: ShareLinkRequest)
    requires
        expire_days * 86400 <= u32::MAX,
    ensures
        r.uri@ == path@,
        r.is_private == if password@.len() > 0 {
            Some(true)
        } else {
            None
        },
        r.expire == if expire_days > 0 {
            Some((expire_days * 86400) as u32)
        } else {
            None
        },
        opt_view(r.password) == if password@.len() > 0 {
            Some(password@)
        } else {
            None
        },
        r.permission@ == "read"@,
{
    let open = is_empty_text(password.as_str());
    ShareLinkRequest {
        uri: path,
        is_private: if open {
            None
        } else {
            Some(true)
        },
        expire: if expire_days > 0 {
            Some(expire_days as u32 * 86400)
        } else {
            None
        },
        password: if open {
            None
        } else {
            Some(password)
        },
        permission: "read".to_string(),
    }
}

/// The list after some answers of version 3.
pub open spec fn v3_after_pages(
    start: V3SharesState,
    answers: Seq<JsonView>,
    base_url: Seq<char>,
) -> V3SharesState
    decreases answers.len(),
{
    if answers.len() == 0 {
        start
    } else {
        v3_after_page(
            v3_after_pages(start, answers.drop_last(), base_url),
            answers.last(),
            base_url,
        )
    }
}

/// Whether each answer behind the first was asked for after the one before it.
pub open spec fn v3_pages_asked_for(
    start: V3SharesState,
    answers: Seq<JsonView>,
    base_url: Seq<char>,
) -> bool {
    forall|k: int|
        0 <= k < answers.len() - 1 ==> v3_goes_on(
            v3_after_pages(start, answers.take(k), base_url),
            #[trigger] answers[k],
        )
}

/// The shares in some answers of version 3, one answer after the other.
pub open spec fn v3_all_shares(answers: Seq<JsonView>, base_url: Seq<char>) -> Seq<JsonView>
    decreases answers.len(),
{
    if answers.len() == 0 {
        Seq::empty()
    } else {
        v3_all_shares(answers.drop_last(), base_url) + v3_shares(answers.last(), base_url)
    }
}

proof fn lemma_v3_pages_add_up(start: V3SharesState, answers: Seq<JsonView>, base_url: Seq<char>)
    ensures
        v3_after_pages(start, answers, base_url).found == start.found + v3_all_shares(
            answers,
            base_url,
        ),
    decreases answers.len(),
{
    let all = v3_all_shares(answers, base_url);
    if answers.len() == 0 {
        assert(start.found + all =~= start.found);
    } else {
        let earlier = answers.drop_last();
        lemma_v3_pages_add_up(start, earlier, base_url);
        assert(start.found + all =~= start.found + v3_all_shares(earlier, base_url) + v3_shares(
            answers.last(),
            base_url,
        ));
    }
}

proof fn lemma_v3_pages_are_counted(
    start: V3SharesState,
    answers: Seq<JsonView>,
    base_url: Seq<char>,
    k: int,
)
    requires
        start.page == 1,
        v3_pages_asked_for(start, answers, base_url),
        0 <= k < answers.len(),
    ensures
        v3_after_pages(start, answers.take(k), base_url).page == k + 1,
        k < SHARE_MAX_PAGES,
    decreases k,
{
    if k > 0 {
        lemma_v3_pages_are_counted(start, answers, base_url, k - 1);
        assert(answers.take(k).drop_last() =~= answers.take(k - 1));
        assert(answers.take(k).last() == answers[k - 1]);
        assert(v3_goes_on(v3_after_pages(start, answers.take(k - 1), base_url), answers[k - 1]));
    }
}

/// A list of the shares of version 3 holds what all the answers hold, in their order; no more
/// answers are asked for than the limit, and none behind an empty one.
pub proof fn law_v3_share_list_holds_all_pages(
    start: V3SharesState,
    answers: Seq<JsonView>,
    base_url: Seq<char>,
)
    requires
        start.found == Seq::<JsonView>::empty(),
        start.page == 1,
        v3_pages_asked_for(start, answers, base_url),
    ensures
        v3_after_pages(start, answers, base_url).found == v3_all_shares(answers, base_url),
        answers.len() <= SHARE_MAX_PAGES,
        forall|k: int| 0 <= k < answers.len() - 1 ==> v3_items(#[trigger] answers[k]).len() > 0,
{
    lemma_v3_pages_add_up(start, answers, base_url);
    assert(start.found + v3_all_shares(answers, base_url) =~= v3_all_shares(answers, base_url));
    if answers.len() > 0 {
        lemma_v3_pages_are_counted(start, answers, base_url, answers.len() - 1);
    }
}

/// The list after some pages.
pub open spec fn after_pages(start: SharesState, pages: Seq<SharePage>) -> SharesState
    decreases pages.len(),
{
    if pages.len() == 0 {
        start
    } else {
        after_page(after_pages(start, pages.drop_last()), pages.last())
    }
}

/// Whether each page behind the first was asked for after the one before it.
pub open spec fn pages_asked_for(start: SharesState, pages: Seq<SharePage>) -> bool {
    forall|k: int|
        0 <= k < pages.len() - 1 ==> goes_on(
            after_pages(start, pages.take(k)),
            #[trigger] pages[k],
        )
}

/// The shares of some pages, one page after the other.
pub open spec fn all_shares(pages: Seq<SharePage>) -> Seq<JsonView>
    decreases pages.len(),
{
    if pages.len() == 0 {
        Seq::empty()
    } else {
        all_shares(pages.drop_last()) + pages.last().shares
    }
}

proof fn lemma_pages_add_up(start: SharesState, pages: Seq<SharePage>)
    ensures
        after_pages(start, pages).found == start.found + all_shares(pages),
    decreases pages.len(),
{
    if pages.len() == 0 {
        assert(start.found + all_shares(pages) =~= start.found);
    } else {
        let earlier = pages.drop_last();
        lemma_pages_add_up(start, earlier);
        assert(start.found + all_shares(pages) =~= start.found + all_shares(earlier)
            + pages.last().shares);
    }
}

proof fn lemma_pages_are_counted(start: SharesState, pages: Seq<SharePage>, k: int)
    requires
        start.taken == 0,
        pages_asked_for(start, pages),
        0 <= k < pages.len(),
    ensures
        after_pages(start, pages.take(k)).taken == k,
        k > 0 ==> after_pages(start, pages.take(k)).token == pages[k - 1].next_token,
        k < SHARE_MAX_PAGES,
    decreases k,
{
    if k > 0 {
        lemma_pages_are_counted(start, pages, k - 1);
        assert(pages.take(k).drop_last() =~= pages.take(k - 1));
        assert(pages.take(k).last() == pages[k - 1]);
        assert(goes_on(after_pages(start, pages.take(k - 1)), pages[k - 1]));
    }
}

/// A list of the shares holds what all its pages hold, in their order; no more pages are asked for
/// than the limit, and each behind the first with the token that the one before it named.
pub proof fn law_share_list_holds_all_pages(start: SharesState, pages: Seq<SharePage>)
    requires
        start.found == Seq::<JsonView>::empty(),
        start.taken == 0,
        pages_asked_for(start, pages),
    ensures
        after_pages(start, pages).found == all_shares(pages),
        pages.len() <= SHARE_MAX_PAGES,
        forall|k: int|
            0 < k < pages.len() ==> (#[trigger] after_pages(start, pages.take(k))).token
                == pages[k - 1].next_token,
{
    lemma_pages_add_up(start, pages);
    assert(start.found + all_shares(pages) =~= all_shares(pages));
    if pages.len() > 0 {
        lemma_pages_are_counted(start, pages, pages.len() - 1);
    }
    assert forall|k: int| 0 < k < pages.len() implies (#[trigger] after_pages(
        start,
        pages.take(k),
    )).token == pages[k - 1].next_token by {
        lemma_pages_are_counted(start, pages, k);
    }
}

/// A key that is put has its new value, every other key the one it had, and the entries stay in
/// the order of their keys.
pub proof fn law_put_changes_one_key(
    entries: Seq<(Seq<char>, JsonView)>,
    key: Seq<char>,
    value: JsonView,
    other: Seq<char>,
)
    requires
        keys_in_order(entries),
    ensures
        keys_in_order(put(entries, key, value)),
        member(JsonView::Object(put(entries, key, value)), key) == Some(value),
        other != key ==> member(JsonView::Object(put(entries, key, value)), other) == member(
            JsonView::Object(entries),
            other,
        ),
{
    let result = put(entries, key, value);
    lemma_lookup_index(entries, key);
    lemma_lookup_index(entries, other);
    lemma_lookup_index(result, key);
    lemma_lookup_index(result, other);
    lemma_key_place(entries, key);
    let place = key_place(entries, key);
    match lookup_index(entries, key) {
        Some(i) => {
            assert forall|a: int, b: int| 0 <= a < b < result.len() implies text_before(
                (#[trigger] result[a]).0,
                (#[trigger] result[b]).0,
            ) by {
                assert(result[a].0 == entries[a].0 && result[b].0 == entries[b].0);
                assert(text_before(entries[a].0, entries[b].0));
            }
            assert(result[i] == (key, value));
            lemma_member_by_position(result, i);
            if other != key {
                lemma_same_member(entries, result, other, i);
            }
        },
        None => {
            assert forall|a: int, b: int| 0 <= a < b < result.len() implies text_before(
                (#[trigger] result[a]).0,
                (#[trigger] result[b]).0,
            ) by {
                if a < place && b < place {
                    assert(text_before(entries[a].0, entries[b].0));
                } else if a < place && b == place {
                    lemma_before_total(key, entries[a].0);
                } else if a < place {
                    assert(text_before(entries[a].0, entries[b - 1].0));
                } else if a == place {
                    assert(text_before(key, entries[place].0));
                    if b - 1 > place {
                        assert(text_before(entries[place].0, entries[b - 1].0));
                        lemma_before_transitive(key, entries[place].0, entries[b - 1].0);
                    }
                } else {
                    assert(text_before(entries[a - 1].0, entries[b - 1].0));
                }
            }
            assert(result[place] == (key, value));
            lemma_member_by_position(result, place);
            if other != key {
                match lookup_index(entries, other) {
                    Some(k) => {
                        let m = if k < place {
                            k
                        } else {
                            k + 1
                        };
                        assert(result[m] == entries[k]);
                        lemma_member_by_position(result, m);
                    },
                    None => {
                        assert forall|j: int| 0 <= j < result.len() implies (
                        #[trigger] result[j]).0 != other by {
                            if j < place {
                                assert(result[j] == entries[j]);
                            } else if j > place {
                                assert(result[j] == entries[j - 1]);
                            }
                        }
                    },
                }
            }
        },
    }
}

/// An object whose keys are in order has under the key of an entry the value of that entry.
pub proof fn lemma_member_by_position(entries: Seq<(Seq<char>, JsonView)>, i: int)
    requires
        keys_in_order(entries),
        0 <= i < entries.len(),
    ensures
        member(JsonView::Object(entries), entries[i].0) == Some(entries[i].1),
{
    lemma_lookup_index(entries, entries[i].0);
    lemma_before_irreflexive(entries[i].0);
    match lookup_index(entries, entries[i].0) {
        Some(k) => {
            if k < i {
                assert(text_before(entries[k].0, entries[i].0));
            }
        },
        None => {},
    }
}

proof fn lemma_same_member(
    entries: Seq<(Seq<char>, JsonView)>,
    result: Seq<(Seq<char>, JsonView)>,
    other: Seq<char>,
    i: int,
)
    requires
        keys_in_order(entries),
        keys_in_order(result),
        result.len() == entries.len(),
        0 <= i < entries.len(),
        entries[i].0 != other,
        result[i].0 != other,
        forall|j: int| 0 <= j < entries.len() && j != i ==> #[trigger] result[j] == entries[j],
    ensures
        member(JsonView::Object(result), other) == member(JsonView::Object(entries), other),
{
    lemma_lookup_index(entries, other);
    lemma_lookup_index(result, other);
    match lookup_index(entries, other) {
        Some(k) => {
            assert(result[k] == entries[k]);
            lemma_member_by_position(result, k);
        },
        None => {
            assert forall|j: int| 0 <= j < result.len() implies (#[trigger] result[j]).0
                != other by {
                assert(entries[j].0 != other);
            }
        },
    }
}

proof fn lemma_put_all(
    entries: Seq<(Seq<char>, JsonView)>,
    others: Seq<(Seq<char>, JsonView)>,
    key: Seq<char>,
)
    requires
        keys_in_order(entries),
        keys_in_order(others),
    ensures
        keys_in_order(put_all(entries, others)),
        member(JsonView::Object(put_all(entries, others)), key) == match member(
            JsonView::Object(others),
            key,
        ) {
            Some(v) => Some(v),
            None => member(JsonView::Object(entries), key),
        },
    decreases others.len(),
{
    lemma_lookup_index(others, key);
    if others.len() > 0 {
        let front = others.drop_last();
        let last = others.last();
        assert(keys_in_order(front)) by {
            assert forall|a: int, b: int| 0 <= a < b < front.len() implies text_before(
                (#[trigger] front[a]).0,
                (#[trigger] front[b]).0,
            ) by {
                assert(front[a] == others[a] && front[b] == others[b]);
            }
        }
        lemma_put_all(entries, front, key);
        law_put_changes_one_key(put_all(entries, front), last.0, last.1, key);
        lemma_lookup_index(front, key);
        if key == last.0 {
            assert(others[others.len() - 1] == last);
            lemma_member_by_position(others, others.len() - 1);
        } else {
            match lookup_index(front, key) {
                Some(k) => {
                    assert(others[k] == front[k]);
                    lemma_member_by_position(others, k);
                },
                None => {
                    assert forall|j: int| 0 <= j < others.len() implies (#[trigger] others[j]).0
                        != key by {
                        if j < front.len() {
                            assert(front[j] == others[j]);
                        }
                    }
                },
            }
        }
    }
}

proof fn lemma_put_values(entries: Seq<(Seq<char>, JsonView)>, key: Seq<char>, value: JsonView)
    requires
        forall|i: int| 0 <= i < entries.len() ==> ordered((#[trigger] entries[i]).1),
        ordered(value),
    ensures
        forall|i: int|
            0 <= i < put(entries, key, value).len() ==> ordered(
                (#[trigger] put(entries, key, value)[i]).1,
            ),
{
    lemma_lookup_index(entries, key);
    lemma_key_place(entries, key);
    let result = put(entries, key, value);
    let place = key_place(entries, key);
    assert forall|i: int| 0 <= i < result.len() implies ordered((#[trigger] result[i]).1) by {
        if lookup_index(entries, key) is None && i > place {
            assert(result[i] == entries[i - 1]);
        }
    }
}

proof fn lemma_put_all_values(
    entries: Seq<(Seq<char>, JsonView)>,
    others: Seq<(Seq<char>, JsonView)>,
)
    requires
        forall|i: int| 0 <= i < entries.len() ==> ordered((#[trigger] entries[i]).1),
        forall|i: int| 0 <= i < others.len() ==> ordered((#[trigger] others[i]).1),
    ensures
        forall|i: int|
            0 <= i < put_all(entries, others).len() ==> ordered(
                (#[trigger] put_all(entries, others)[i]).1,
            ),
    decreases others.len(),
{
    if others.len() > 0 {
        let front = others.drop_last();
        assert forall|i: int| 0 <= i < front.len() implies ordered((#[trigger] front[i]).1) by {
            assert(front[i] == others[i]);
        }
        assert(others[others.len() - 1] == others.last());
        lemma_put_all_values(entries, front);
        lemma_put_values(put_all(entries, front), others.last().0, others.last().1);
    }
}

/// A share that is filled in has from the detail every key that the detail has, and keeps its own
/// value under every other key; its keys stay in order.
pub proof fn law_detail_goes_over_share(share: JsonView, detail: JsonView, key: Seq<char>)
    requires
        share is Object,
        detail is Object,
        ordered(share),
        ordered(detail),
    ensures
        ordered(enriched(share, Some(detail))),
        member(enriched(share, Some(detail)), key) == match member(detail, key) {
            Some(v) => Some(v),
            None => member(share, key),
        },
{
    lemma_put_all(share->Object_0, detail->Object_0, key);
    lemma_put_all_values(share->Object_0, detail->Object_0);
}

} // verus!
