//! Searching the drive page by page.
use crate::json::{member, Json, JsonView};
use crate::listing::{object_of, object_type_of, type_word, RemoteFile};
use crate::names::{has_thumbnail, supports_thumbnail};
use crate::order::{
    is_order, law_order_keeps_everything, lemma_before_irreflexive, lemma_before_transitive, newer,
    newest_first, positions,
};
use crate::path::{parent_of, unix_parent, unix_path, uri_of_search, v4_uri_to_unix};
use crate::text::{is_empty_text, opt_view, text_before, views};
use vstd::hash_set::StringHashSet;
use vstd::prelude::*;

verus! {

broadcast use vstd::string::group_string_axioms;

/// How many results a page holds at most.
pub const SEARCH_PAGE_SIZE: u32 = 2000;

/// How many pages are asked for at most.
pub const SEARCH_MAX_PAGES: u32 = 100;

/// What the server orders the results by.
pub const SEARCH_ORDER_BY: &'static str = "updated_at";

pub const SEARCH_ORDER_DIRECTION: &'static str = "desc";

/// A result of a search, as it is shown.
pub struct ApiSearchObjectInfo {
    /// The full path.
    pub id: String,
    pub name: String,
    /// The path of the directory that holds the object.
    pub path: String,
    pub thumb: bool,
    pub size: i64,
    pub object_type: String,
    pub date: String,
    pub create_date: String,
    pub source_enabled: bool,
    pub metadata: Option<Json>,
}

/// The mathematical form of a result.
pub struct SearchView {
    pub id: Seq<char>,
    pub name: Seq<char>,
    pub path: Seq<char>,
    pub thumb: bool,
    pub size: i64,
    pub object_type: Seq<char>,
    pub date: Seq<char>,
    pub create_date: Seq<char>,
    pub source_enabled: bool,
    pub metadata: Option<JsonView>,
}

impl View for ApiSearchObjectInfo {
    type V = SearchView;

    open spec fn view(&self) -> SearchView {
        SearchView {
            id: self.id@,
            name: self.name@,
            path: self.path@,
            thumb: self.thumb,
            size: self.size,
            object_type: self.object_type@,
            date: self.date@,
            create_date: self.create_date@,
            source_enabled: self.source_enabled,
            metadata: match self.metadata {
                Some(m) => Some(m@),
                None => None,
            },
        }
    }
}

impl ApiSearchObjectInfo {
    fn duplicate(&self) -> (r: ApiSearchObjectInfo)
        ensures
            r@ == self@,
    {
        ApiSearchObjectInfo {
            id: self.id.clone(),
            name: self.name.clone(),
            path: self.path.clone(),
            thumb: self.thumb,
            size: self.size,
            object_type: self.object_type.clone(),
            date: self.date.clone(),
            create_date: self.create_date.clone(),
            source_enabled: self.source_enabled,
            metadata: match &self.metadata {
                Some(m) => Some(m.duplicate()),
                None => None,
            },
        }
    }
}

/// The mathematical form of a list of results.
pub open spec fn result_views(list: Seq<ApiSearchObjectInfo>) -> Seq<SearchView> {
    list.map_values(|o: ApiSearchObjectInfo| o@)
}

/// The metadata of a file, where it has any.
pub open spec fn metadata_of(file: RemoteFile) -> Option<JsonView> {
    match file.metadata {
        Some(m) => if m@ is Null {
            None
        } else {
            Some(m@)
        },
        None => None,
    }
}

/// Whether the metadata says that there is no thumbnail.
pub open spec fn thumb_disabled(metadata: Option<JsonView>) -> bool {
    match metadata {
        Some(m) => member(m, "thumb:disabled"@) is Some,
        None => false,
    }
}

/// A file found by a search, as it is shown.
pub open spec fn result_of(file: RemoteFile) -> SearchView {
    SearchView {
        id: unix_path(file.path@),
        name: file.name@,
        path: parent_of(unix_path(file.path@)),
        thumb: !file.is_folder && !thumb_disabled(metadata_of(file)) && has_thumbnail(file.name@),
        size: file.size,
        object_type: type_word(file.is_folder),
        date: if file.updated_at@.len() == 0 {
            file.created_at@
        } else {
            file.updated_at@
        },
        create_date: file.created_at@,
        source_enabled: true,
        metadata: metadata_of(file),
    }
}

/// A file found by a search, as it is shown.
pub fn map_v4_search_file(file: &RemoteFile) -> (r: ApiSearchObjectInfo)
    ensures
        r@ == result_of(*file),
{
    let metadata = match &file.metadata {
        Some(m) => match m {
            Json::Null => None,
            _ => Some(m.duplicate()),
        },
        None => None,
    };
    let disabled = match &metadata {
        Some(m) => m.get("thumb:disabled").is_some(),
        None => false,
    };
    let id = v4_uri_to_unix(file.path.as_str());
    let path = unix_parent(id.as_str());
    ApiSearchObjectInfo {
        id,
        name: file.name.clone(),
        path,
        thumb: !file.is_folder && !disabled && supports_thumbnail(file.name.as_str()),
        size: file.size,
        object_type: object_type_of(file.is_folder),
        date: if is_empty_text(file.updated_at.as_str()) {
            file.created_at.clone()
        } else {
            file.updated_at.clone()
        },
        create_date: file.created_at.clone(),
        source_enabled: true,
        metadata,
    }
}

/// Whether one of the results has the path `id`.
pub open spec fn has_result(found: Seq<SearchView>, id: Seq<char>) -> bool {
    exists|i: int| 0 <= i < found.len() && (#[trigger] found[i]).id == id
}

/// The results with those files added, in their order, whose paths are not among them yet.
pub open spec fn with_files(found: Seq<SearchView>, files: Seq<RemoteFile>) -> Seq<SearchView>
    decreases files.len(),
{
    if files.len() == 0 {
        found
    } else {
        let front = with_files(found, files.drop_last());
        let last = result_of(files.last());
        if has_result(front, last.id) {
            front
        } else {
            front.push(last)
        }
    }
}

/// Whether no two results have the same path.
pub open spec fn distinct_ids(found: Seq<SearchView>) -> bool {
    forall|i: int, j: int|
        0 <= i < j < found.len() ==> (#[trigger] found[i]).id != (#[trigger] found[j]).id
}

/// A request for a page of results.
pub struct SearchRequest {
    pub uri: String,
    pub page: u32,
    pub page_size: u32,
    pub order_by: String,
    pub order_direction: String,
    pub next_page_token: Option<String>,
}

/// The mathematical form of how far a search has come: the results so far, the number and the
/// token of the page that is asked for next, and the URI of the search.
#[verifier::ext_equal]
pub struct SearchState {
    pub found: Seq<SearchView>,
    pub page: u32,
    pub token: Option<Seq<char>>,
    pub address: Seq<char>,
}

/// The mathematical form of a page of results: its files, and the token of the next page.
pub struct SearchPage {
    pub files: Seq<RemoteFile>,
    pub next_token: Option<Seq<char>>,
}

/// Whether another page is asked for after a page: not where the page was not full, held nothing
/// new or named no next page, nor after the last page.
pub open spec fn goes_on(state: SearchState, page: SearchPage) -> bool {
    &&& page.files.len() as u32 >= SEARCH_PAGE_SIZE
    &&& with_files(state.found, page.files).len() > state.found.len()
    &&& page.next_token is Some
    &&& state.page + 1 < SEARCH_MAX_PAGES
}

/// How far a search has come after a page.
pub open spec fn after_page(state: SearchState, page: SearchPage) -> SearchState {
    SearchState {
        found: with_files(state.found, page.files),
        page: if goes_on(state, page) {
            (state.page + 1) as u32
        } else {
            state.page
        },
        token: page.next_token,
        address: state.address,
    }
}

/// How far a search has come.
pub struct Search {
    uri: String,
    objects: Vec<ApiSearchObjectInfo>,
    seen: StringHashSet,
    next_page_token: Option<String>,
    page: u32,
}

impl View for Search {
    type V = SearchState;

    open spec fn view(&self) -> SearchState {
        SearchState {
            found: self.found(),
            page: self.at_page(),
            token: self.token(),
            address: self.address(),
        }
    }
}

impl Search {
    /// Whether the paths seen are those of the results, none of them twice, within the pages
    /// that are asked for at most.
    pub closed spec fn wf(self) -> bool {
        &&& self.page < SEARCH_MAX_PAGES
        &&& distinct_ids(self.found())
        &&& forall|id: Seq<char>| #[trigger] self.seen@.contains(id) <==> has_result(
            self.found(),
            id,
        )
    }

    /// The results so far.
    pub closed spec fn found(self) -> Seq<SearchView> {
        result_views(self.objects@)
    }

    /// The number of the page that is asked for next.
    pub closed spec fn at_page(self) -> u32 {
        self.page
    }

    /// The token of the page that is asked for next.
    pub closed spec fn token(self) -> Option<Seq<char>> {
        opt_view(self.next_page_token)
    }

    /// The URI of the search.
    pub closed spec fn address(self) -> Seq<char> {
        self.uri@
    }

    /// The search for a keyword below a path, in any case of letters.
    pub fn new(keyword: &str, path: &str) -> (search: Search)
        ensures
            search.wf(),
            search.found() == Seq::<SearchView>::empty(),
            search.at_page() == 0,
            search.token() is None,
            search.address() == uri_of_search(path@, keyword@, true),
    {
        let uri = cloudreve_api::api::v4::uri::search_uri(path, keyword, true);
        let search = Search {
            uri,
            objects: Vec::new(),
            seen: StringHashSet::new(),
            next_page_token: None,
            page: 0,
        };
        assert(search.found() =~= Seq::empty());
        search
    }

    /// The request for the next page: the latest first.
    pub fn request(&self) -> (r: SearchRequest)
        ensures
            r.uri@ == self.address(),
            r.page == self.at_page(),
            r.page_size == SEARCH_PAGE_SIZE,
            r.order_by@ == SEARCH_ORDER_BY@,
            r.order_direction@ == SEARCH_ORDER_DIRECTION@,
            opt_view(r.next_page_token) == self.token(),
    {
        SearchRequest {
            uri: self.uri.clone(),
            page: self.page,
            page_size: SEARCH_PAGE_SIZE,
            order_by: SEARCH_ORDER_BY.to_string(),
            order_direction: SEARCH_ORDER_DIRECTION.to_string(),
            next_page_token: match &self.next_page_token {
                Some(t) => Some(t.clone()),
                None => None,
            },
        }
    }

    /// Takes in a page and says whether another one is asked for: not where the page was not
    /// full, held nothing new or named no next page, nor after the last page.
    pub fn take_page(&mut self, files: &Vec<RemoteFile>, next_token: Option<String>) -> (more: bool)
        requires
            old(self).wf(),
        ensures
            final(self).wf(),
            more == goes_on(
                old(self)@,
                (SearchPage { files: files@, next_token: opt_view(next_token) }),
            ),
            final(self)@ == after_page(
                old(self)@,
                (SearchPage { files: files@, next_token: opt_view(next_token) }),
            ),
    {
        let ghost start = self.found();
        let before: usize = self.objects.len();
        let mut i: usize = 0;
        while i < files.len()
            invariant
                i <= files@.len(),
                self.wf(),
                self.page == old(self).page,
                self.uri@ == old(self).uri@,
                before == start.len(),
                self.found().len() >= before,
                self.found() == with_files(start, files@.take(i as int)),
            decreases files@.len() - i,
        {
            assert(files@.take(i + 1).drop_last() =~= files@.take(i as int));
            assert(files@.take(i + 1).last() == files@[i as int]);
            let ghost front = self.found();
            let mapped = map_v4_search_file(&files[i]);
            let ghost last = mapped@;
            let fresh = self.seen.insert(mapped.id.clone());
            if fresh {
                self.objects.push(mapped);
                assert(self.found() =~= front.push(last));
                assert forall|id: Seq<char>| #[trigger] self.seen@.contains(id) <==> has_result(
                    self.found(),
                    id,
                ) by {
                    if has_result(front, id) {
                        let k = choose|k: int| 0 <= k < front.len() && (#[trigger] front[k]).id == id;
                        assert(self.found()[k].id == id);
                    }
                    assert(self.found()[front.len() as int].id == last.id);
                    if has_result(self.found(), id) && id != last.id {
                        let k = choose|k: int|
                            0 <= k < self.found().len() && (#[trigger] self.found()[k]).id == id;
                        assert(front[k].id == id);
                    }
                }
                assert forall|a: int, b: int| 0 <= a < b < self.found().len() implies (
                #[trigger] self.found()[a]).id != (#[trigger] self.found()[b]).id by {
                    if b == front.len() {
                        assert(front[a].id != last.id);
                    }
                }
            } else {
                assert forall|id: Seq<char>| #[trigger] self.seen@.contains(id) <==> has_result(
                    self.found(),
                    id,
                ) by {}
            }
            i += 1;
        }
        assert(files@.take(files@.len() as int) =~= files@);
        let returned: usize = files.len();
        let full = !((returned as u32) < SEARCH_PAGE_SIZE);
        let grown = self.objects.len() != before;
        let more = full && grown && next_token.is_some() && self.page + 1 < SEARCH_MAX_PAGES;
        self.next_page_token = next_token;
        if more {
            self.page = self.page + 1;
        }
        more
    }

    /// The results, the latest first and those of one date in the order in which they came.
    pub fn finish(&self) -> (r: Vec<ApiSearchObjectInfo>)
        requires
            self.wf(),
        ensures
            is_newest_first(self.found(), result_views(r@)),
    {
        let mut dates: Vec<String> = Vec::new();
        let mut i: usize = 0;
        while i < self.objects.len()
            invariant
                i <= self.objects@.len(),
                views(dates@) == dates_of(self.found()).take(i as int),
            decreases self.objects@.len() - i,
        {
            let ghost before = dates@;
            dates.push(self.objects[i].date.clone());
            assert(views(dates@) =~= views(before).push(self.objects@[i as int].date@));
            assert(dates_of(self.found()).take(i + 1) =~= dates_of(self.found()).take(
                i as int,
            ).push(self.objects@[i as int].date@));
            i += 1;
        }
        assert(dates_of(self.found()).take(self.objects@.len() as int) =~= dates_of(self.found()));
        assert(views(dates@).len() == dates@.len());
        let order = newest_first(&dates);
        let mut r: Vec<ApiSearchObjectInfo> = Vec::new();
        let mut k: usize = 0;
        while k < order.len()
            invariant
                k <= order@.len(),
                order@.len() == self.objects@.len(),
                forall|a: int| 0 <= a < order@.len() ==> #[trigger] order@[a] < self.objects@.len(),
                result_views(r@) == picked(self.found(), order@).take(k as int),
            decreases order@.len() - k,
        {
            let ghost before = r@;
            let object = self.objects[order[k]].duplicate();
            r.push(object);
            assert(result_views(r@) =~= result_views(before).push(object@));
            assert(picked(self.found(), order@).take(k + 1) =~= picked(self.found(), order@).take(
                k as int,
            ).push(object@));
            k += 1;
        }
        assert(picked(self.found(), order@).take(order@.len() as int) =~= picked(
            self.found(),
            order@,
        ));
        r
    }
}

/// The dates of the results.
pub open spec fn dates_of(found: Seq<SearchView>) -> Seq<Seq<char>> {
    found.map_values(|o: SearchView| o.date)
}

/// The results at the given positions.
pub open spec fn picked(found: Seq<SearchView>, order: Seq<usize>) -> Seq<SearchView> {
    order.map_values(|p: usize| found[p as int])
}

/// Whether `sorted` holds the results, the latest first and those of one date as they stood.
pub open spec fn is_newest_first(found: Seq<SearchView>, sorted: Seq<SearchView>) -> bool {
    exists|order: Seq<usize>|
        #[trigger] is_order(dates_of(found), order, 0, found.len() as int) && sorted == picked(
            found,
            order,
        )
}

/// A page changes nothing of the results that were there, gives every file on it a result, and
/// gives no path a second one.
pub proof fn law_page_adds_each_path_once(found: Seq<SearchView>, files: Seq<RemoteFile>)
    requires
        distinct_ids(found),
    ensures
        found.len() <= with_files(found, files).len(),
        with_files(found, files).take(found.len() as int) == found,
        distinct_ids(with_files(found, files)),
        forall|i: int|
            0 <= i < files.len() ==> has_result(
                with_files(found, files),
                result_of(#[trigger] files[i]).id,
            ),
    decreases files.len(),
{
    let all = with_files(found, files);
    if files.len() == 0 {
        assert(found.take(found.len() as int) =~= found);
    } else {
        let earlier = files.drop_last();
        let front = with_files(found, earlier);
        let last = result_of(files.last());
        law_page_adds_each_path_once(found, earlier);
        assert(all.take(found.len() as int) =~= front.take(found.len() as int));
        if !has_result(front, last.id) {
            assert(all[front.len() as int] == last);
            assert forall|a: int, b: int| 0 <= a < b < all.len() implies (#[trigger] all[a]).id != (
            #[trigger] all[b]).id by {
                if b == front.len() {
                    assert(front[a].id != last.id);
                }
            }
        }
        assert(has_result(all, last.id));
        assert forall|i: int| 0 <= i < files.len() implies has_result(
            all,
            result_of(#[trigger] files[i]).id,
        ) by {
            if i < earlier.len() {
                assert(files[i] == earlier[i]);
                let id = result_of(files[i]).id;
                let k = choose|k: int| 0 <= k < front.len() && (#[trigger] front[k]).id == id;
                assert(all[k].id == id);
            }
        }
    }
}

/// How far a search has come after some pages.
pub open spec fn after_pages(start: SearchState, pages: Seq<SearchPage>) -> SearchState
    decreases pages.len(),
{
    if pages.len() == 0 {
        start
    } else {
        after_page(after_pages(start, pages.drop_last()), pages.last())
    }
}

/// Whether each page behind the first was asked for after the one before it.
pub open spec fn pages_asked_for(start: SearchState, pages: Seq<SearchPage>) -> bool {
    forall|k: int|
        0 <= k < pages.len() - 1 ==> goes_on(
            after_pages(start, pages.take(k)),
            #[trigger] pages[k],
        )
}

/// The files of some pages, one page after the other.
pub open spec fn files_on(pages: Seq<SearchPage>) -> Seq<RemoteFile>
    decreases pages.len(),
{
    if pages.len() == 0 {
        Seq::empty()
    } else {
        files_on(pages.drop_last()) + pages.last().files
    }
}

proof fn lemma_files_add_up(
    found: Seq<SearchView>,
    files: Seq<RemoteFile>,
    later: Seq<RemoteFile>,
)
    ensures
        with_files(with_files(found, files), later) == with_files(found, files + later),
    decreases later.len(),
{
    let all = files + later;
    if later.len() == 0 {
        assert(all =~= files);
    } else {
        lemma_files_add_up(found, files, later.drop_last());
        assert(all.drop_last() =~= files + later.drop_last());
        assert(all.last() == later.last());
    }
}

proof fn lemma_pages_are_counted(start: SearchState, pages: Seq<SearchPage>, k: int)
    requires
        start.page == 0,
        pages_asked_for(start, pages),
        0 <= k < pages.len(),
    ensures
        after_pages(start, pages.take(k)).page == k,
        k < SEARCH_MAX_PAGES,
    decreases k,
{
    if k > 0 {
        lemma_pages_are_counted(start, pages, k - 1);
        assert(pages.take(k).drop_last() =~= pages.take(k - 1));
        assert(pages.take(k).last() == pages[k - 1]);
        assert(goes_on(after_pages(start, pages.take(k - 1)), pages[k - 1]));
    }
}

proof fn lemma_pages_add_up(start: SearchState, pages: Seq<SearchPage>)
    ensures
        after_pages(start, pages).found == with_files(start.found, files_on(pages)),
        after_pages(start, pages).address == start.address,
    decreases pages.len(),
{
    if pages.len() > 0 {
        let earlier = pages.drop_last();
        lemma_pages_add_up(start, earlier);
        lemma_files_add_up(start.found, files_on(earlier), pages.last().files);
    }
}

/// A search finds what all its pages hold, in their order and each path once, however the files
/// are spread over the pages; and it takes in no more pages than the limit.
pub proof fn law_search_finds_what_its_pages_hold(start: SearchState, pages: Seq<SearchPage>)
    requires
        start.found == Seq::<SearchView>::empty(),
        start.page == 0,
        pages_asked_for(start, pages),
    ensures
        after_pages(start, pages).found == with_files(Seq::empty(), files_on(pages)),
        after_pages(start, pages).address == start.address,
        distinct_ids(after_pages(start, pages).found),
        forall|i: int|
            0 <= i < files_on(pages).len() ==> has_result(
                after_pages(start, pages).found,
                result_of(#[trigger] files_on(pages)[i]).id,
            ),
        pages.len() <= SEARCH_MAX_PAGES,
{
    lemma_pages_add_up(start, pages);
    law_page_adds_each_path_once(start.found, files_on(pages));
    if pages.len() > 0 {
        lemma_pages_are_counted(start, pages, pages.len() - 1);
    }
}

/// What a search gives is what it found, each once, and no later date stands behind an earlier
/// one.
pub proof fn law_search_result_is_sorted(found: Seq<SearchView>, sorted: Seq<SearchView>)
    requires
        distinct_ids(found),
        is_newest_first(found, sorted),
    ensures
        sorted.len() == found.len(),
        distinct_ids(sorted),
        forall|i: int| 0 <= i < found.len() ==> sorted.contains(#[trigger] found[i]),
        forall|a: int, b: int|
            0 <= a < b < sorted.len() ==> !text_before(
                (#[trigger] sorted[a]).date,
                (#[trigger] sorted[b]).date,
            ),
{
    let order = choose|order: Seq<usize>|
        #[trigger] is_order(dates_of(found), order, 0, found.len() as int) && sorted == picked(
            found,
            order,
        );
    law_order_keeps_everything(dates_of(found), order);
    assert forall|i: int| 0 <= i < found.len() implies sorted.contains(#[trigger] found[i]) by {
        assert(positions(order).contains(i));
        let a = choose|a: int| 0 <= a < order.len() && positions(order)[a] == i;
        assert(sorted[a] == found[i]);
    }
    assert forall|a: int, b: int| 0 <= a < b < sorted.len() implies !text_before(
        (#[trigger] sorted[a]).date,
        (#[trigger] sorted[b]).date,
    ) by {
        let p = order[a] as int;
        let q = order[b] as int;
        assert(newer(dates_of(found), p, q));
        if text_before(found[p].date, found[q].date) {
            if text_before(found[q].date, found[p].date) {
                lemma_before_transitive(found[p].date, found[q].date, found[p].date);
            }
            lemma_before_irreflexive(found[p].date);
        }
    }
    assert forall|a: int, b: int| 0 <= a < b < sorted.len() implies (#[trigger] sorted[a]).id != (
    #[trigger] sorted[b]).id by {
        assert(order[a] != order[b]);
        assert(found[order[a] as int].id != found[order[b] as int].id);
    }
}

/// A file that a search finds has the path, the directory and the name that it has in the listing
/// of its directory.
pub proof fn law_search_and_listing_agree(file: RemoteFile)
    ensures
        result_of(file).id == object_of(file).id,
        result_of(file).path == object_of(file).path,
        result_of(file).name == object_of(file).name,
        result_of(file).object_type == object_of(file).object_type,
        result_of(file).thumb ==> object_of(file).thumb,
{
}

/// A search never asks for more pages than the limit.
pub proof fn law_search_stays_within_its_pages(search: Search)
    requires
        search.wf(),
    ensures
        search.at_page() < SEARCH_MAX_PAGES,
        distinct_ids(search.found()),
{
}

} // verus!
