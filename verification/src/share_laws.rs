//! What holds of share links, thumbnails and avatars as a whole.
use crate::json::{array_in, bool_in, int_in, member, opt_member, text_in, JsonView};
use crate::key_order::lemma_share_keys;
use crate::lookup::text_or_empty;
use crate::query::query_component;
use crate::session_laws::law_address_of_the_server;
use crate::share::{
    after_page, enriched, goes_on, info_address, lemma_member_by_position, page_address,
    share_address, shares_on, unified_share, v3_after_page, v3_goes_on, v3_items, v3_shares,
    SharePage, SharesState, V3SharesState,
};
use crate::text::{decimal, has_prefix, CharClass};
use crate::text_laws::{law_before_first, law_trim_leaves_the_inside};
use crate::thumb::{avatar_address, image_type, missing_thumb};
use vstd::prelude::*;

verus! {

broadcast use vstd::string::group_string_axioms;

/// A share of version 3 is shown with the key, the name, the password and the time that the server
/// gives it, each as a text and empty where the server gives none.
pub proof fn law_share_is_shown_as_the_server_has_it(item: JsonView, base_url: Seq<char>)
    ensures
        ({
            let shown = unified_share(item, base_url);
            &&& text_in(member(shown, "id"@)) == Some(text_or_empty(text_in(member(item, "key"@))))
            &&& text_in(member(shown, "password"@)) == Some(
                text_or_empty(text_in(member(item, "password"@))),
            )
            &&& text_in(member(shown, "created_at"@)) == Some(
                text_or_empty(text_in(member(item, "create_date"@))),
            )
            &&& text_in(member(shown, "name"@)) == Some(
                text_or_empty(text_in(opt_member(member(item, "source"@), "name"@))),
            )
            &&& text_in(opt_member(member(shown, "source"@), "name"@)) == text_in(
                member(shown, "name"@),
            )
            &&& text_in(member(shown, "source_uri"@)) == Some(Seq::<char>::empty())
        }),
{
    lemma_share_keys(item, base_url);
    let entries = unified_share(item, base_url)->Object_0;
    lemma_member_by_position(entries, 0);
    lemma_member_by_position(entries, 4);
    lemma_member_by_position(entries, 5);
    lemma_member_by_position(entries, 6);
    lemma_member_by_position(entries, 8);
    lemma_member_by_position(entries, 10);
    let source = entries[8].1->Object_0;
    lemma_member_by_position(source, 0);
}

/// A share of version 3 is shown with the server's counts of downloads and views, as a directory
/// exactly where the server says so, and as protected exactly where it has a password.
pub proof fn law_share_is_counted(item: JsonView, base_url: Seq<char>)
    ensures
        ({
            let shown = unified_share(item, base_url);
            &&& int_in(member(shown, "downloaded"@)) == match int_in(member(item, "downloads"@)) {
                Some(n) => Some(n),
                None => Some(0i64),
            }
            &&& int_in(member(shown, "visited"@)) == match int_in(member(item, "views"@)) {
                Some(n) => Some(n),
                None => Some(0i64),
            }
            &&& int_in(member(shown, "source_type"@)) == if member(item, "is_dir"@) == Some(
                JsonView::Bool(true),
            ) {
                Some(1i64)
            } else {
                Some(0i64)
            }
            &&& bool_in(member(shown, "password_protected"@)) == Some(
                text_in(member(item, "password"@)) matches Some(p) && p.len() > 0,
            )
        }),
{
    lemma_share_keys(item, base_url);
    let entries = unified_share(item, base_url)->Object_0;
    lemma_member_by_position(entries, 1);
    lemma_member_by_position(entries, 7);
    lemma_member_by_position(entries, 9);
    lemma_member_by_position(entries, 12);
}

/// A share of version 3 has expired exactly where no time is left to it; it expires where some is
/// left, and never where the server sets no time or a negative one.
pub proof fn law_share_expires(item: JsonView, base_url: Seq<char>)
    ensures
        ({
            let shown = unified_share(item, base_url);
            let left = int_in(member(item, "expire"@));
            &&& bool_in(member(shown, "expired"@)) == Some(left == Some(0i64))
            &&& left matches Some(n) ==> (n > 0 ==> text_in(member(shown, "expires"@)) == Some(
                decimal(n as int),
            ))
            &&& left is None || left->0 <= 0 ==> member(shown, "expires"@) == Some(JsonView::Null)
        }),
{
    lemma_share_keys(item, base_url);
    let entries = unified_share(item, base_url)->Object_0;
    lemma_member_by_position(entries, 2);
    lemma_member_by_position(entries, 3);
}

/// The link of a share leads to the server, to the key of the share, and behind that to its
/// password where it has one.
pub proof fn law_link_of_a_share(
    item: JsonView,
    base_url: Seq<char>,
    key: Seq<char>,
    password: Seq<char>,
)
    ensures
        share_address(base_url, key, Seq::empty()) == base_url + "/s/"@ + key,
        password.len() > 0 ==> share_address(base_url, key, password) == base_url + "/s/"@ + key
            + "/"@ + password,
        text_in(member(unified_share(item, base_url), "url"@)) == Some(
            share_address(
                base_url,
                text_or_empty(text_in(member(item, "key"@))),
                text_or_empty(text_in(member(item, "password"@))),
            ),
        ),
{
    lemma_share_keys(item, base_url);
    let entries = unified_share(item, base_url)->Object_0;
    lemma_member_by_position(entries, 11);
}

/// The shares in an answer of version 3 are the items in its data, each shown in its place; where
/// it has none there are no shares.
pub proof fn law_shares_in_an_answer(answer: JsonView, base_url: Seq<char>)
    ensures
        array_in(opt_member(member(answer, "data"@), "items"@)) matches Some(items) ==> v3_items(
            answer,
        ) == items,
        array_in(opt_member(member(answer, "data"@), "items"@)) is None ==> v3_items(answer).len()
            == 0,
        v3_shares(answer, base_url).len() == v3_items(answer).len(),
        forall|i: int|
            0 <= i < v3_items(answer).len() ==> #[trigger] v3_shares(answer, base_url)[i]
                == unified_share(v3_items(answer)[i], base_url),
{
}

/// The list of version 3 goes on for up to 100 pages and ends before only at an empty one; the page
/// that is asked for next is the following one.
pub proof fn law_v3_list_ends_only_for_a_reason(
    state: V3SharesState,
    answer: JsonView,
    base_url: Seq<char>,
)
    ensures
        v3_goes_on(state, answer) <==> v3_items(answer).len() > 0 && state.page < 100,
        v3_goes_on(state, answer) ==> v3_after_page(state, answer, base_url).page == state.page + 1,
        v3_after_page(state, answer, base_url).found == state.found + v3_shares(answer, base_url),
{
}

/// The list of version 4 goes on for up to 100 pages and ends before only where a page names no
/// next one or the one that was just taken in; the next page is asked for by the token that was
/// named.
pub proof fn law_list_ends_only_for_a_reason(state: SharesState, page: SharePage)
    requires
        state.taken < 100,
    ensures
        !goes_on(state, page) ==> state.taken == 99 || page.next_token is None || page.next_token
            == state.token,
        goes_on(state, page) ==> state.taken < 99 && page.next_token is Some && page.next_token
            != state.token && after_page(state, page).token == page.next_token,
        after_page(state, page).taken == state.taken + 1,
        after_page(state, page).found == state.found + page.shares,
{
}

/// The shares on a page of version 4 are the items under `shares`, and none where there are none.
pub proof fn law_shares_on_a_page(data: JsonView)
    ensures
        array_in(member(data, "shares"@)) matches Some(items) ==> shares_on(data) == items,
        array_in(member(data, "shares"@)) is None ==> shares_on(data).len() == 0,
{
}

/// The first page is asked for without a token, and every other with the token that names it.
pub proof fn law_page_is_asked_for_by_its_token(token: Seq<char>)
    ensures
        page_address(None) == "/share?page_size=100"@,
        page_address(Some(token)) == page_address(None) + "&next_page_token="@ + query_component(
            token,
        ),
{
}

/// More is asked of a share exactly where it has an id and does not say where what it shares is; it
/// is asked for by the id, and with the password where the share has one.
pub proof fn law_more_is_asked_of_a_share(
    share: JsonView,
    id: Seq<char>,
    password: Seq<char>,
)
    requires
        text_in(member(share, "id"@)) == Some(id),
        text_in(member(share, "password"@)) == Some(password),
    ensures
        (text_in(member(share, "source_uri"@)) matches Some(uri) && uri.len() > 0) ==> info_address(
            share,
        ) is None,
        id.len() == 0 ==> info_address(share) is None,
        id.len() > 0 && !(text_in(member(share, "source_uri"@)) matches Some(uri) && uri.len() > 0)
            ==> info_address(share) == Some(
            "/share/info/"@ + query_component(id) + "?owner_extended=true&count_views=false"@ + (
            if password.len() > 0 {
                "&password="@ + query_component(password)
            } else {
                Seq::empty()
            }),
        ),
{
    let address = "/share/info/"@ + query_component(id)
        + "?owner_extended=true&count_views=false"@;
    assert(address + Seq::<char>::empty() =~= address);
    assert(address + ("&password="@ + query_component(password)) =~= address + "&password="@
        + query_component(password));
}

/// A share without an id is not asked for, and one without a password is asked for without one.
pub proof fn law_share_without_id_or_password(share: JsonView, id: Seq<char>)
    ensures
        text_in(member(share, "id"@)) is None ==> info_address(share) is None,
        text_in(member(share, "id"@)) == Some(id) && id.len() > 0 && text_in(
            member(share, "password"@),
        ) is None && text_in(member(share, "source_uri"@)) is None ==> info_address(share) == Some(
            "/share/info/"@ + query_component(id) + "?owner_extended=true&count_views=false"@,
        ),
{
}

/// A share stays as it is where nothing more was learned of it, and what is no object is not filled
/// in.
pub proof fn law_nothing_learned_nothing_changed(share: JsonView, detail: Option<JsonView>)
    ensures
        enriched(share, None) == share,
        !(share is Object) ==> enriched(share, detail) == share,
        !(detail matches Some(JsonView::Object(_))) ==> enriched(share, detail) == share,
{
}

/// The type of an image is the one that the server names, without parameters and white space; where
/// it names none, or one that is no image, the image is taken for JPEG.
pub proof fn law_type_of_an_image(kind: Seq<char>, parameters: Seq<char>, other: Seq<char>)
    requires
        !kind.contains(';'),
        kind.len() > 0,
        !CharClass::White.has(kind.last()),
        !other.contains(';'),
        other.len() > 0 ==> !CharClass::White.has(other[0]) && !CharClass::White.has(other.last()),
        !has_prefix(other, "image/"@),
        has_prefix(kind, "image/"@),
    ensures
        image_type(Some(kind)) == kind,
        image_type(Some(kind.push(';') + parameters)) == kind,
        image_type(Some(other)) == "image/jpeg"@,
        image_type(None) == "image/jpeg"@,
{
    reveal_strlit("image/");
    assert(kind[0] == 'i') by {
        assert(kind.subrange(0, 6)[0] == kind[0]);
    }
    law_before_first(kind, ';', parameters);
    law_before_first(other, ';', Seq::empty());
    let none = Seq::<char>::empty();
    law_trim_leaves_the_inside(none, kind, none, CharClass::White);
    law_trim_leaves_the_inside(none, other, none, CharClass::White);
    assert(none + kind + none =~= kind);
    assert(none + other + none =~= other);
}

/// Why there is no thumbnail is told in the words of the server, where it has any, and with its
/// code.
pub proof fn law_missing_thumbnail_is_explained(code: i32, msg: Seq<char>)
    ensures
        msg.len() > 0 ==> missing_thumb(code, msg) == msg + " (code "@ + decimal(code as int)
            + ")"@,
        msg.len() == 0 ==> missing_thumb(code, msg) == "thumbnail unavailable (code "@ + decimal(
            code as int,
        ) + ")"@,
{
    reveal_strlit("thumbnail unavailable");
    reveal_strlit(" (code ");
    reveal_strlit("thumbnail unavailable (code ");
    assert("thumbnail unavailable"@ + " (code "@ =~= "thumbnail unavailable (code "@);
}

/// An avatar is fetched from the server, below the version of the API that it speaks, by the id of
/// the user; slashes at the end of the server's address do not count.
pub proof fn law_address_of_an_avatar(base_url: Seq<char>, user: Seq<char>)
    requires
        base_url.len() > 0,
        base_url.last() != '/',
    ensures
        avatar_address(base_url, true, user) == base_url + ("/api/v3/user/avatar/"@ + user + "/l"@),
        avatar_address(base_url, false, user) == base_url + ("/api/v4/user/avatar/"@ + user
            + "?nocache=true"@),
        forall|is_v3: bool| #[trigger]
            avatar_address(base_url.push('/'), is_v3, user) == avatar_address(
                base_url,
                is_v3,
                user,
            ),
{
    law_address_of_the_server(base_url, "/api/v3/user/avatar/"@ + user + "/l"@);
    law_address_of_the_server(base_url, "/api/v4/user/avatar/"@ + user + "?nocache=true"@);
}

} // verus!
