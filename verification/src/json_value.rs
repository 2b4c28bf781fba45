//! A JSON value as the library reads it, and the way the pages of a playlist
//! are walked to find their entries and the token of the next page.

use vstd::prelude::*;

use crate::id_order::str_eq;

verus! {

/// A JSON value. Numbers keep their text; an object keeps its members in order.
#[derive(Debug)]
pub enum JsonValue {
    Null,
    Bool(bool),
    Number(String),
    Str(String),
    Array(Vec<JsonValue>),
    Object(Vec<JsonMember>),
}

/// A member of a JSON object: its name and value.
#[derive(Debug)]
pub struct JsonMember {
    pub name: String,
    pub value: JsonValue,
}

/// The value of the first member named `key` among `members`, or `null`.
pub open spec fn member_value(members: Seq<JsonMember>, key: Seq<char>) -> JsonValue
    decreases members.len(),
{
    if members.len() == 0 {
        JsonValue::Null
    } else if members[0].name@ == key {
        members[0].value
    } else {
        member_value(members.drop_first(), key)
    }
}

/// `v[key]`: the member of an object, or `null` for a missing member and for
/// anything that is not an object.
pub open spec fn get_key(v: JsonValue, key: Seq<char>) -> JsonValue {
    match v {
        JsonValue::Object(members) => member_value(members@, key),
        _ => JsonValue::Null,
    }
}

/// `v[i]`: the element of an array, or `null` past its end and for anything
/// that is not an array.
pub open spec fn get_index(v: JsonValue, i: int) -> JsonValue {
    match v {
        JsonValue::Array(items) => if 0 <= i < items@.len() {
            items@[i]
        } else {
            JsonValue::Null
        },
        _ => JsonValue::Null,
    }
}

/// A reference that may be missing, read as `null` when it is.
pub open spec fn or_null(r: Option<&JsonValue>) -> JsonValue {
    match r {
        Some(v) => *v,
        None => JsonValue::Null,
    }
}

/// `v[key]`, with `None` standing for `null` where the member is missing.
pub fn member<'a>(v: &'a JsonValue, name: &str) -> (r: Option<&'a JsonValue>)
    ensures
        or_null(r) == get_key(*v, name@),
{
    match v {
        JsonValue::Object(members) => {
            let mut i: usize = 0;
            proof {
                assert(members@.subrange(0, members@.len() as int) =~= members@);
            }
            while i < members.len()
                invariant
                    i <= members@.len(),
                    get_key(*v, name@) == member_value(members@, name@),
                    member_value(members@, name@) == member_value(members@.subrange(i as int, members@.len() as int), name@),
                decreases members@.len() - i,
            {
                let ghost rest = members@.subrange(i as int, members@.len() as int);
                proof {
                    assert(rest.drop_first() =~= members@.subrange(i + 1, members@.len() as int));
                    assert(rest[0] == members@[i as int]);
                }
                if str_eq(members[i].name.as_str(), name) {
                    assert(rest[0].name@ == name@);
                    assert(member_value(rest, name@) == members@[i as int].value);
                    return Some(&members[i].value);
                }
                i = i + 1;
            }
            proof {
                assert(members@.subrange(i as int, members@.len() as int).len() == 0);
            }
            None
        },
        _ => None,
    }
}

/// `v[i]`, with `None` standing for `null` where the element is missing.
pub fn element<'a>(v: &'a JsonValue, i: usize) -> (r: Option<&'a JsonValue>)
    ensures
        or_null(r) == get_index(*v, i as int),
{
    match v {
        JsonValue::Array(items) => if i < items.len() {
            Some(&items[i])
        } else {
            None
        },
        _ => None,
    }
}

/// `v[key]` of a value that may be missing.
pub fn member_of<'a>(v: Option<&'a JsonValue>, k: &str) -> (r: Option<&'a JsonValue>)
    ensures
        or_null(r) == get_key(or_null(v), k@),
{
    match v {
        Some(x) => member(x, k),
        None => None,
    }
}

/// `v[i]` of a value that may be missing.
pub fn element_of<'a>(v: Option<&'a JsonValue>, i: usize) -> (r: Option<&'a JsonValue>)
    ensures
        or_null(r) == get_index(or_null(v), i as int),
{
    match v {
        Some(x) => element(x, i),
        None => None,
    }
}

/// Whether a value that may be missing is `null`.
pub fn is_null(v: Option<&JsonValue>) -> (b: bool)
    ensures
        b == (or_null(v) is Null),
{
    match v {
        Some(JsonValue::Null) => true,
        Some(_) => false,
        None => true,
    }
}

/// `x["itemSectionRenderer"]["contents"][0]["playlistVideoListRenderer"]`.
pub open spec fn video_list_renderer(x: JsonValue) -> JsonValue {
    get_key(get_index(get_key(get_key(x, "itemSectionRenderer"@), "contents"@), 0), "playlistVideoListRenderer"@)
}

/// `data["contents"]["twoColumnBrowseResultsRenderer"]["tabs"][0]["tabRenderer"]["content"]["sectionListRenderer"]["contents"]`.
pub open spec fn section_contents(data: JsonValue) -> JsonValue {
    get_key(
        get_key(
            get_key(
                get_key(
                    get_index(
                        get_key(get_key(get_key(data, "contents"@), "twoColumnBrowseResultsRenderer"@), "tabs"@),
                        0,
                    ),
                    "tabRenderer"@,
                ),
                "content"@,
            ),
            "sectionListRenderer"@,
        ),
        "contents"@,
    )
}

/// Where a playlist page keeps its entries: under the first (or, when that
/// has none, the second) section of a first page, or under the continuation
/// items of a later page.
pub open spec fn playlist_items(data: JsonValue) -> JsonValue {
    let section = section_contents(data);
    if !(section is Null) {
        let first = video_list_renderer(get_index(section, 0));
        let important = if first is Null {
            video_list_renderer(get_index(section, 1))
        } else {
            first
        };
        get_key(important, "contents"@)
    } else {
        get_key(
            get_key(get_index(get_key(data, "onResponseReceivedActions"@), 0), "appendContinuationItemsAction"@),
            "continuationItems"@,
        )
    }
}

/// The token of the next page, when the entry holds one as a string.
pub open spec fn continuation_token(entry: JsonValue) -> Option<Seq<char>> {
    match get_key(
        get_key(get_key(get_key(entry, "continuationItemRenderer"@), "continuationEndpoint"@), "continuationCommand"@),
        "token"@,
    ) {
        JsonValue::Str(t) => Some(t@),
        _ => None,
    }
}

/// The entries of a playlist page (the `playlistVideoRenderer` of each item)
/// and the token of the next page, which the last item holds when there is
/// one; `None` when the items are not a non-empty array.
pub open spec fn playlist_page_of(data: JsonValue) -> Option<(Seq<JsonValue>, Option<Seq<char>>)> {
    match playlist_items(data) {
        JsonValue::Array(items) => if items@.len() == 0 {
            None
        } else {
            let token = continuation_token(items@.last());
            let entries = if token is Some {
                items@.drop_last()
            } else {
                items@
            };
            Some((entries.map_values(|x: JsonValue| get_key(x, "playlistVideoRenderer"@)), token))
        },
        _ => None,
    }
}

/// The entries of a playlist page, or none when it has none to give.
pub open spec fn page_entries(data: JsonValue) -> Seq<JsonValue> {
    match playlist_page_of(data) {
        Some((es, _)) => es,
        None => Seq::empty(),
    }
}

fn video_list_renderer_exec<'a>(x: Option<&'a JsonValue>) -> (r: Option<&'a JsonValue>)
    ensures
        or_null(r) == video_list_renderer(or_null(x)),
{
    member_of(element_of(member_of(member_of(x, "itemSectionRenderer"), "contents"), 0), "playlistVideoListRenderer")
}

/// The entries of a playlist page and the token of the next page (see
/// `playlist_page_of`); an entry that is `null` is given as `None`.
pub fn playlist_page<'a>(data: &'a JsonValue) -> (r: Option<(Vec<Option<&'a JsonValue>>, Option<String>)>)
    ensures
        match r {
            Some((entries, token)) => playlist_page_of(*data) matches Some((es, tok)) && entries@.len()
                == es.len() && (forall|i: int| 0 <= i < es.len() ==> or_null(#[trigger] entries@[i]) == es[i])
                && match token {
                Some(t) => tok == Some(t@),
                None => tok is None,
            },
            None => playlist_page_of(*data) is None,
        },
{
    let d = Some(data);
    let section = member_of(
        member_of(
            member_of(
                member_of(
                    element_of(member_of(member_of(member_of(d, "contents"), "twoColumnBrowseResultsRenderer"), "tabs"), 0),
                    "tabRenderer",
                ),
                "content",
            ),
            "sectionListRenderer",
        ),
        "contents",
    );
    let items = if !is_null(section) {
        let first = video_list_renderer_exec(element_of(section, 0));
        let important = if is_null(first) {
            video_list_renderer_exec(element_of(section, 1))
        } else {
            first
        };
        member_of(important, "contents")
    } else {
        member_of(
            member_of(element_of(member_of(d, "onResponseReceivedActions"), 0), "appendContinuationItemsAction"),
            "continuationItems",
        )
    };
    let list = match items {
        Some(JsonValue::Array(list)) => list,
        _ => {
            return None;
        },
    };
    let n = list.len();
    if n == 0 {
        return None;
    }
    let last = Some(&list[n - 1]);
    let token_value = member_of(
        member_of(member_of(member_of(last, "continuationItemRenderer"), "continuationEndpoint"), "continuationCommand"),
        "token",
    );
    let token = match token_value {
        Some(JsonValue::Str(t)) => Some(t.clone()),
        _ => None,
    };
    let count = if token.is_some() {
        n - 1
    } else {
        n
    };
    let ghost es = page_entries(*data);
    let mut entries: Vec<Option<&'a JsonValue>> = Vec::new();
    let mut i: usize = 0;
    while i < count
        invariant
            i <= count <= n,
            n == list@.len(),
            playlist_items(*data) == JsonValue::Array(*list),
            count == (if token is Some { n - 1 } else { n as int }),
            es == page_entries(*data),
            es.len() == count,
            entries@.len() == i,
            forall|j: int| 0 <= j < i ==> or_null(#[trigger] entries@[j]) == es[j],
        decreases count - i,
    {
        entries.push(member(&list[i], "playlistVideoRenderer"));
        i = i + 1;
    }
    Some((entries, token))
}

/// The sections of a first playlist page:
/// `data.contents.twoColumnBrowseResultsRenderer.tabs[0].tabRenderer.content.sectionListRenderer.contents`.
pub open spec fn page_sections(data: JsonValue) -> JsonValue {
    let tabs = get_key(get_key(get_key(data, "contents"@), "twoColumnBrowseResultsRenderer"@), "tabs"@);
    let content = get_key(get_key(get_index(tabs, 0), "tabRenderer"@), "content"@);
    get_key(get_key(content, "sectionListRenderer"@), "contents"@)
}

/// The video list of a section:
/// `section.itemSectionRenderer.contents[0].playlistVideoListRenderer`.
pub open spec fn section_video_list(section: JsonValue) -> JsonValue {
    get_key(get_index(get_key(get_key(section, "itemSectionRenderer"@), "contents"@), 0), "playlistVideoListRenderer"@)
}

/// The entries of a first playlist page are the `playlistVideoRenderer` of
/// each item of the video list of its first section, or of its second
/// section when the first has no video list. When the last item holds no
/// continuation, every item is an entry and there is no next page; when it
/// holds a continuation token, it is the token of the next page and the other
/// items are the entries.
pub proof fn lemma_first_page_entries(data: JsonValue, items: Seq<JsonValue>)
    requires
        page_sections(data) is Array,
        (if section_video_list(get_index(page_sections(data), 0)) is Null {
            get_key(section_video_list(get_index(page_sections(data), 1)), "contents"@)
        } else {
            get_key(section_video_list(get_index(page_sections(data), 0)), "contents"@)
        }) matches JsonValue::Array(list) && list@ == items,
        items.len() > 0,
    ensures
        playlist_page_of(data) matches Some((es, tok)) && ({
            let last = get_key(
                get_key(get_key(get_key(items.last(), "continuationItemRenderer"@), "continuationEndpoint"@), "continuationCommand"@),
                "token"@,
            );
            let n = if last is Str { items.len() - 1 } else { items.len() as int };
            &&& tok == (match last {
                JsonValue::Str(t) => Some(t@),
                _ => None,
            })
            &&& es.len() == n
            &&& forall|i: int| 0 <= i < n ==> es[i] == get_key(#[trigger] items[i], "playlistVideoRenderer"@)
        }),
{
    assert(section_contents(data) == page_sections(data));
    let list = playlist_items(data);
    assert(list matches JsonValue::Array(l) && l@ == items);
}

/// Where a playlist page keeps what it says about the playlist:
/// `data["microformat"]["microformatDataRenderer"]`, `None` standing for `null`.
pub fn playlist_metadata<'a>(data: &'a JsonValue) -> (r: Option<&'a JsonValue>)
    ensures
        or_null(r) == get_key(get_key(*data, "microformat"@), "microformatDataRenderer"@),
{
    member_of(member(data, "microformat"), "microformatDataRenderer")
}

} // verus!
