use rustube::id::Id;
use rustube::json_value::{element, member, playlist_metadata, playlist_page, JsonMember, JsonValue};
use rustube::playlist::{
    first_run_text, Channel, ChannelInfo, ChannelVideo, ContinuationReq, Playlist, PlaylistInfo,
    PlaylistVideo, Thumbnail,
};

fn s(x: &str) -> JsonValue {
    JsonValue::Str(x.to_string())
}

fn obj(members: Vec<(&str, JsonValue)>) -> JsonValue {
    JsonValue::Object(
        members.into_iter().map(|(n, v)| JsonMember { name: n.to_string(), value: v }).collect(),
    )
}

fn entry(id: &str) -> JsonValue {
    obj(vec![("playlistVideoRenderer", obj(vec![("videoId", s(id))]))])
}

fn continuation(token: &str) -> JsonValue {
    obj(vec![(
        "continuationItemRenderer",
        obj(vec![(
            "continuationEndpoint",
            obj(vec![("continuationCommand", obj(vec![("token", s(token))]))]),
        )]),
    )])
}

fn video_id_of(v: Option<&JsonValue>) -> String {
    match member(v.unwrap(), "videoId") {
        Some(JsonValue::Str(x)) => x.clone(),
        _ => panic!("no id"),
    }
}

fn first_page(items: Vec<JsonValue>) -> JsonValue {
    let list = obj(vec![("contents", JsonValue::Array(items))]);
    let section = obj(vec![(
        "itemSectionRenderer",
        obj(vec![("contents", JsonValue::Array(vec![obj(vec![("playlistVideoListRenderer", list)])]))]),
    )]);
    obj(vec![(
        "contents",
        obj(vec![(
            "twoColumnBrowseResultsRenderer",
            obj(vec![(
                "tabs",
                JsonValue::Array(vec![obj(vec![(
                    "tabRenderer",
                    obj(vec![(
                        "content",
                        obj(vec![("sectionListRenderer", obj(vec![("contents", JsonValue::Array(vec![section]))]))]),
                    )]),
                )])]),
            )]),
        )]),
    )])
}

#[test]
fn continuation_request_names_the_web_client() {
    let req = ContinuationReq::new("4qmFsgKlARIk");
    assert_eq!(req.continuation, "4qmFsgKlARIk");
    assert_eq!(req.context.client.client_name, "WEB");
    assert_eq!(req.context.client.client_version, "2.20221124.00.00");
}

#[test]
fn the_first_run_is_the_title() {
    assert_eq!(first_run_text(&vec!["first".to_string(), "second".to_string()]), "first");
    assert_eq!(first_run_text(&vec![]), "");
}

#[test]
fn add_author_sets_the_author_and_copies() {
    let mut v = ChannelVideo {
        video_id: Id::from_raw("5jlI4uzZGjU").unwrap().into_owned(),
        title: "t".to_string(),
        length_seconds: 61,
        thumbnails: vec![Thumbnail { width: 1, height: 2, url: "https://i.ytimg.com/x.jpg".to_string() }],
        author: String::new(),
    };
    let copy = v.add_author("someone".to_string());
    assert_eq!(v.author, "someone");
    assert_eq!(copy.author, "someone");
    assert_eq!(copy.title, "t");
    assert_eq!(copy.length_seconds, 61);
    assert_eq!(copy.thumbnails.len(), 1);
    assert_eq!(copy.video_id.as_str(), "5jlI4uzZGjU");
}

#[test]
fn json_members_and_elements() {
    let v = obj(vec![("a", s("x")), ("a", s("y")), ("b", JsonValue::Array(vec![JsonValue::Bool(true)]))]);
    assert!(matches!(member(&v, "a"), Some(JsonValue::Str(x)) if x == "x"));
    assert!(member(&v, "missing").is_none());
    assert!(matches!(element(member(&v, "b").unwrap(), 0), Some(JsonValue::Bool(true))));
    assert!(element(member(&v, "b").unwrap(), 1).is_none());
    assert!(element(&v, 0).is_none());
}

#[test]
fn a_first_page_lists_its_entries_and_the_next_token() {
    let page = first_page(vec![entry("aaaaaaaaaaa"), entry("bbbbbbbbbbb"), continuation("NEXT")]);
    let (entries, token) = playlist_page(&page).unwrap();
    assert_eq!(token.as_deref(), Some("NEXT"));
    let ids: Vec<String> = entries.into_iter().map(video_id_of).collect();
    assert_eq!(ids, vec!["aaaaaaaaaaa".to_string(), "bbbbbbbbbbb".to_string()]);
}

#[test]
fn the_last_page_has_no_token() {
    let page = first_page(vec![entry("aaaaaaaaaaa")]);
    let (entries, token) = playlist_page(&page).unwrap();
    assert_eq!(token, None);
    assert_eq!(entries.len(), 1);
}

#[test]
fn a_continuation_page_keeps_its_items_under_the_action() {
    let page = obj(vec![(
        "onResponseReceivedActions",
        JsonValue::Array(vec![obj(vec![(
            "appendContinuationItemsAction",
            obj(vec![("continuationItems", JsonValue::Array(vec![entry("ccccccccccc"), continuation("MORE")]))]),
        )])]),
    )]);
    let (entries, token) = playlist_page(&page).unwrap();
    assert_eq!(token.as_deref(), Some("MORE"));
    assert_eq!(video_id_of(entries[0]), "ccccccccccc");
}

#[test]
fn a_page_without_items_gives_nothing() {
    assert!(playlist_page(&first_page(vec![])).is_none());
    assert!(playlist_page(&JsonValue::Null).is_none());
}

#[test]
fn the_playlist_metadata_is_under_the_microformat() {
    let page = obj(vec![("microformat", obj(vec![("microformatDataRenderer", obj(vec![("title", s("T"))]))]))]);
    assert!(matches!(member(playlist_metadata(&page).unwrap(), "title"), Some(JsonValue::Str(t)) if t == "T"));
    assert!(playlist_metadata(&JsonValue::Null).is_none());
}

#[test]
fn playlists_and_channels_hand_out_copies() {
    let info = PlaylistInfo {
        thumbnails: vec![],
        title: "list".to_string(),
        description: "d".to_string(),
        page_url: "https://www.youtube.com/playlist?list=PL1".to_string(),
    };
    let entry = PlaylistVideo {
        index: 1,
        video_id: Id::from_raw("5jlI4uzZGjU").unwrap().into_owned(),
        title: "t".to_string(),
        length_seconds: 10,
        thumbnails: vec![],
        author: "a".to_string(),
    };
    let playlist = Playlist::new(info, vec![entry]);
    assert_eq!(playlist.playlist_info().title, "list");
    assert_eq!(playlist.videos()[0].video_id.as_str(), "5jlI4uzZGjU");
    let channel = Channel::new(
        ChannelInfo {
            title: "c".to_string(),
            description: String::new(),
            keywords: Some("k".to_string()),
            channel_url: "https://www.youtube.com/@c".to_string(),
            thumbnail: vec![],
            available_countries: vec!["DE".to_string()],
        },
        vec![],
    );
    assert_eq!(channel.channel_info().available_countries, vec!["DE".to_string()]);
    assert!(channel.videos().is_empty());
}
