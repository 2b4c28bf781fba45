use rustube::channel::{
    channel_id_from_path, channel_id_from_url, channel_page_step, channel_videos_urls, is_error_page, ChannelPageStep,
};
use rustube::error::Error;
use rustube::formats::Assets;
use rustube::id::Id;
use rustube::playlist::playlist_status_check;
use rustube::urls::{
    base_query, js_url, playlist_id_from_url, seq_url, signed_url, sts, video_info_url, video_info_url_age_restricted,
};

fn id() -> Id<'static> {
    Id::from_raw("5jlI4uzZGjU").unwrap()
}

#[test]
fn video_info_url_carries_the_id_and_the_watch_page() {
    let url = video_info_url(&id(), "https://youtube.com/watch?v=5jlI4uzZGjU").unwrap();
    assert_eq!(
        url,
        "https://youtube.com/get_video_info?video_id=5jlI4uzZGjU&ps=default&eurl=https%3A%2F%2Fyoutube.com%2Fwatch%3Fv%3D5jlI4uzZGjU&hl=en_US"
    );
}

#[test]
fn the_sts_value_is_the_digits_after_sts() {
    assert_eq!(sts(r#"{"sts" : 18876, "x": 1}"#), "18876");
    assert_eq!(sts(r#""sts":12"#), "12");
    assert_eq!(sts(r#""sts": x "sts":5"#), "5");
    assert_eq!(sts("no value"), "");
}

#[test]
fn age_restricted_info_url_uses_the_embed_address() {
    let url = video_info_url_age_restricted(&id(), r#"x "sts":123 y"#).unwrap();
    assert_eq!(
        url,
        "https://youtube.com/get_video_info?video_id=5jlI4uzZGjU&eurl=https%3A%2F%2Fyoutube.googleapis.com%2Fv%2F5jlI4uzZGjU&sts=123"
    );
    let none = video_info_url_age_restricted(&id(), "https://youtube.com/watch?v=5jlI4uzZGjU").unwrap();
    assert!(none.ends_with("&sts="));
}

#[test]
fn js_url_prefers_the_assets() {
    let assets = Some(Assets { js: "/s/player/abc/player.js".to_string() });
    assert_eq!(js_url("", &assets).unwrap(), "https://youtube.com/s/player/abc/player.js");
    let html = "<script src=\"/s/player/4fbb/x/base.js\">";
    assert_eq!(js_url(html, &None).unwrap(), "https://youtube.com/s/player/4fbb/x/base.js");
    assert!(matches!(js_url("no player", &None), Err(Error::UnexpectedResponse(_))));
}

#[test]
fn a_signature_is_appended_as_sig() {
    assert_eq!(
        signed_url("https://r.googlevideo.com/videoplayback?a=1", "AB/C=").unwrap(),
        "https://r.googlevideo.com/videoplayback?a=1&sig=AB%2FC%3D"
    );
    assert!(matches!(signed_url("not a url", "x"), Err(Error::UrlParseError(_))));
}

#[test]
fn a_segment_url_replaces_the_query() {
    let url = "https://r.googlevideo.com/videoplayback?a=1&sq=0";
    let q = base_query("https://r.googlevideo.com/videoplayback?a=1").unwrap();
    assert_eq!(q, "a=1");
    assert_eq!(base_query("https://r.googlevideo.com/videoplayback").unwrap(), "");
    assert_eq!(seq_url(url, &q, 12).unwrap(), "https://r.googlevideo.com/videoplayback?a=1&sq=12");
    assert!(matches!(base_query("::"), Err(Error::UrlParseError(_))));
}

#[test]
fn channel_ids_are_read_from_paths() {
    assert_eq!(channel_id_from_path("/c/SomeName/videos"), Some("SomeName"));
    assert_eq!(channel_id_from_path("/channel/UC_x-Y%20z"), Some("UC_x-Y%20z"));
    assert_eq!(channel_id_from_path("/user/old_user"), Some("old_user"));
    assert_eq!(channel_id_from_path("/u/short"), Some("short"));
    assert_eq!(channel_id_from_path("/@handle/featured"), Some("handle"));
    assert_eq!(channel_id_from_path("/@Ünïcode/x"), Some("Ünïcode"));
    assert_eq!(channel_id_from_path("/watch"), None);
    assert_eq!(channel_id_from_path("/c/"), None);
}

#[test]
fn the_first_pattern_that_matches_wins() {
    assert_eq!(channel_id_from_path("/channel/c/videos"), Some("videos"));
}

#[test]
fn channel_pages_are_tried_under_every_prefix() {
    assert_eq!(
        channel_videos_urls("abc"),
        vec![
            "https://www.youtube.com/c/abc/videos".to_string(),
            "https://www.youtube.com/channel/abc/videos".to_string(),
            "https://www.youtube.com/u/abc/videos".to_string(),
            "https://www.youtube.com/user/abc/videos".to_string(),
            "https://www.youtube.com/@abc/videos".to_string(),
        ]
    );
}

#[test]
fn an_error_page_says_something_went_wrong_four_times() {
    let four = "Something went wrong".repeat(4);
    assert!(is_error_page(&four));
    assert!(!is_error_page(&"Something went wrong".repeat(3)));
    assert!(!is_error_page(&"Something went wrong".repeat(5)));
    assert!(!is_error_page("a normal page"));
}

#[test]
fn the_channel_search_moves_on_until_a_page_answers() {
    let error = "Something went wrong".repeat(4);
    assert_eq!(channel_page_step(0, None), ChannelPageStep::Try(1));
    assert_eq!(channel_page_step(1, Some(&error)), ChannelPageStep::Try(2));
    assert_eq!(channel_page_step(2, Some("<html>channel</html>")), ChannelPageStep::Use);
    assert_eq!(channel_page_step(3, Some("")), ChannelPageStep::NoChannel);
    assert_eq!(channel_page_step(4, None), ChannelPageStep::NoChannel);
    assert_eq!(channel_page_step(4, Some(&error)), ChannelPageStep::NoChannel);
}

#[test]
fn a_playlist_id_is_the_list_pair_of_the_query() {
    let id = playlist_id_from_url(
        "https://www.youtube.com/playlist?list=PLS1QulWo1RIaJECMeUT4LFwJ-ghgoSH6n",
    )
    .unwrap();
    assert_eq!(id, "PLS1QulWo1RIaJECMeUT4LFwJ-ghgoSH6n");
}

#[test]
fn the_last_list_pair_wins() {
    let id = playlist_id_from_url("https://www.youtube.com/watch?list=first&v=x&list=second").unwrap();
    assert_eq!(id, "second");
}

#[test]
fn a_list_value_is_decoded() {
    let id = playlist_id_from_url("https://www.youtube.com/playlist?list=a%2Bb+c").unwrap();
    assert_eq!(id, "a+b c");
}

#[test]
fn a_url_without_a_list_pair_names_no_playlist() {
    let r = playlist_id_from_url("https://www.youtube.com/watch?v=5jlI4uzZGjU");
    assert!(matches!(r, Err(Error::BadIdFormat)));
    let r = playlist_id_from_url("https://www.youtube.com/playlist");
    assert!(matches!(r, Err(Error::BadIdFormat)));
}

#[test]
fn a_text_that_is_no_url_names_no_playlist_or_channel() {
    assert!(matches!(playlist_id_from_url("not a url"), Err(Error::UrlParseError(_))));
    assert!(matches!(channel_id_from_url("not a url"), Err(Error::UrlParseError(_))));
}

#[test]
fn a_channel_id_is_read_from_the_path_of_its_url() {
    let id = channel_id_from_url("https://www.youtube.com/c/LinusTechTips/videos?view=0").unwrap();
    assert_eq!(id, "LinusTechTips");
    let id = channel_id_from_url("https://www.youtube.com/@veritasium").unwrap();
    assert_eq!(id, "veritasium");
    let id = channel_id_from_url("https://www.youtube.com/channel/UCXuqSBlHAE6Xw-yeJA0Tunw").unwrap();
    assert_eq!(id, "UCXuqSBlHAE6Xw-yeJA0Tunw");
}

#[test]
fn a_url_whose_path_names_no_channel_is_refused() {
    let r = channel_id_from_url("https://www.youtube.com/watch?v=5jlI4uzZGjU");
    assert!(matches!(r, Err(Error::BadIdFormat)));
}

#[test]
fn a_playlist_page_is_read_only_after_a_client_error() {
    assert!(playlist_status_check(404).is_ok());
    assert!(playlist_status_check(400).is_ok());
    assert!(playlist_status_check(499).is_ok());
    assert!(matches!(playlist_status_check(200), Err(Error::BadIdFormat)));
    assert!(matches!(playlist_status_check(500), Err(Error::BadIdFormat)));
    assert!(matches!(playlist_status_check(399), Err(Error::BadIdFormat)));
}
