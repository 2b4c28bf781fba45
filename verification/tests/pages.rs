use rustube::error::Error;
use rustube::js_object::{find_object_from_startpoint, initial_data};
use rustube::json::{find_json_object, json_object, parse_for_object, ytplayer_config_candidates};
use rustube::page::{
    get_ytplayer_js, initial_player_response, is_age_restricted, url_already_contains_signature,
};

#[test]
fn age_restriction_is_read_from_the_meta_tag() {
    assert!(is_age_restricted(r#"<meta property="og:restrictions:age" content="18+">"#));
    assert!(!is_age_restricted("<html><body>nothing here</body></html>"));
    assert!(!is_age_restricted(""));
}

#[test]
fn signed_urls_are_recognised() {
    assert!(url_already_contains_signature("https://r.googlevideo.com/videoplayback?signature=1"));
    assert!(url_already_contains_signature("https://r.googlevideo.com/videoplayback?a=1&sig=2"));
    assert!(url_already_contains_signature("https://r.googlevideo.com/videoplayback?a=1&lsig=2"));
    assert!(!url_already_contains_signature("https://r.googlevideo.com/videoplayback?sig=2"));
}

#[test]
fn the_player_javascript_path_is_found() {
    let html = r#"<script src="/s/player/4fbb4d5b/player_ias.vflset/en_US/base.js" nonce="x"></script>"#;
    assert_eq!(
        get_ytplayer_js(html).unwrap(),
        "/s/player/4fbb4d5b/player_ias.vflset/en_US/base.js"
    );
}

#[test]
fn the_last_base_js_of_the_path_ends_the_match() {
    let html = "x /s/player/ab12/one/base.js/two/base.js y";
    assert_eq!(get_ytplayer_js(html).unwrap(), "/s/player/ab12/one/base.js/two/base.js");
}

#[test]
fn a_page_without_the_player_is_an_unexpected_response() {
    let r = get_ytplayer_js("<html>/s/player//base.js</html>");
    assert!(matches!(r, Err(Error::UnexpectedResponse(_))));
}

#[test]
fn the_embedded_player_response_is_found() {
    let html = "var a = 1;\nwindow[\"ytInitialPlayerResponse\"] = {\"a\": {\"b\": 1}};var c = {};\nmore";
    assert_eq!(initial_player_response(html), Some("{\"a\": {\"b\": 1}};var c = {}"));
    let single = "window['ytInitialPlayerResponse']={\"x\":2};";
    assert_eq!(initial_player_response(single), Some("{\"x\":2}"));
    assert_eq!(initial_player_response("window[\"ytInitialPlayerResponse\"] = {};"), None);
    assert_eq!(initial_player_response("nothing"), None);
}

#[test]
fn json_object_takes_the_first_balanced_object() {
    assert_eq!(json_object("var x = {\"a\": [1, {\"b\": \"}\"}]} rest").unwrap(), "{\"a\": [1, {\"b\": \"}\"}]}");
    assert_eq!(json_object("{\"s\": \"\\\"}\"}tail").unwrap(), "{\"s\": \"\\\"}\"}");
    assert!(matches!(json_object("no object"), Err(Error::Internal(_))));
    assert!(matches!(json_object("{\"open\": 1"), Err(Error::Internal(_))));
}

#[test]
fn parse_for_object_reads_after_the_pattern() {
    let html = "ytplayer.config = {\"args\": {}};";
    assert_eq!(parse_for_object(html, r"ytplayer\.config\s*=\s*").unwrap(), "{\"args\": {}}");
    assert!(matches!(parse_for_object(html, r"nomatch"), Err(Error::Internal(_))));
    assert!(matches!(parse_for_object(html, r"("), Err(Error::Internal(_))));
}

#[test]
fn config_candidates_come_in_pattern_order() {
    let html = "ytInitialPlayerResponse = {\"b\": 2}; ytplayer.config = {\"a\": 1};";
    assert_eq!(ytplayer_config_candidates(html), vec!["{\"a\": 1}", "{\"b\": 2}"]);
    assert!(ytplayer_config_candidates("nothing").is_empty());
}

#[test]
fn objects_are_read_from_a_start_point() {
    let html = "x = {\"a\": \"b}\", \"c\": [1, 2]}; rest";
    assert_eq!(find_object_from_startpoint(html, 4), Some("{\"a\": \"b}\", \"c\": [1, 2]}".to_string()));
    assert_eq!(find_object_from_startpoint(html, 0), None);
    assert_eq!(find_object_from_startpoint("[1, [2]] x", 0), Some("[1, [2]]".to_string()));
}

#[test]
fn initial_data_prefers_the_bracketed_assignment() {
    let html = "var ytInitialData = {\"first\": 1}; window[\"ytInitialData\"] = {\"second\": 2};";
    assert_eq!(initial_data(html), Some("{\"second\": 2}".to_string()));
    let plain = "var ytInitialData = {\"first\": 1};";
    assert_eq!(initial_data(plain), Some("{\"first\": 1}".to_string()));
    assert_eq!(initial_data("nothing"), None);
}

#[test]
fn a_skipped_byte_only_clears_the_skip_flag() {
    let mut skip = true;
    let mut stack: Vec<u8> = Vec::new();
    assert!(!find_json_object(b'}', &mut skip, &mut stack));
    assert!(!skip);
    assert!(stack.is_empty());
    let mut skip = false;
    let mut stack = vec![b'{', b'"'];
    assert!(!find_json_object(b'\\', &mut skip, &mut stack));
    assert!(skip);
    assert!(!find_json_object(b'"', &mut skip, &mut stack));
    assert_eq!(stack, vec![b'{', b'"']);
    assert!(!find_json_object(b'"', &mut skip, &mut stack));
    assert!(find_json_object(b'}', &mut skip, &mut stack));
}
