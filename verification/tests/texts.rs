use rustube::collect::{try_collect_one, try_collect_one_lossy, try_collect_two, try_collect_two_lossy};
use rustube::mime::{parse_mime_type, split_codecs_exec, MimeTypeError};
use rustube::numbers::{millis_from_micros, parse_u64, u64_text};
use rustube::output_level::{OutputLevel, StreamField, ALL, AUDIO_TRACK, GENERAL, URL, VERBOSE, VIDEO, VIDEO_TRACK};
use rustube::playlist::length_seconds_from_text;

#[test]
fn parse_u64_reads_what_str_parse_reads() {
    for text in ["0", "42", "+7", "18446744073709551615", "007", "", "+", "-1", "1 ", "18446744073709551616", "١"] {
        assert_eq!(parse_u64(text), text.parse::<u64>().ok(), "{:?}", text);
    }
}

#[test]
fn u64_text_writes_decimal_without_leading_zeros() {
    assert_eq!(u64_text(0), "0");
    assert_eq!(u64_text(7), "7");
    assert_eq!(u64_text(1200), "1200");
    assert_eq!(u64_text(u64::MAX), "18446744073709551615");
}

#[test]
fn decimal_text_reads_back() {
    for n in [0u64, 9, 10, 99, 100, 123456789, u64::MAX] {
        assert_eq!(parse_u64(&u64_text(n)), Some(n));
    }
}

#[test]
fn durations_are_read_in_base_sixty() {
    assert_eq!(length_seconds_from_text("42"), Some(42));
    assert_eq!(length_seconds_from_text("3:25"), Some(205));
    assert_eq!(length_seconds_from_text("1:02:03"), Some(3723));
    assert_eq!(length_seconds_from_text("0:0:0:1"), Some(1));
    assert_eq!(length_seconds_from_text("+1:+2"), Some(62));
}

#[test]
fn durations_that_cannot_be_read() {
    assert_eq!(length_seconds_from_text(""), None);
    assert_eq!(length_seconds_from_text("1::2"), None);
    assert_eq!(length_seconds_from_text("a:10"), None);
    assert_eq!(length_seconds_from_text("10:"), None);
    assert_eq!(length_seconds_from_text("1:1:1:1:1:1:1:1:1:1"), Some(10_248_504_406_779_661));
    assert_eq!(length_seconds_from_text("0:0:0:0:0:0:0:0:0:0:0"), None);
    assert_eq!(length_seconds_from_text("18446744073709551615:0"), None);
}

#[test]
fn mime_type_text_gives_type_subtype_and_codecs() {
    let m = parse_mime_type("video/mp4; codecs=\"avc1.42001E, mp4a.40.2\"").unwrap();
    assert_eq!(m.mime.type_, "video");
    assert_eq!(m.mime.subtype, "mp4");
    assert_eq!(m.codecs, vec!["avc1.42001E".to_string(), "mp4a.40.2".to_string()]);
    let a = parse_mime_type("Audio/WebM; codecs=\"opus\"").unwrap();
    assert_eq!(a.mime.type_, "audio");
    assert_eq!(a.mime.subtype, "webm");
    assert_eq!(a.codecs, vec!["opus".to_string()]);
    let e = parse_mime_type("video/mp4; codecs=\"\"").unwrap();
    assert_eq!(e.codecs, vec![String::new()]);
}

#[test]
fn mime_type_text_that_cannot_be_read() {
    assert!(matches!(parse_mime_type("video/mp4"), Err(MimeTypeError::NoMatch)));
    assert!(matches!(parse_mime_type("video/mp4;codecs=\"x\""), Err(MimeTypeError::NoMatch)));
    match parse_mime_type("vidéo/mp4; codecs=\"x\"") {
        Err(MimeTypeError::InvalidMime(t)) => assert_eq!(t, "vidéo/mp4"),
        other => panic!("{:?}", other.is_ok()),
    }
}

#[test]
fn codecs_split_at_comma_space() {
    assert_eq!(split_codecs_exec("a, b,c, "), vec!["a".to_string(), "b,c".to_string(), String::new()]);
    assert_eq!(split_codecs_exec(""), vec![String::new()]);
}

#[test]
fn output_levels_are_parsed_as_unions() {
    assert_eq!(OutputLevel::from_str("url").unwrap().bits(), URL);
    assert_eq!(OutputLevel::from_str(" general | video-track,audio-track ").unwrap().bits(), GENERAL | VIDEO_TRACK | AUDIO_TRACK);
    assert_eq!(OutputLevel::from_str("full").unwrap().bits(), ALL);
    assert_eq!(OutputLevel::from_str("video verbose").unwrap().bits(), VIDEO | VERBOSE);
    assert_eq!(OutputLevel::from_str("").unwrap().bits(), 0);
    assert!(OutputLevel::from_str("url|nope").is_err());
    assert!(OutputLevel::all().contains(OutputLevel::from_bits_truncate(GENERAL | VERBOSE)));
    assert!(!OutputLevel::from_bits_truncate(GENERAL).contains(OutputLevel::from_bits_truncate(GENERAL | VERBOSE)));
    assert_eq!(OutputLevel::empty().bits(), 0);
}

#[test]
fn stream_fields_follow_the_level() {
    assert_eq!(OutputLevel::from_bits_truncate(URL).stream_fields(), vec![StreamField::SignatureCipher]);
    assert_eq!(
        OutputLevel::from_bits_truncate(GENERAL | VERBOSE).stream_fields(),
        vec![
            StreamField::Mime,
            StreamField::Quality,
            StreamField::IncludesVideoTrack,
            StreamField::IncludesAudioTrack,
            StreamField::ApproxDurationMs,
            StreamField::Codecs,
            StreamField::IsProgressive,
        ]
    );
    assert_eq!(OutputLevel::from_bits_truncate(AUDIO_TRACK).stream_fields().len(), 5);
    assert_eq!(OutputLevel::all().stream_fields().len(), 27);
    assert!(OutputLevel::empty().stream_fields().is_empty());
}

#[test]
fn items_are_collected_into_tuples_of_fixed_size() {
    assert_eq!(try_collect_one(vec![1]), Some((1,)));
    assert_eq!(try_collect_one(vec![1, 2]), None);
    assert_eq!(try_collect_one_lossy(vec![1, 2]), Some((1,)));
    assert_eq!(try_collect_one_lossy(Vec::<u8>::new()), None);
    assert_eq!(try_collect_two(vec!["a", "b"]), Some(("a", "b")));
    assert_eq!(try_collect_two(vec!["a", "b", "c"]), None);
    assert_eq!(try_collect_two_lossy(vec!["a", "b", "c"]), Some(("a", "b")));
    assert_eq!(try_collect_two_lossy(vec!["a"]), None);
}

#[test]
fn levels_combine_with_a_bar() {
    let a = OutputLevel::from_str("url, general").unwrap().bits();
    let b = OutputLevel::from_str("audio-track").unwrap().bits();
    assert_eq!(OutputLevel::from_str("url, general|audio-track").unwrap().bits(), a | b);
    assert!(OutputLevel::from_str("url|bogus").is_err());
    assert!(OutputLevel::from_str("bogus|url").is_err());
}

#[test]
fn microseconds_become_milliseconds_toward_zero() {
    assert_eq!(millis_from_micros(1_600_000_123_456), 1_600_000_123);
    assert_eq!(millis_from_micros(999), 0);
    assert_eq!(millis_from_micros(-1_999), -1);
    assert_eq!(millis_from_micros(i64::MIN), i64::MIN / 1000);
    assert_eq!(millis_from_micros(i64::MAX), i64::MAX / 1000);
}

#[test]
fn a_level_holds_only_known_flags() {
    assert_eq!(OutputLevel::from_bits_truncate(0xff).bits(), ALL);
    assert_eq!(OutputLevel::from_bits_truncate(0b0011_0000).bits(), 0);
    assert!(OutputLevel::from_bits_truncate(0xff).stream_fields().contains(&StreamField::Itag));
    assert!(!OutputLevel::from_bits_truncate(0b0011_1111).stream_fields().contains(&StreamField::Itag));
}
