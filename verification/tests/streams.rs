use rustube::descramble::{initialize_streams, signature_action, SignatureAction};
use rustube::error::Error;
use rustube::formats::{AudioQuality, FormatType, ProjectionType, Quality, QualityLabel};
use rustube::id::{Id, IdBuf};
use rustube::itags::{resolution_abr_from_itag, ItagProfile};
use rustube::stream::{
    includes_audio_track, includes_video_track, is_adaptive, is_progressive, parse_codecs,
    MediaType, MimeType, RawFormat, SignatureCipher, Stream,
};
use rustube::video::Video;

fn mime(type_: &str, subtype: &str, codecs: &[&str]) -> MimeType {
    MimeType {
        mime: MediaType { type_: type_.to_string(), subtype: subtype.to_string() },
        codecs: codecs.iter().map(|c| c.to_string()).collect(),
    }
}

fn raw(itag: u64, type_: &str, codecs: &[&str]) -> RawFormat {
    RawFormat {
        format_type: None,
        approx_duration_ms: Some(1000),
        audio_channels: None,
        audio_quality: None,
        audio_sample_rate: None,
        average_bitrate: None,
        bitrate: None,
        color_info: None,
        content_length: Some(42),
        fps: 30,
        height: None,
        high_replication: None,
        index_range: None,
        init_range: None,
        itag,
        last_modified: 0,
        mime_type: mime(type_, "mp4", codecs),
        projection_type: ProjectionType::Rectangular,
        quality: Quality::Medium,
        quality_label: None,
        signature_cipher: SignatureCipher { url: "https://example.com/videoplayback".to_string(), s: None },
        width: None,
    }
}

fn video_id() -> IdBuf {
    Id::from_raw("5jlI4uzZGjU").unwrap().into_owned()
}

fn stream(itag: u64, type_: &str, codecs: &[&str]) -> Stream {
    Stream::from_raw_format(raw(itag, type_, codecs), video_id()).unwrap()
}

#[test]
fn two_codecs_make_a_progressive_stream() {
    let codecs = vec!["avc1.42001E".to_string(), "mp4a.40.2".to_string()];
    assert!(is_progressive(&codecs));
    assert!(!is_adaptive(&codecs));
    let video = MediaType { type_: "video".to_string(), subtype: "mp4".to_string() };
    assert!(includes_video_track(&codecs, &video));
    assert!(includes_audio_track(&codecs, &video));
}

#[test]
fn one_codec_makes_an_adaptive_stream() {
    let codecs = vec!["opus".to_string()];
    assert!(is_adaptive(&codecs));
    let audio = MediaType { type_: "AUDIO".to_string(), subtype: "webm".to_string() };
    assert!(!includes_video_track(&codecs, &audio));
    assert!(includes_audio_track(&codecs, &audio));
}

#[test]
fn parse_codecs_splits_by_track() {
    let (v, a) = parse_codecs(&mime("video", "mp4", &["avc1", "mp4a"])).unwrap();
    assert_eq!(v.as_deref(), Some("avc1"));
    assert_eq!(a.as_deref(), Some("mp4a"));
    let (v, a) = parse_codecs(&mime("video", "mp4", &["avc1.640028"])).unwrap();
    assert_eq!(v.as_deref(), Some("avc1.640028"));
    assert_eq!(a, None);
    let (v, a) = parse_codecs(&mime("audio", "mp4", &["mp4a.40.2"])).unwrap();
    assert_eq!(v, None);
    assert_eq!(a.as_deref(), Some("mp4a.40.2"));
    let (v, a) = parse_codecs(&mime("text", "vtt", &["wvtt"])).unwrap();
    assert_eq!((v, a), (None, None));
}

#[test]
fn parse_codecs_rejects_a_progressive_format_without_two_codecs() {
    let r = parse_codecs(&mime("video", "mp4", &["a", "b", "c", "d"]));
    assert!(matches!(r, Err(Error::UnexpectedResponse(_))));
    let none = parse_codecs(&mime("video", "mp4", &[]));
    assert!(matches!(none, Err(Error::UnexpectedResponse(_))));
    let (v, a) = parse_codecs(&mime("video", "mp4", &["a", "b", "c"])).unwrap();
    assert_eq!((v.as_deref(), a), (Some("a"), None));
}

#[test]
fn itag_tables_give_known_profiles() {
    assert_eq!(resolution_abr_from_itag(22), (Some(720), Some(192)));
    assert_eq!(resolution_abr_from_itag(18), (Some(360), Some(96)));
    assert_eq!(resolution_abr_from_itag(13), (Some(144), None));
    assert_eq!(resolution_abr_from_itag(1), (None, None));
    let hdr = ItagProfile::from_itag(330);
    assert!(hdr.is_hdr);
    assert_eq!(hdr.fps, 60);
    assert!(ItagProfile::from_itag(82).is_3d);
    assert!(ItagProfile::from_itag(91).is_live);
    assert!(ItagProfile::from_itag(140).is_dash);
    assert!(!ItagProfile::from_itag(22).is_dash);
    assert_eq!(ItagProfile::from_itag(22).fps, 30);
}

#[test]
fn from_raw_format_copies_the_format_and_reads_its_itag() {
    let mut f = raw(137, "video", &["avc1.640028"]);
    f.format_type = Some(FormatType::Otf);
    f.width = Some(1920);
    let s = Stream::from_raw_format(f, video_id()).unwrap();
    assert_eq!(s.itag, 137);
    assert_eq!(s.resolution, Some(1080));
    assert!(s.is_dash);
    assert!(s.is_otf);
    assert!(s.includes_video_track);
    assert!(!s.includes_audio_track);
    assert!(!s.is_progressive);
    assert_eq!(s.video_codec.as_deref(), Some("avc1.640028"));
    assert_eq!(s.content_length, Some(42));
    assert_eq!(s.width, Some(1920));
    assert_eq!(s.video_id.as_str(), "5jlI4uzZGjU");
}

#[test]
fn from_raw_format_fails_on_bad_codecs() {
    let r = Stream::from_raw_format(raw(18, "video", &[]), video_id());
    assert!(matches!(r, Err(Error::UnexpectedResponse(_))));
}

#[test]
fn initialize_streams_keeps_the_order_of_formats_then_adaptive_formats() {
    let formats = vec![raw(18, "video", &["avc1", "mp4a"]), raw(22, "video", &["avc1", "mp4a"])];
    let adaptive = vec![raw(140, "audio", &["mp4a.40.2"])];
    let streams = initialize_streams(formats, adaptive, &video_id()).unwrap();
    let itags: Vec<u64> = streams.iter().map(|s| s.itag).collect();
    assert_eq!(itags, vec![18, 22, 140]);
}

#[test]
fn initialize_streams_fails_on_the_first_bad_format() {
    let formats = vec![raw(18, "video", &["avc1", "mp4a"])];
    let adaptive = vec![raw(140, "video", &["w", "x", "y", "z"])];
    let r = initialize_streams(formats, adaptive, &video_id());
    assert!(matches!(r, Err(Error::UnexpectedResponse(_))));
}

#[test]
fn signature_actions() {
    let scrambled = SignatureCipher { url: "https://e.com/v?a=1".to_string(), s: Some("xyz".to_string()) };
    assert_eq!(signature_action(&scrambled).unwrap(), SignatureAction::Decipher);
    let signed = SignatureCipher { url: "https://e.com/v?a=1&sig=abc".to_string(), s: None };
    assert_eq!(signature_action(&signed).unwrap(), SignatureAction::Keep);
    let named = SignatureCipher { url: "https://e.com/v?signature=abc".to_string(), s: None };
    assert_eq!(signature_action(&named).unwrap(), SignatureAction::Keep);
    let bare = SignatureCipher { url: "https://e.com/v?a=1".to_string(), s: None };
    assert!(matches!(signature_action(&bare), Err(Error::UnexpectedResponse(_))));
}

fn labelled(itag: u64, codecs: &[&str], label: Option<QualityLabel>) -> Stream {
    let mut s = stream(itag, "video", codecs);
    s.quality_label = label;
    s
}

#[test]
fn best_and_worst_quality_among_streams_with_both_tracks() {
    let streams = vec![
        labelled(18, &["avc1", "mp4a"], Some(QualityLabel::P360)),
        labelled(22, &["avc1", "mp4a"], Some(QualityLabel::P720)),
        labelled(137, &["avc1"], Some(QualityLabel::P1080)),
        labelled(17, &["mp4v", "mp4a"], Some(QualityLabel::P144)),
    ];
    let video = Video::new(video_id(), "title".to_string(), false, streams);
    assert_eq!(video.best_quality().unwrap().itag, 22);
    assert_eq!(video.worst_quality().unwrap().itag, 17);
    assert_eq!(video.title(), "title");
    assert!(!video.is_age_restricted());
    assert_eq!(video.id().as_str(), "5jlI4uzZGjU");
}

#[test]
fn best_quality_takes_the_last_of_equal_streams_and_worst_the_first() {
    let streams = vec![
        labelled(18, &["avc1", "mp4a"], Some(QualityLabel::P360)),
        labelled(43, &["vp8", "vorbis"], Some(QualityLabel::P360)),
    ];
    let video = Video::new(video_id(), String::new(), false, streams);
    assert_eq!(video.best_quality().unwrap().itag, 43);
    assert_eq!(video.worst_quality().unwrap().itag, 18);
}

#[test]
fn best_audio_by_bitrate_and_best_video_by_width() {
    let mut a1 = stream(139, "audio", &["mp4a.40.5"]);
    a1.bitrate = Some(48_000);
    a1.audio_quality = Some(AudioQuality::Low);
    let mut a2 = stream(140, "audio", &["mp4a.40.2"]);
    a2.bitrate = Some(128_000);
    let mut v1 = stream(136, "video", &["avc1"]);
    v1.width = Some(1280);
    let mut v2 = stream(137, "video", &["avc1"]);
    v2.width = Some(1920);
    let video = Video::new(video_id(), String::new(), true, vec![a1, v1, a2, v2]);
    assert_eq!(video.best_audio().unwrap().itag, 140);
    assert_eq!(video.worst_audio().unwrap().itag, 139);
    assert_eq!(video.best_video().unwrap().itag, 137);
    assert_eq!(video.worst_video().unwrap().itag, 136);
    assert!(video.best_quality().is_none());
    assert!(video.is_age_restricted());
    assert_eq!(video.streams().len(), 4);
    assert_eq!(video.into_streams().len(), 4);
}

#[test]
fn the_default_file_name_takes_the_media_subtype() {
    assert_eq!(stream(18, "video", &["avc1", "mp4a"]).file_path(), "video.mp4");
    let mut s = stream(18, "video", &["avc1", "mp4a"]);
    s.mime.subtype = String::new();
    assert_eq!(s.file_path(), "video");
}

#[test]
fn a_recorded_content_length_is_known_afterwards() {
    let mut s = stream(18, "video", &["avc1", "mp4a"]);
    assert_eq!(s.known_content_length(), Some(42));
    s.content_length = Some(0);
    assert_eq!(s.known_content_length(), None);
    s.content_length = None;
    assert_eq!(s.known_content_length(), None);
    s.record_content_length(1024);
    assert_eq!(s.known_content_length(), Some(1024));
    assert_eq!(s.itag, 18);
}

#[test]
fn a_download_without_a_path_goes_to_the_video_id() {
    assert_eq!(stream(18, "video", &["avc1", "mp4a"]).video_file_name(), "5jlI4uzZGjU.mp4");
}

#[test]
fn descrambling_the_same_formats_twice_gives_the_same_streams() {
    let formats = || vec![raw(18, "video", &["avc1", "mp4a"]), raw(22, "video", &["avc1", "mp4a"])];
    let adaptive = || vec![raw(140, "audio", &["mp4a.40.2"]), raw(137, "video", &["avc1.640028"])];
    let first = initialize_streams(formats(), adaptive(), &video_id()).unwrap();
    let second = initialize_streams(formats(), adaptive(), &video_id()).unwrap();
    assert_eq!(format!("{:?}", first), format!("{:?}", second));
}
