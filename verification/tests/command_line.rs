use core::cmp::Ordering;

use rustube::args::{
    download_path, ColorUsage, Identifier, LevelFilter, LoggingArgs, OutputFormat, StreamFilter,
};
use rustube::download::{
    after_request, completed_path, content_length_from_header,
    segment_count, AfterRequest, CallbackArguments, HeaderText, InternalSignal, ProgressAction,
    ProgressCounter, ProgressEvent, ProgressKind, ProgressState, RequestOutcome, SendOutcome,
};
use rustube::error::Error;
use rustube::formats::{ProjectionType, Quality, QualityLabel};
use rustube::id::Id;
use rustube::plain_cli::{check_streams, extract_id, DownloadOptions, DownloadTarget};
use rustube::plain_cli::StreamFilter as PlainFilter;
use rustube::order::{cmp_opts, cmp_stream};
use rustube::stream::{MediaType, MimeType, RawFormat, SignatureCipher, Stream};

fn stream(itag: u64, codecs: &[&str], width: Option<u64>, quality: Quality) -> Stream {
    let raw = RawFormat {
        format_type: None,
        approx_duration_ms: None,
        audio_channels: None,
        audio_quality: None,
        audio_sample_rate: None,
        average_bitrate: None,
        bitrate: None,
        color_info: None,
        content_length: None,
        fps: 30,
        height: None,
        high_replication: None,
        index_range: None,
        init_range: None,
        itag,
        last_modified: 0,
        mime_type: MimeType {
            mime: MediaType { type_: "video".to_string(), subtype: "mp4".to_string() },
            codecs: codecs.iter().map(|c| c.to_string()).collect(),
        },
        projection_type: ProjectionType::Rectangular,
        quality,
        quality_label: None,
        signature_cipher: SignatureCipher { url: "https://e.com/v".to_string(), s: None },
        width,
    };
    Stream::from_raw_format(raw, Id::from_raw("5jlI4uzZGjU").unwrap().into_owned()).unwrap()
}

fn filter(best: bool, worst: bool) -> StreamFilter {
    StreamFilter {
        best_quality: best,
        worst_quality: worst,
        no_video: false,
        no_audio: false,
        ignore_missing_video: false,
        ignore_missing_audio: false,
        quality: None,
        video_quality: None,
        audio_quality: None,
    }
}

#[test]
fn identifier_gives_an_owned_id() {
    let ok = Identifier { identifier: "https://youtu.be/5jlI4uzZGjU".to_string() };
    assert_eq!(ok.id().unwrap().as_str(), "5jlI4uzZGjU");
    assert!(ok.id().unwrap().is_owned());
    assert!(extract_id("5jlI4uzZGjU").unwrap().is_owned());
    let bad = Identifier { identifier: "nope".to_string() };
    assert!(matches!(bad.id(), Err(Error::BadIdFormat)));
    assert!(matches!(extract_id("x"), Err(Error::BadIdFormat)));
    assert_eq!(extract_id("5jlI4uzZGjU").unwrap().as_str(), "5jlI4uzZGjU");
}

#[test]
fn verbosity_selects_the_log_level() {
    let level = |verbose| LoggingArgs { verbose, color: ColorUsage::Never, quiet: false }.level_filter();
    assert_eq!(level(0), LevelFilter::Info);
    assert_eq!(level(1), LevelFilter::Error);
    assert_eq!(level(2), LevelFilter::Warn);
    assert_eq!(level(3), LevelFilter::Info);
    assert_eq!(level(4), LevelFilter::Debug);
    assert_eq!(level(5), LevelFilter::Trace);
    assert_eq!(level(200), LevelFilter::Trace);
}

#[test]
fn output_format_defaults_to_pretty_json() {
    assert_eq!(OutputFormat::default(), OutputFormat::PrettyJson);
}

#[test]
fn download_path_defaults_to_the_id_and_extension() {
    let id = Id::from_raw("5jlI4uzZGjU").unwrap();
    let p = download_path(None, "mp4", Some("/tmp".to_string()), id.clone());
    assert_eq!(p.file_name, "5jlI4uzZGjU.mp4");
    assert_eq!(p.dir.as_deref(), Some("/tmp"));
    let q = download_path(Some("video.webm".to_string()), "mp4", None, id);
    assert_eq!(q.file_name, "video.webm");
    assert_eq!(q.dir, None);
}

#[test]
fn the_filter_keeps_streams_with_both_tracks_by_default() {
    let f = filter(false, false);
    assert!(f.stream_matches(&stream(18, &["avc1", "mp4a"], None, Quality::Medium)));
    assert!(!f.stream_matches(&stream(137, &["avc1"], None, Quality::Medium)));
    let mut no_audio = filter(false, false);
    no_audio.no_audio = true;
    assert!(no_audio.stream_matches(&stream(137, &["avc1"], None, Quality::Medium)));
    assert!(!no_audio.stream_matches(&stream(18, &["avc1", "mp4a"], None, Quality::Medium)));
    let mut labelled = filter(false, false);
    labelled.video_quality = Some(QualityLabel::P720);
    assert!(!labelled.stream_matches(&stream(18, &["avc1", "mp4a"], None, Quality::Medium)));
}

#[test]
fn streams_compare_by_width_first_then_quality() {
    let narrow = stream(18, &["avc1", "mp4a"], Some(640), Quality::Hd720);
    let wide = stream(22, &["avc1", "mp4a"], Some(1280), Quality::Medium);
    assert_eq!(cmp_stream(&narrow, &wide), Ordering::Less);
    assert_eq!(cmp_stream(&wide, &narrow), Ordering::Greater);
    let a = stream(18, &["avc1", "mp4a"], None, Quality::Small);
    let b = stream(18, &["avc1", "mp4a"], None, Quality::Large);
    assert_eq!(cmp_stream(&a, &b), Ordering::Less);
    assert_eq!(cmp_stream(&a, &a), Ordering::Equal);
    assert_eq!(cmp_opts(&Some(1), &Some(2)), Some(Ordering::Less));
    assert_eq!(cmp_opts(&Some(2), &Some(2)), None);
    assert_eq!(cmp_opts(&None, &Some(2)), None);
}

#[test]
fn best_and_worst_are_picked_by_the_filter() {
    let streams = vec![
        stream(18, &["avc1", "mp4a"], Some(640), Quality::Medium),
        stream(22, &["avc1", "mp4a"], Some(1280), Quality::Hd720),
        stream(137, &["avc1"], Some(1920), Quality::Hd1080),
    ];
    assert_eq!(filter(true, false).pick_stream(&streams).unwrap(), 1);
    assert_eq!(filter(false, true).pick_stream(&streams).unwrap(), 0);
    assert_eq!(filter(false, true).max_stream(&streams[0], &streams[1]), Ordering::Greater);
    let mut audio_only = filter(true, false);
    audio_only.no_video = true;
    assert!(matches!(audio_only.pick_stream(&streams), Err(Error::NoStreams)));
}

fn options(dir: Option<&str>, filename: Option<&str>) -> DownloadOptions {
    DownloadOptions {
        identifier: "5jlI4uzZGjU".to_string(),
        best_quality: false,
        worst_quality: false,
        quality: None,
        video_quality: None,
        audio_quality: None,
        no_video: false,
        no_audio: false,
        ignore_missing_video: false,
        ignore_missing_audio: false,
        dir: dir.map(str::to_string),
        filename: filename.map(str::to_string),
    }
}

#[test]
fn the_first_front_end_picks_and_places_downloads() {
    let streams = vec![
        stream(18, &["avc1", "mp4a"], Some(640), Quality::Medium),
        stream(22, &["avc1", "mp4a"], Some(1280), Quality::Hd720),
    ];
    assert_eq!(options(None, None).pick_stream(&streams).unwrap(), 1);
    let mut worst = options(None, None);
    worst.worst_quality = true;
    assert_eq!(worst.pick_stream(&streams).unwrap(), 0);
    assert!(matches!(options(Some("d"), Some("f")).target(), DownloadTarget::DirAndFile(d, f) if d == "d" && f == "f"));
    assert!(matches!(options(Some("d"), None).target(), DownloadTarget::Dir(d) if d == "d"));
    assert!(matches!(options(None, Some("f")).target(), DownloadTarget::File(f) if f == "f"));
    assert!(matches!(options(None, None).target(), DownloadTarget::WorkingDir));
    assert!(matches!(check_streams(vec![]), Err(Error::NoStreams)));
    assert_eq!(check_streams(streams).unwrap().len(), 2);
}

#[test]
fn headers_are_read_as_counts() {
    assert_eq!(segment_count(HeaderText::Text("12")).unwrap(), 12);
    assert!(matches!(segment_count(HeaderText::Missing), Err(Error::UnexpectedResponse(m)) if m == "sequence download request did not contain a Segment-Count"));
    assert!(matches!(segment_count(HeaderText::NotText), Err(Error::UnexpectedResponse(m)) if m == "Segment-Count is not valid utf-8"));
    assert!(matches!(segment_count(HeaderText::Text("x")), Err(Error::UnexpectedResponse(m)) if m == "Segment-Count could not be parsed into an integer"));
    assert_eq!(content_length_from_header(HeaderText::Text("1024")).unwrap(), 1024);
    assert!(content_length_from_header(HeaderText::Missing).is_err());
}

#[test]
fn a_failed_request_is_retried_in_sequence_only_on_404() {
    assert!(after_request(RequestOutcome::Done) == AfterRequest::Succeed);
    assert!(after_request(RequestOutcome::NotFound) == AfterRequest::DownloadSequenced);
    assert!(after_request(RequestOutcome::Failed) == AfterRequest::RemoveFileAndFail);
    assert_eq!(completed_path(true, "a.mp4".to_string()), Some("a.mp4".to_string()));
    assert_eq!(completed_path(false, "a.mp4".to_string()), None);
}

#[test]
fn slow_progress_reports_once_per_megabyte() {
    let mut state = ProgressState::new(ProgressKind::SlowClosure, Some(5_000_000));
    let report = |n| ProgressEvent::Signal(InternalSignal::Value(n));
    assert_eq!(state.step(report(500_000)), ProgressAction::Skip);
    assert_eq!(
        state.step(report(1_200_000)),
        ProgressAction::Deliver(CallbackArguments { current_chunk: 1_200_000, content_length: Some(5_000_000) })
    );
    assert_eq!(state.step(report(1_900_000)), ProgressAction::Skip);
    assert!(matches!(state.step(report(3_000_000)), ProgressAction::Deliver(_)));
    assert_eq!(state.last_trigger, 3);
    assert_eq!(state.step(ProgressEvent::Signal(InternalSignal::Finished)), ProgressAction::Stop);
}

#[test]
fn fast_progress_reports_everything_and_channels_may_close() {
    let mut state = ProgressState::new(ProgressKind::Channel(true), None);
    assert!(matches!(state.step(ProgressEvent::Signal(InternalSignal::Value(1))), ProgressAction::Deliver(a) if a.current_chunk == 1));
    assert_eq!(state.step(ProgressEvent::SendFailed), ProgressAction::CloseReceiver);
    let mut keep = ProgressState::new(ProgressKind::Channel(false), None);
    assert_eq!(keep.step(ProgressEvent::SendFailed), ProgressAction::Skip);
    let mut none = ProgressState::new(ProgressKind::NoCallback, None);
    assert_eq!(none.step(ProgressEvent::Signal(InternalSignal::Value(1))), ProgressAction::Stop);
}

#[test]
fn the_counter_adds_chunks_and_only_a_closed_channel_stops() {
    let mut c = ProgressCounter::new();
    assert_eq!(c.record_chunk(10), 10);
    assert_eq!(c.record_chunk(5), 15);
    assert!(ProgressCounter::after_send(SendOutcome::Sent).is_ok());
    assert!(ProgressCounter::after_send(SendOutcome::Full).is_ok());
    assert!(matches!(ProgressCounter::after_send(SendOutcome::Closed), Err(Error::ChannelClosed)));
}

fn plain(no_video: bool, no_audio: bool, ignore_video: bool, ignore_audio: bool) -> PlainFilter {
    PlainFilter {
        best_quality: false,
        worst_quality: false,
        no_video,
        no_audio,
        ignore_missing_video: ignore_video,
        ignore_missing_audio: ignore_audio,
    }
}

fn audio_only() -> Stream {
    let mut s = stream(140, &["mp4a.40.2"], None, Quality::Medium);
    s.includes_video_track = false;
    s.includes_audio_track = true;
    s
}

#[test]
fn no_video_asks_for_a_stream_without_video() {
    let both = stream(18, &["avc1", "mp4a"], None, Quality::Medium);
    assert!(plain(true, false, false, false).stream_matches(&audio_only()));
    assert!(!plain(true, false, false, false).stream_matches(&both));
    assert!(plain(false, false, false, false).stream_matches(&both));
    assert!(!plain(false, false, false, false).stream_matches(&audio_only()));
    assert!(plain(false, false, true, false).stream_matches(&audio_only()));
    let mut options = options(None, None);
    options.no_video = true;
    assert!(options.stream_ok(&audio_only()));
    assert!(!options.stream_ok(&both));
}

#[test]
fn best_quality_is_the_default_of_the_plain_filter() {
    let narrow = stream(18, &["avc1", "mp4a"], Some(640), Quality::Medium);
    let wide = stream(22, &["avc1", "mp4a"], Some(1280), Quality::Medium);
    assert_eq!(plain(false, false, false, false).max_stream(&narrow, &wide), Ordering::Less);
    let mut worst = plain(false, false, false, false);
    worst.worst_quality = true;
    assert_eq!(worst.max_stream(&narrow, &wide), Ordering::Greater);
}
