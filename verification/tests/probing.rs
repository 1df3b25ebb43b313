//! The metadata probe: duration and frame-rate parsing, and the JSON
//! navigation over real probe output.

use eddit_core::probe::{
    metadata_from_json, metadata_from_probe_output, parse_duration_ms, parse_frame_rate,
    ProbeError,
};
use eddit_core::types::SegmentStatus;

#[test]
fn parses_durations() {
    assert_eq!(parse_duration_ms("13.654000"), Some(13654));
    assert_eq!(parse_duration_ms("5"), Some(5000));
    assert_eq!(parse_duration_ms("5."), Some(5000));
    assert_eq!(parse_duration_ms("1.2"), Some(1200));
    assert_eq!(parse_duration_ms("0.05"), Some(50));
    assert_eq!(parse_duration_ms("0.0009"), Some(0));
    assert_eq!(parse_duration_ms(""), None);
    assert_eq!(parse_duration_ms(".5"), None);
    assert_eq!(parse_duration_ms("abc"), None);
    assert_eq!(parse_duration_ms("1.2.3"), None);
    assert_eq!(parse_duration_ms("-1.0"), None);
}

#[test]
fn parses_frame_rates() {
    assert_eq!(parse_frame_rate("30000/1001"), Some((30000, 1001)));
    assert_eq!(parse_frame_rate("25/1"), Some((25, 1)));
    assert_eq!(parse_frame_rate("30"), None);
    assert_eq!(parse_frame_rate("1/2/3"), None);
    assert_eq!(parse_frame_rate("/1"), None);
    assert_eq!(parse_frame_rate("1/"), None);
}

fn probe_output() -> &'static str {
    "{\
        \"streams\": [\
            {\"codec_type\": \"audio\", \"codec_name\": \"aac\"},\
            {\"codec_type\": \"video\", \"codec_name\": \"h264\",\
             \"width\": 1920, \"height\": 1080, \"r_frame_rate\": \"30000/1001\"},\
            {\"codec_type\": \"video\", \"codec_name\": \"vp9\",\
             \"width\": 640, \"height\": 360, \"r_frame_rate\": \"25/1\"}\
        ],\
        \"format\": {\"duration\": \"13.654000\"}\
    }"
}

#[test]
fn reads_metadata_from_probe_output() {
    let m = metadata_from_probe_output(probe_output()).unwrap();
    // the first video stream wins, not the later one
    assert_eq!(m.duration_ms, 13654);
    assert_eq!(m.width, 1920);
    assert_eq!(m.height, 1080);
    assert_eq!(m.fps_num, 30000);
    assert_eq!(m.fps_den, 1001);
    assert_eq!(m.codec, "h264");
}

#[test]
fn reads_metadata_from_a_parsed_value() {
    let v: serde_json::Value = serde_json::from_str(probe_output()).unwrap();
    let m = metadata_from_json(&v).unwrap();
    assert_eq!(m.width, 1920);
    assert_eq!(m.codec, "h264");
}

#[test]
fn falls_back_to_an_unknown_codec() {
    let text = "{\"streams\": [{\"codec_type\": \"video\", \"width\": 1, \"height\": 1,\
                 \"r_frame_rate\": \"1/1\"}], \"format\": {\"duration\": \"1\"}}";
    let m = metadata_from_probe_output(text).unwrap();
    assert_eq!(m.codec, "unknown");
}

#[test]
fn rejects_unparseable_output() {
    assert!(matches!(
        metadata_from_probe_output("not json at all"),
        Err(ProbeError::NotParseable)
    ));
}

#[test]
fn rejects_output_without_streams() {
    assert!(matches!(
        metadata_from_probe_output("{\"format\": {}}"),
        Err(ProbeError::NoStreams)
    ));
    assert!(matches!(
        metadata_from_probe_output("{\"streams\": 5}"),
        Err(ProbeError::NoStreams)
    ));
}

#[test]
fn rejects_output_without_a_video_stream() {
    let text = "{\"streams\": [{\"codec_type\": \"audio\"}], \"format\": {}}";
    assert!(matches!(
        metadata_from_probe_output(text),
        Err(ProbeError::NoVideoStream)
    ));
}

#[test]
fn rejects_missing_fields_in_reading_order() {
    let no_duration = "{\"streams\": [{\"codec_type\": \"video\"}], \"format\": {}}";
    assert!(matches!(
        metadata_from_probe_output(no_duration),
        Err(ProbeError::NoDuration)
    ));

    let bad_duration =
        "{\"streams\": [{\"codec_type\": \"video\"}], \"format\": {\"duration\": \"x\"}}";
    assert!(matches!(
        metadata_from_probe_output(bad_duration),
        Err(ProbeError::BadDuration)
    ));

    let no_width =
        "{\"streams\": [{\"codec_type\": \"video\"}], \"format\": {\"duration\": \"1\"}}";
    assert!(matches!(
        metadata_from_probe_output(no_width),
        Err(ProbeError::NoWidth)
    ));

    let no_height = "{\"streams\": [{\"codec_type\": \"video\", \"width\": 2}],\
                     \"format\": {\"duration\": \"1\"}}";
    assert!(matches!(
        metadata_from_probe_output(no_height),
        Err(ProbeError::NoHeight)
    ));

    let no_rate = "{\"streams\": [{\"codec_type\": \"video\", \"width\": 2, \"height\": 2}],\
                   \"format\": {\"duration\": \"1\"}}";
    assert!(matches!(
        metadata_from_probe_output(no_rate),
        Err(ProbeError::NoFrameRate)
    ));

    let bad_rate = "{\"streams\": [{\"codec_type\": \"video\", \"width\": 2, \"height\": 2,\
                    \"r_frame_rate\": \"thirty\"}], \"format\": {\"duration\": \"1\"}}";
    assert!(matches!(
        metadata_from_probe_output(bad_rate),
        Err(ProbeError::BadFrameRate)
    ));
}

#[test]
fn negative_dimensions_do_not_count() {
    // a width that is not an unsigned integer reads as absent
    let text = "{\"streams\": [{\"codec_type\": \"video\", \"width\": -2}],\
                \"format\": {\"duration\": \"1\"}}";
    assert!(matches!(
        metadata_from_probe_output(text),
        Err(ProbeError::NoWidth)
    ));
}

#[test]
fn oversized_dimensions_wrap_like_a_narrowing_cast() {
    let text = "{\"streams\": [{\"codec_type\": \"video\", \"width\": 4294967297,\
                \"height\": 1080, \"r_frame_rate\": \"25/1\"}],\
                \"format\": {\"duration\": \"1\"}}";
    let m = metadata_from_probe_output(text).unwrap();
    assert_eq!(m.width, 1);
    assert_eq!(m.height, 1080);
}

#[test]
fn error_messages_match_their_cause() {
    assert_eq!(ProbeError::NoStreams.message(), "No streams found");
    assert_eq!(ProbeError::NoVideoStream.message(), "No video stream found");
    assert_eq!(ProbeError::BadFrameRate.message(), "Invalid frame rate format");
}

#[test]
fn status_labels_match_the_event_protocol() {
    assert_eq!(SegmentStatus::Cutting.label(), "cutting");
    assert_eq!(SegmentStatus::AddingIntro.label(), "adding intro");
    assert_eq!(SegmentStatus::Completed.label(), "completed");
    assert_eq!(SegmentStatus::Failed.label(), "failed");
}

#[test]
fn settings_expose_their_fields() {
    let s = eddit_core::types::CompressionSettings::new(
        25,
        String::from("medium"),
        String::from("libx264"),
    );
    assert_eq!(s.quality(), 25);
    assert_eq!(s.preset(), "medium");
    assert_eq!(s.codec(), "libx264");
    let d = s.duplicate();
    assert_eq!(d.quality(), 25);
    assert_eq!(d.codec(), "libx264");
}
