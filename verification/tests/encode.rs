use media_pipeline::encoder::{
    encode_outcome, global_options, output_options, plan_encode, replay_encode_reports,
    EncodeSession, EncoderOption,
};
use media_pipeline::model::{CodecKind, EncodeError, MediaDescription, StreamInfo};
use media_pipeline::numeral::{parse_duration_secs, u64_to_string};
use media_pipeline::selector::{render_map, select_stream_maps, StreamMap};

fn video() -> StreamInfo {
    StreamInfo { codec: CodecKind::Video, channels: None }
}

fn audio(channels: u32) -> StreamInfo {
    StreamInfo { codec: CodecKind::Audio, channels: Some(channels) }
}

fn audio_without_channels() -> StreamInfo {
    StreamInfo { codec: CodecKind::Audio, channels: None }
}

#[test]
fn u64_rendering() {
    assert_eq!(u64_to_string(0), "0");
    assert_eq!(u64_to_string(7), "7");
    assert_eq!(u64_to_string(1234), "1234");
    assert_eq!(u64_to_string(u64::MAX), "18446744073709551615");
}

#[test]
fn duration_parsing() {
    assert_eq!(parse_duration_secs("125.4"), Some(125));
    assert_eq!(parse_duration_secs("0"), Some(0));
    assert_eq!(parse_duration_secs("98"), Some(98));
    assert_eq!(parse_duration_secs("125."), Some(125));
    assert_eq!(parse_duration_secs(""), None);
    assert_eq!(parse_duration_secs("."), None);
    assert_eq!(parse_duration_secs(".5"), None);
    assert_eq!(parse_duration_secs("12.3.4"), None);
    assert_eq!(parse_duration_secs("abc"), None);
    assert_eq!(parse_duration_secs("12a"), None);
    assert_eq!(parse_duration_secs("-3"), None);
}

#[test]
fn duration_parsing_saturates() {
    assert_eq!(
        parse_duration_secs("99999999999999999999999999999"),
        Some(u64::MAX)
    );
    assert_eq!(
        parse_duration_secs("18446744073709551615"),
        Some(u64::MAX)
    );
}

#[test]
fn selection_keeps_positive_audio_by_index() {
    let streams = vec![video(), audio(2), audio(6)];
    let maps = select_stream_maps(&streams).unwrap();
    assert_eq!(
        maps,
        vec![
            StreamMap::VideoAll,
            StreamMap::SubtitleAll,
            StreamMap::AudioAt(1),
            StreamMap::AudioAt(2),
        ]
    );
}

#[test]
fn selection_with_complete_channel_counts_never_fails() {
    let streams = vec![video(), audio(1), audio(0), audio(2), video()];
    assert!(select_stream_maps(&streams).is_ok());
}

#[test]
fn selection_excludes_zero_channel_audio() {
    let streams = vec![video(), audio(2), audio(0)];
    let maps = select_stream_maps(&streams).unwrap();
    assert!(!maps.contains(&StreamMap::AudioAt(2)));
    assert!(maps.contains(&StreamMap::AudioAt(1)));
}

#[test]
fn selection_without_channel_count_is_fatal() {
    let streams = vec![video(), audio_without_channels()];
    assert_eq!(
        select_stream_maps(&streams),
        Err(EncodeError::MissingChannelCount)
    );
}

#[test]
fn selected_maps_scenario() {
    // duration "125.4", streams = [video@0, audio@1 channels=2, audio@2 channels=0]
    let desc = MediaDescription {
        duration: Some("125.4".to_string()),
        streams: vec![video(), audio(2), audio(0)],
    };
    let plan = plan_encode(&desc).unwrap();
    assert_eq!(plan.total_secs, 125);
    assert_eq!(
        plan.maps,
        vec![StreamMap::VideoAll, StreamMap::SubtitleAll, StreamMap::AudioAt(1)]
    );
    let rendered: Vec<String> = plan.maps.iter().map(render_map).collect();
    assert_eq!(rendered, vec!["0:v", "0:s?", "0:1"]);
}

#[test]
fn plan_fails_without_duration_before_any_launch() {
    let desc = MediaDescription { duration: None, streams: vec![video(), audio(2)] };
    assert_eq!(plan_encode(&desc).unwrap_err(), EncodeError::MissingDuration);
}

#[test]
fn plan_fails_on_unparsable_duration() {
    let desc = MediaDescription {
        duration: Some("garbage".to_string()),
        streams: vec![video(), audio(2)],
    };
    assert_eq!(plan_encode(&desc).unwrap_err(), EncodeError::UnparsableDuration);
}

#[test]
fn plan_reports_malformed_probe_first() {
    let desc = MediaDescription {
        duration: None,
        streams: vec![video(), audio_without_channels()],
    };
    assert_eq!(plan_encode(&desc).unwrap_err(), EncodeError::MissingChannelCount);
}

#[test]
fn map_rendering() {
    assert_eq!(render_map(&StreamMap::VideoAll), "0:v");
    assert_eq!(render_map(&StreamMap::SubtitleAll), "0:s?");
    assert_eq!(render_map(&StreamMap::AudioAt(0)), "0:0");
    assert_eq!(render_map(&StreamMap::AudioAt(10)), "0:10");
}

#[test]
fn fixed_global_options() {
    let opts = global_options();
    let shown: Vec<String> = opts
        .iter()
        .map(|o| match o {
            EncoderOption::Flag(f) => format!("-{f}"),
            EncoderOption::KeyValue(k, v) => format!("-{k} {v}"),
        })
        .collect();
    assert_eq!(
        shown,
        vec![
            "-y",
            "-analyzeduration 100M",
            "-probesize 100M",
            "-ignore_unknown",
            "-fix_sub_duration",
        ]
    );
}

#[test]
fn fixed_output_options() {
    let opts = output_options();
    let shown: Vec<String> = opts
        .iter()
        .map(|o| match o {
            EncoderOption::Flag(f) => format!("-{f}"),
            EncoderOption::KeyValue(k, v) => format!("-{k} {v}"),
        })
        .collect();
    assert_eq!(
        shown,
        vec![
            "-vcodec libsvtav1",
            "-crf 38",
            "-vf yadif=1",
            "-absf aac_adtstoasc",
            "-fflags +discardcorrupt",
            "-acodec copy",
            "-scodec mov_text",
        ]
    );
}

#[test]
fn session_emits_initial_zero_snapshot() {
    let session = EncodeSession::new(125);
    let first = session.snapshot();
    assert_eq!(first.current_secs, 0);
    assert_eq!(first.total_secs, 125);
}

#[test]
fn session_tolerates_unparsable_updates() {
    let mut session = EncodeSession::new(100);
    assert_eq!(session.on_update(None), None);
    assert_eq!(session.snapshot().current_secs, 0);
    let snap = session.on_update(Some(30)).unwrap();
    assert_eq!(snap.current_secs, 30);
    assert_eq!(snap.total_secs, 100);
    assert_eq!(session.on_update(None), None);
    assert_eq!(session.snapshot().current_secs, 30);
}

#[test]
fn encoder_exit_status_decides_the_outcome() {
    assert!(encode_outcome(true).is_ok());
    assert_eq!(encode_outcome(false), Err(EncodeError::EncoderFailed));
}

#[test]
fn session_progress_is_monotone_with_constant_total() {
    let reports = vec![10u64, 25, 25, 17, 60];
    let snapshots = replay_encode_reports(125, &reports);
    assert_eq!(snapshots.len(), reports.len() + 1);
    assert_eq!(snapshots[0].current_secs, 0);
    for w in snapshots.windows(2) {
        assert!(w[0].current_secs <= w[1].current_secs);
    }
    for s in &snapshots {
        assert_eq!(s.total_secs, 125);
    }
    assert_eq!(snapshots.last().unwrap().current_secs, 60);
}
