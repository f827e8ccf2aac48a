use chaturbate_recorder::config::RecordingConfig;
use chaturbate_recorder::error::Error;
use chaturbate_recorder::discovery::{master_playlist_url, select_stream};
use chaturbate_recorder::recorder::{
    attempts_exhausted, download_step, poll_action, should_split_file, DownloadStep, PollAction, Recorder,
    RETRY_DELAY_MS, SEGMENT_ATTEMPTS,
};

const MB: u64 = 1024 * 1024;

#[test]
fn size_limit_alone_splits_on_size() {
    assert!(!should_split_file(10_000_000, 10 * MB - 1, 0, 10 * MB));
    assert!(should_split_file(0, 10 * MB, 0, 10 * MB));
    assert!(should_split_file(u64::MAX, 10 * MB + 1, 0, 10 * MB));
}

#[test]
fn duration_limit_alone_splits_on_duration() {
    assert!(!should_split_file(59_999, u64::MAX, 60_000, 0));
    assert!(should_split_file(60_000, 0, 60_000, 0));
}

#[test]
fn no_limits_never_split() {
    assert!(!should_split_file(u64::MAX, u64::MAX, 0, 0));
}

#[test]
fn recorder_splits_on_size() {
    let mut config = RecordingConfig::default();
    config.max_filesize_mb = 10;
    let mut r = Recorder::new(&config);
    assert_eq!(r.max_filesize_bytes, 10 * MB);
    assert_eq!(r.max_duration_ms, 0);
    assert!(!r.segment_written(1, 6 * MB, 3_600_000));
    assert!(r.segment_written(2, 4 * MB, 1000));
    assert_eq!(r.file_rotated(), 1);
    assert_eq!(r.stats().files_created, 2);
    assert_eq!(r.file_size, 0);
    assert!(!r.segment_written(3, MB, 1000));
    assert_eq!(r.stats().bytes_written, 11 * MB);
    assert_eq!(r.stats().segments_downloaded, 3);
}

#[test]
fn recorder_splits_on_duration() {
    let mut config = RecordingConfig::default();
    config.max_duration_minutes = 1;
    let mut r = Recorder::new(&config);
    assert!(!r.segment_written(1, 500 * MB, 59_000));
    assert!(r.segment_written(2, 1, 1_000));
}

#[test]
fn poll_decisions() {
    assert_eq!(poll_action(true, Some(false)), PollAction::Stop);
    assert_eq!(poll_action(false, None), PollAction::Retry);
    assert_eq!(poll_action(false, Some(true)), PollAction::Stop);
    assert_eq!(poll_action(false, Some(false)), PollAction::Process);
}

#[test]
fn three_attempts_with_pauses_between() {
    let fail = || Err(Error::Network("HTTP status 503".into()));
    assert!(matches!(download_step(0, SEGMENT_ATTEMPTS, fail()), DownloadStep::RetryAfter(RETRY_DELAY_MS)));
    assert!(matches!(download_step(1, SEGMENT_ATTEMPTS, fail()), DownloadStep::RetryAfter(600)));
    match download_step(2, SEGMENT_ATTEMPTS, Err(Error::Network("last".into()))) {
        DownloadStep::Finished(Err(Error::Network(m))) => assert_eq!(m, "last"),
        other => panic!("unexpected {:?}", other),
    }
    match download_step(1, SEGMENT_ATTEMPTS, Ok(vec![1, 2])) {
        DownloadStep::Finished(Ok(d)) => assert_eq!(d, vec![1, 2]),
        other => panic!("unexpected {:?}", other),
    }
    assert!(matches!(download_step(0, 0, fail()), DownloadStep::Finished(Err(_))));
    assert_eq!(
        attempts_exhausted("https://x/s_1.ts", 0),
        Error::SegmentDownloadFailed("Failed after 0 attempts: https://x/s_1.ts".into())
    );
}

#[test]
fn seen_and_unnumbered_segments_are_skipped() {
    let config = RecordingConfig::default();
    let mut r = Recorder::new(&config);
    let url = "https://edge.example/live/chunklist.m3u8";
    assert_eq!(r.segment_to_fetch(url, "init.m4s"), None);
    let (seq, u) = r.segment_to_fetch(url, "seg_5.ts").unwrap();
    assert_eq!((seq, u.as_str()), (5, "https://edge.example/live/seg_5.ts"));
    r.segment_written(seq, 10, 2000);
    assert_eq!(r.segment_to_fetch(url, "seg_5.ts"), None);
    assert_eq!(r.segment_to_fetch(url, "seg_4.ts"), None);
    assert!(r.segment_to_fetch(url, "seg_6.ts").is_some());
}

const MASTER: &str = "#EXTM3U
#EXT-X-STREAM-INF:BANDWIDTH=5000000,RESOLUTION=1920x1080,NAME=\"FPS:30.0\"
chunklist_1080.m3u8
#EXT-X-STREAM-INF:BANDWIDTH=3000000,RESOLUTION=1280x720,NAME=\"FPS:60.0\"
chunklist_720p60.m3u8
";

#[test]
fn end_to_end_three_segments() {
    let page = "<html>playlist.m3u8 window.initialRoomDossier = \"{\\u0022hls_source\\u0022: \\u0022https:\\/\\/edge.example\\/live\\/alice\\/master.m3u8\\u0022}\";</html>";
    let master_url = master_playlist_url("alice", page).unwrap();
    let info = select_stream("alice", &master_url, MASTER, 1080, 30).unwrap();
    assert_eq!((info.resolution, info.framerate), (1080, 30));
    assert_eq!(info.hls_source, "https://edge.example/live/alice/chunklist_1080.m3u8");

    let config = RecordingConfig::default();
    let mut r = Recorder::new(&config);
    let listed = ["seg_1080_101.ts", "seg_1080_102.ts", "seg_1080_103.ts"];
    let mut file: Vec<u8> = Vec::new();
    let mut fetched = Vec::new();
    for _poll in 0..2 {
        assert_eq!(poll_action(false, Some(false)), PollAction::Process);
        for uri in listed {
            if let Some((seq, url)) = r.segment_to_fetch(&info.hls_source, uri) {
                let bytes = vec![(seq % 256) as u8; 3];
                file.extend_from_slice(&bytes);
                fetched.push(url);
                r.segment_written(seq, bytes.len() as u64, 2000);
            }
        }
    }
    assert_eq!(fetched.len(), 3);
    assert_eq!(fetched[0], "https://edge.example/live/alice/seg_1080_101.ts");
    assert_eq!(file, vec![101, 101, 101, 102, 102, 102, 103, 103, 103]);
    assert_eq!(r.stats().segments_downloaded, 3);
    assert_eq!(r.stats().bytes_written, 9);
    assert_eq!(r.stats().duration_ms, 6000);
    assert_eq!(r.stats().files_created, 1);
}
