use chaturbate_recorder::cli::Args;
use chaturbate_recorder::client::{classify_download_status, classify_page_response, ClientProfile, DEFAULT_USER_AGENT};
use chaturbate_recorder::config::{Config, NetworkConfig, RecordingConfig};
use chaturbate_recorder::error::{run_outcome, Error, EXIT_CONFIG_ERROR, EXIT_INTERRUPTED, EXIT_NETWORK_ERROR, EXIT_RECORDING_ERROR};
use chaturbate_recorder::paths::{expand_filename, generate_output_path, TimeStamp};
use chaturbate_recorder::stats::format_duration;
use chaturbate_recorder::validation::validate_room_name;

#[test]
fn test_valid_room_names() {
    assert!(validate_room_name("testroom").is_ok());
    assert!(validate_room_name("test_room").is_ok());
    assert!(validate_room_name("TestRoom123").is_ok());
    assert!(validate_room_name("a").is_ok());
}

#[test]
fn test_invalid_room_names() {
    assert!(validate_room_name("").is_err());
    assert!(validate_room_name("test-room").is_err());
    assert!(validate_room_name("test room").is_err());
    assert!(validate_room_name("test.room").is_err());
}

#[test]
fn room_name_length_limit() {
    assert!(validate_room_name(&"a".repeat(50)).is_ok());
    assert!(matches!(validate_room_name(&"a".repeat(51)), Err(Error::InvalidRoomName(_))));
    assert!(validate_room_name("caf\u{e9}").is_err());
}

#[test]
fn test_generate_output_path() {
    let (path, _name) = generate_output_path("./recordings", "{{.Username}}_test", "testroom", 0).unwrap();

    assert!(path.to_string_lossy().contains("testroom_test.ts"));
}

#[test]
fn test_generate_output_path_with_sequence() {
    let (path, _name) = generate_output_path("./recordings", "{{.Username}}_test", "testroom", 5).unwrap();

    assert!(path.to_string_lossy().contains("testroom_test_5.ts"));
}

#[test]
fn output_path_is_under_directory() {
    let (path, name) = generate_output_path("./recordings", "{{.Year}}", "r", 0).unwrap();
    let s = path.to_string_lossy().to_string();
    assert_eq!(s, format!("./recordings/{}", name));
    assert!(s.starts_with("./recordings/"));
    assert!(s.ends_with(".ts"));
    assert!(s.len() >= "./recordings/".len() + 4 + 3);
}

fn stamp() -> TimeStamp {
    TimeStamp {
        year: "2024".into(),
        month: "03".into(),
        day: "07".into(),
        hour: "09".into(),
        minute: "05".into(),
        second: "01".into(),
    }
}

#[test]
fn default_template_at_the_current_time() {
    let pattern = RecordingConfig::default().filename_pattern;
    let (path, name) = generate_output_path("./recordings", &pattern, "alice", 5).unwrap();
    assert!(name.starts_with("alice_"));
    assert!(name.ends_with("_5.ts"));
    assert!(!name.contains("{{"));
    let fields: Vec<&str> = name.trim_end_matches("_5.ts").split(|c| c == '_' || c == '-').collect();
    assert_eq!(fields.len(), 7);
    assert!(fields[1].len() >= 4);
    for f in &fields[1..] {
        assert!(f.chars().all(|c| c.is_ascii_digit()));
    }
    for f in &fields[2..] {
        assert_eq!(f.len(), 2);
    }
    assert!(path.to_string_lossy().ends_with(&name));
}

#[test]
fn full_template_with_sequence() {
    let pattern = RecordingConfig::default().filename_pattern;
    let name = expand_filename(&pattern, "alice", 5, &stamp());
    assert_eq!(name, "alice_2024-03-07_09-05-01_5.ts");
    let name = expand_filename(&pattern, "alice", 0, &stamp());
    assert_eq!(name, "alice_2024-03-07_09-05-01.ts");
}

#[test]
fn template_placeholders_repeat_and_plain_text_stays() {
    let name = expand_filename("{{.Day}}{{.Day}}-x{{.Username", "r", 12, &stamp());
    assert_eq!(name, "0707-x{{.Username_12.ts");
}

#[test]
fn duration_rendering() {
    assert_eq!(format_duration(0), "0s");
    assert_eq!(format_duration(59), "59s");
    assert_eq!(format_duration(61), "1m 1s");
    assert_eq!(format_duration(3600), "1h 0m 0s");
    assert_eq!(format_duration(3723), "1h 2m 3s");
}

#[test]
fn exit_codes_by_class() {
    assert_eq!(Error::Config("x".into()).exit_code(), EXIT_CONFIG_ERROR);
    assert_eq!(Error::NoRoomsSpecified.exit_code(), 1);
    assert_eq!(Error::CloudflareBlocked.exit_code(), EXIT_NETWORK_ERROR);
    assert_eq!(Error::Network("x".into()).exit_code(), 2);
    assert_eq!(Error::Interrupted.exit_code(), EXIT_INTERRUPTED);
    assert_eq!(Error::PrivateStream.exit_code(), EXIT_RECORDING_ERROR);
}

#[test]
fn run_fails_only_when_all_failed() {
    assert!(run_outcome(0, 2).is_err());
    assert!(run_outcome(1, 2).is_ok());
    assert!(run_outcome(0, 0).is_ok());
}

#[test]
fn page_classification() {
    let u = "https://site.example/alice/";
    assert_eq!(classify_page_response(403, u, "x".into()), Err(Error::PrivateStream));
    assert_eq!(classify_page_response(404, u, "x".into()), Err(Error::RoomNotFound(u.into())));
    assert_eq!(classify_page_response(500, u, "x".into()), Err(Error::Network("HTTP status 500".into())));
    assert_eq!(
        classify_page_response(200, u, "<html><title>Just a moment...</title>".into()),
        Err(Error::CloudflareBlocked)
    );
    assert_eq!(classify_page_response(200, u, "Please Verify your age".into()), Err(Error::AgeVerification));
    assert_eq!(classify_page_response(200, u, "fine".into()), Ok("fine".to_string()));
    assert_eq!(classify_download_status(204), Ok(()));
    assert_eq!(classify_download_status(502), Err(Error::Network("HTTP status 502".into())));
}

#[test]
fn client_profile_from_config() {
    let mut net = NetworkConfig::default();
    net.domain = "https://site.example".into();
    let p = ClientProfile::new(&net);
    assert_eq!(p.domain(), "https://site.example/");
    assert_eq!(p.user_agent, DEFAULT_USER_AGENT);
    assert_eq!(p.room_page_url("alice"), "https://site.example/alice/");
    assert_eq!(p.headers().len(), 13);
    net.cookies = Some("a=b".into());
    net.user_agent = Some("UA".into());
    let p = ClientProfile::new(&net);
    let h = p.headers();
    assert_eq!(h.len(), 14);
    assert_eq!(h[0], ("User-Agent".to_string(), "UA".to_string()));
    assert_eq!(h[13], ("Cookie".to_string(), "a=b".to_string()));
}

#[test]
fn domain_slash_is_added_once() {
    let mut net = NetworkConfig::default();
    assert_eq!(net.domain_with_trailing_slash(), "https://chaturbate.com/");
    net.domain = "https://x.example".into();
    assert_eq!(net.domain_with_trailing_slash(), "https://x.example/");
    assert_eq!(RecordingConfig::default().poll_interval_ms(), 1000);
}

fn args() -> Args {
    Args {
        rooms: vec![],
        output: None,
        monitor: false,
        resolution: None,
        fps: None,
        cookies: None,
        user_agent: None,
        max_duration: None,
        max_filesize: None,
        check_interval: None,
        config: "config.toml".into(),
        quiet: false,
        debug: false,
    }
}

#[test]
fn command_line_overrides_configuration() {
    let mut config = Config::default();
    config.monitor.rooms = vec!["fromfile".into()];
    let mut a = args();
    a.output = Some("/tmp/out".into());
    a.fps = Some(60);
    a.max_filesize = Some(100);
    a.check_interval = Some(5);
    a.merge_into_config(&mut config);
    assert_eq!(config.recording.output_directory, "/tmp/out");
    assert_eq!(config.recording.framerate, 60);
    assert_eq!(config.recording.resolution, 1080);
    assert_eq!(config.recording.max_filesize_mb, 100);
    assert_eq!(config.monitor.check_interval_seconds, 5);
    assert_eq!(config.monitor.rooms, vec!["fromfile".to_string()]);
    assert_eq!(a.get_rooms(&config), vec!["fromfile".to_string()]);
    a.rooms = vec!["cli".into()];
    a.merge_into_config(&mut config);
    assert_eq!(config.monitor.rooms, vec!["cli".to_string()]);
    assert_eq!(a.get_rooms(&config), vec!["cli".to_string()]);
}
