use chaturbate_recorder::discovery::{
    extract_dossier, master_playlist_url, resolve_segment_url, resolve_url, select_stream,
    select_variant, variant_framerate, VariantQuality,
};
use chaturbate_recorder::error::Error;
use chaturbate_recorder::escape::decode_unicode_escapes;

fn q(resolution: u32, framerate: u32, bandwidth: u64) -> VariantQuality {
    VariantQuality { resolution, framerate, bandwidth }
}

#[test]
fn test_decode_unicode_escapes() {
    let input = r#"hello\u0020world"#;
    let result = decode_unicode_escapes(input).unwrap();
    assert_eq!(result, "hello world");
}

#[test]
fn test_decode_unicode_escapes_quotes() {
    let input = r#"test\"value\""#;
    let result = decode_unicode_escapes(input).unwrap();
    assert_eq!(result, r#"test"value""#);
}

#[test]
fn unescape_each_kind() {
    assert_eq!(decode_unicode_escapes(r#"\u0041"#).unwrap(), "A");
    assert_eq!(decode_unicode_escapes(r#"\""#).unwrap(), "\"");
    assert_eq!(decode_unicode_escapes(r#"\\"#).unwrap(), "\\");
    assert_eq!(decode_unicode_escapes(r#"\n"#).unwrap(), "\n");
    assert_eq!(decode_unicode_escapes(r#"\r\t\/"#).unwrap(), "\r\t/");
    assert_eq!(decode_unicode_escapes(r#"a\qb"#).unwrap(), "a\\qb");
    assert_eq!(decode_unicode_escapes("end\\").unwrap(), "end\\");
    assert_eq!(decode_unicode_escapes(r#"\ud800x"#).unwrap(), "x");
    assert_eq!(decode_unicode_escapes(r#"\uzzzzok"#).unwrap(), "ok");
    assert_eq!(decode_unicode_escapes(r#"\u+041!"#).unwrap(), "A!");
    assert_eq!(decode_unicode_escapes(r#"\u00e9"#).unwrap(), "\u{e9}");
}

#[test]
fn selection_prefers_exact_match() {
    let vs = vec![q(1080, 30, 5), q(720, 60, 4), q(720, 30, 3), q(480, 30, 2)];
    assert_eq!(select_variant(&vs, 720, 30), 2);
}

#[test]
fn selection_puts_resolution_first() {
    let vs = vec![q(1080, 30, 5), q(720, 60, 4), q(720, 30, 3), q(480, 30, 2)];
    assert_eq!(select_variant(&vs, 1080, 60), 0);
}

#[test]
fn selection_falls_back_to_best_overall() {
    let vs = vec![q(720, 30, 3), q(1080, 60, 9), q(1080, 30, 5)];
    assert_eq!(select_variant(&vs, 480, 30), 1);
}

#[test]
fn selection_ties_go_to_bandwidth_then_order() {
    let vs = vec![q(720, 30, 3), q(720, 30, 8), q(720, 30, 8)];
    assert_eq!(select_variant(&vs, 720, 30), 1);
    let vs = vec![q(480, 30, 1), q(720, 60, 2), q(720, 30, 9)];
    assert_eq!(select_variant(&vs, 1080, 60), 1);
}

#[test]
fn framerate_from_name() {
    assert_eq!(variant_framerate(&Some("\"FPS:60.0\"".to_string())), 60);
    assert_eq!(variant_framerate(&Some("FPS:30.0".to_string())), 30);
    assert_eq!(variant_framerate(&None), 30);
}

#[test]
fn relative_uri_is_joined_to_playlist() {
    let u = resolve_segment_url("https://edge.example/live/a/playlist.m3u8", "seg_1.ts").unwrap();
    assert_eq!(u, "https://edge.example/live/a/seg_1.ts");
    let u = resolve_url("https://edge.example/live/a/playlist.m3u8", "/root/seg_2.ts").unwrap();
    assert_eq!(u, "https://edge.example/root/seg_2.ts");
}

#[test]
fn absolute_uri_is_kept() {
    let u = resolve_url("not a url", "https://cdn.example/x.ts").unwrap();
    assert_eq!(u, "https://cdn.example/x.ts");
}

#[test]
fn unresolvable_uri_is_url_error() {
    assert!(matches!(resolve_url("not a url", "x.ts"), Err(Error::UrlParse(_))));
}

fn page(dossier_json_escaped: &str) -> String {
    format!(
        "<html><script>var p = 'playlist.m3u8';\nwindow.initialRoomDossier = \"{}\";</script></html>",
        dossier_json_escaped
    )
}

#[test]
fn dossier_is_found_after_white_space() {
    let html = "x window.initialRoomDossier  =\t \"abc\\u0022\" y";
    assert_eq!(extract_dossier(html), Some("abc\\u0022".to_string()));
    assert_eq!(extract_dossier("window.initialRoomDossier = \"\"\""), Some("\"".to_string()));
    assert_eq!(extract_dossier("window.initialRoomDossier = \"a\nb\""), None);
    assert_eq!(extract_dossier("no data here"), None);
}

#[test]
fn master_url_from_room_page() {
    let html = page(r#"{\u0022hls_source\u0022: \u0022https:\/\/edge.example\/live\/alice\/master.m3u8\u0022}"#);
    let u = master_playlist_url("alice", &html).unwrap();
    assert_eq!(u, "https://edge.example/live/alice/master.m3u8");
}

#[test]
fn page_without_playlist_is_offline() {
    let r = master_playlist_url("alice", "<html>nothing</html>");
    assert_eq!(r, Err(Error::BroadcasterOffline("alice".to_string())));
}

#[test]
fn page_without_data_is_stream_not_found() {
    let r = master_playlist_url("alice", "<html>playlist.m3u8</html>");
    assert_eq!(r, Err(Error::StreamNotFound("alice".to_string())));
}

#[test]
fn empty_or_missing_source_is_offline() {
    let html = page(r#"{\u0022hls_source\u0022: \u0022\u0022}"#);
    assert_eq!(master_playlist_url("bob", &html), Err(Error::BroadcasterOffline("bob".to_string())));
    let html = page(r#"{\u0022other\u0022: 1}"#);
    assert_eq!(master_playlist_url("bob", &html), Err(Error::BroadcasterOffline("bob".to_string())));
}

#[test]
fn bad_json_is_json_error() {
    let html = page("{not json");
    assert!(matches!(master_playlist_url("bob", &html), Err(Error::Json(_))));
}

const MASTER: &str = "#EXTM3U
#EXT-X-STREAM-INF:BANDWIDTH=5000000,RESOLUTION=1920x1080,NAME=\"FPS:30.0\"
chunklist_1080.m3u8
#EXT-X-STREAM-INF:BANDWIDTH=3000000,RESOLUTION=1280x720,NAME=\"FPS:60.0\"
chunklist_720p60.m3u8
";

#[test]
fn stream_is_selected_from_master_playlist() {
    let info = select_stream("alice", "https://edge.example/live/alice/master.m3u8", MASTER, 720, 60).unwrap();
    assert_eq!(info.hls_source, "https://edge.example/live/alice/chunklist_720p60.m3u8");
    assert_eq!(info.room, "alice");
    assert_eq!((info.resolution, info.framerate), (720, 60));
}

#[test]
fn unparsable_master_playlist_is_m3u8_error() {
    let r = select_stream("alice", "https://edge.example/m.m3u8", "garbage", 720, 30);
    assert!(matches!(r, Err(Error::M3u8(_))));
    let r = select_stream("alice", "https://edge.example/m.m3u8", "#EXTM3U\n", 720, 30);
    assert!(matches!(r, Err(Error::M3u8(_))));
}
