use shard::cli::commands::{
    cli_download_options, expand_home, finished_status, is_http_url, list_row, live_column, liveness,
    redo_options, relaunch_options, resolve_style, resume_step, status_needle, status_report, ResumeStep,
};
use shard::cli::control::{reply_text, ControlCommand};
use shard::cli::style::ColorChoice;
use shard::config::{config_path, config_set_body, is_blank, parse_set_value, Config, DownloadSection, FiletypeSection, SetValue, StyleSection};
use shard::daemon::{
    control_reply, control_socket_path, data_dir, expand_tilde, history_entry, plan_request, resolve_dest,
    to_info, BackendAction, Daemon,
};
use shard::engine::error::DownloadError;
use shard::engine::manager::{DownloadOutcome, OutcomeStatus};
use shard::history::{history_path, parse_status, HistoryEntry};
use shard::manifests::{config_home, manifest, manifest_file, Allowed, Browser, DEFAULT_EXTENSION, HOST_NAME};
use shard::registry::{Entry, EntryStatus, Registry};
use shard::rpc::{DownloadStatus, Request, Response};

fn conf() -> Config {
    Config::with_defaults("~/Downloads".to_string())
}

fn entry(id: &str, status: EntryStatus) -> Entry {
    Entry {
        id: id.into(),
        url: format!("https://example.com/{id}.bin"),
        dest: format!("/tmp/{id}.bin"),
        final_dest: None,
        status,
        pid: 42,
        started_at: "2026-07-04T10:00:00Z".into(),
        updated_at: "2026-07-04T10:05:00Z".into(),
    }
}

#[test]
fn firefox_manifest_lists_extension_ids() {
    let value = manifest(Browser::Firefox, "/opt/shard/shard-native-host", &["ext@x".into()]);
    assert_eq!(value.name, HOST_NAME);
    assert_eq!(value.path, "/opt/shard/shard-native-host");
    match value.allowed {
        Allowed::Extensions(ids) => assert_eq!(ids, vec!["ext@x".to_string()]),
        Allowed::Origins(_) => panic!("firefox lists extension ids"),
    }
}

#[test]
fn chrome_manifest_maps_ids_to_origins() {
    let value = manifest(Browser::Chrome, "/opt/shard/shard-native-host", &["ext@x".into()]);
    match value.allowed {
        Allowed::Origins(origins) => assert_eq!(origins, vec!["chrome-extension://ext@x/".to_string()]),
        Allowed::Extensions(_) => panic!("chrome lists origins"),
    }
}

#[test]
fn empty_extension_list_uses_the_default() {
    let value = manifest(Browser::Firefox, "/tmp/host", &[]);
    match value.allowed {
        Allowed::Extensions(ids) => assert_eq!(ids, vec![DEFAULT_EXTENSION.to_string()]),
        Allowed::Origins(_) => panic!("firefox lists extension ids"),
    }
}

#[test]
fn manifest_directories_follow_each_browser() {
    assert_eq!(
        Browser::Firefox.manifest_dir("/home/u", "/home/u/.config"),
        "/home/u/.mozilla/native-messaging-hosts"
    );
    assert_eq!(
        Browser::Chromium.manifest_dir("/home/u", "/cfg"),
        "/cfg/chromium/NativeMessagingHosts"
    );
    assert_eq!(config_home(None, "/home/u"), "/home/u/.config");
    assert_eq!(config_home(Some("/xdg"), "/home/u"), "/xdg");
    assert_eq!(manifest_file("/cfg/x"), "/cfg/x/com.shard.native_host.json");
}

#[test]
fn daemon_paths_live_under_the_data_dir() {
    let daemon = Daemon::new("/data/shard/run");
    assert_eq!(daemon.socket_path(), "/data/shard/run/control.sock");
    assert_eq!(data_dir(Some("/xdg"), Some("/home/u")), "/xdg/shard");
    assert_eq!(data_dir(None, Some("/home/u")), "/home/u/.local/share/shard");
    assert_eq!(data_dir(None, None), "shard");
    assert_eq!(control_socket_path("/d"), "/d/run/control.sock");
    assert_eq!(history_path("/d"), "/d/history.db");
    assert_eq!(parse_status("completed"), EntryStatus::Completed);
    assert_eq!(parse_status("weird"), EntryStatus::Downloading);
}

#[test]
fn requests_map_to_handler_actions() {
    assert!(matches!(plan_request(Request::Ping), BackendAction::Reply(Response::Pong)));
    assert!(matches!(plan_request(Request::List), BackendAction::List));
    match plan_request(Request::Pause { id: "1a".into() }) {
        BackendAction::Control { id, command } => {
            assert_eq!(id, "1a");
            assert_eq!(command, ControlCommand::Pause);
        }
        _ => panic!("pause steers a download"),
    }
    match plan_request(Request::Watch) {
        BackendAction::Reply(Response::Error { code, .. }) => assert_eq!(code, "watch_unavailable"),
        _ => panic!("watch is not available"),
    }
    assert_eq!(control_reply("1a", true), Response::Ack { id: "1a".into() });
    assert_eq!(
        control_reply("1a", false),
        Response::Error {
            code: "not_running".into(),
            message: "download 1a is not running in this daemon".into()
        }
    );
}

#[test]
fn registry_entries_become_protocol_infos() {
    let running = entry("a", EntryStatus::Downloading);
    assert_eq!(to_info(&running, true).status, DownloadStatus::Paused);
    assert_eq!(to_info(&running, false).status, DownloadStatus::Downloading);
    let done = entry("b", EntryStatus::Completed);
    let info = to_info(&done, true);
    assert_eq!(info.status, DownloadStatus::Completed);
    assert_eq!(info.dest, "/tmp/b.bin");
    assert_eq!(info.size, 0);
}

#[test]
fn finished_downloads_are_recorded_in_history() {
    let e = entry("c", EntryStatus::Downloading);
    let outcome = Ok(DownloadOutcome {
        final_url: "https://cdn/c.bin".into(),
        size: 77,
        sha256: "beef".into(),
        dest_path: "/tmp/c.bin".into(),
        status: OutcomeStatus::Completed,
    });
    let row: HistoryEntry = history_entry(&e, &outcome, "later".into());
    assert_eq!(row.status, EntryStatus::Completed);
    assert_eq!(row.size, 77);
    assert_eq!(row.sha256.as_deref(), Some("beef"));
    let failed: Result<DownloadOutcome, DownloadError> = Err(DownloadError::Canceled);
    let row = history_entry(&e, &failed, "later".into());
    assert_eq!(row.status, EntryStatus::Failed);
    assert_eq!(row.size, 0);
    assert!(row.final_url.is_none());
}

#[test]
fn destinations_expand_the_home_directory() {
    assert_eq!(expand_tilde("~/x/y", Some("/home/u")), "/home/u/x/y");
    assert_eq!(expand_tilde("~/x", None), "~/x");
    assert_eq!(expand_tilde("/abs", Some("/home/u")), "/abs");
    let (dest, routing) = resolve_dest(&conf(), None, Some("/home/u"));
    assert_eq!(dest, "/home/u/Downloads");
    assert_eq!(routing.unwrap().dirs[0], ("video".to_string(), "Videos".to_string()));
    let (dest, routing) = resolve_dest(&conf(), Some("/tmp/f".into()), Some("/home/u"));
    assert_eq!(dest, "/tmp/f");
    assert!(routing.is_none());
    assert_eq!(expand_home("~/Downloads", "/home/u"), "/home/u/Downloads");
    assert_eq!(expand_home("~//x", "/h"), "/h/x");
    assert_eq!(expand_home("/abs", "/h"), "/abs");
}

#[test]
fn command_line_options_override_the_configuration() {
    let c = conf();
    let opts = cli_download_options(&c, "https://e/f".into(), None, Some(3), None, None, "/home/u");
    assert_eq!(opts.connections, 3);
    assert_eq!(opts.chunk_size, 8 * 1024 * 1024);
    assert_eq!(opts.dest_path, "/home/u/Downloads");
    assert!(opts.routing.is_some());
    let explicit = cli_download_options(&c, "https://e/f".into(), Some("/o".into()), None, Some(10), Some(2), "/h");
    assert_eq!(explicit.dest_path, "/o");
    assert_eq!(explicit.chunk_size, 10);
    assert_eq!(explicit.max_attempts, 2);
    assert!(explicit.routing.is_none());
    let mut moved = entry("d", EntryStatus::Cancelled);
    moved.final_dest = Some("/final/d.bin".into());
    let relaunch = relaunch_options(&c, &moved);
    assert_eq!(relaunch.dest_path, "/final/d.bin");
    assert!(relaunch.resume);
    let row = HistoryEntry {
        id: "h".into(),
        url: "https://e/h".into(),
        final_url: None,
        dest: "/tmp/h".into(),
        status: EntryStatus::Completed,
        size: 1,
        sha256: None,
        started_at: String::new(),
        updated_at: String::new(),
    };
    assert_eq!(redo_options(&c, &row).dest_path, "/tmp/h");
}

#[test]
fn styles_and_replies_follow_the_flags() {
    let section = StyleSection { color: ColorChoice::Never, prefer_eyecandy: true };
    let style = resolve_style(None, None, &section, true);
    assert!(!style.color_on);
    assert!(style.eyecandy);
    let style = resolve_style(Some(false), Some(ColorChoice::Auto), &section, true);
    assert!(style.color_on);
    assert!(!style.eyecandy);
    assert_eq!(resume_step(Some("cancelled")), ResumeStep::AlreadyCancelled);
    assert_eq!(resume_step(Some("paused")), ResumeStep::SendResume);
    assert_eq!(resume_step(None), ResumeStep::Relaunch);
    assert_eq!(live_column(Some("ok")), "off");
    assert_eq!(live_column(Some("running")), "running");
    assert_eq!(live_column(None), "-");
    assert_eq!(liveness(Some("paused")), "running (paused)");
    assert_eq!(finished_status(OutcomeStatus::Cancelled), EntryStatus::Cancelled);
    assert!(is_http_url("https://x"));
    assert!(!is_http_url("ftp://x"));
    assert_eq!(ControlCommand::Resume.line(), "resume\n");
    assert_eq!(reply_text("  paused \n"), "paused");
}

#[test]
fn reports_list_and_describe_entries() {
    assert_eq!(
        list_row("abc", EntryStatus::Completed, "-", "/tmp/x"),
        format!("{:<22} {:<11} {:<7} {}", "abc", "completed", "-", "/tmp/x")
    );
    let mut registry = Registry::default();
    registry.entries.push(entry("a", EntryStatus::Downloading));
    registry.entries.push(entry("b", EntryStatus::Completed));
    assert_eq!(status_needle(None, &registry), Some("a".to_string()));
    assert_eq!(status_needle(Some("zz"), &registry), Some("zz".to_string()));
    let lines = status_report(&registry.entries[0], "not running");
    assert_eq!(lines.len(), 8);
    assert_eq!(lines[3], "status:   downloading (not running)");
    assert_eq!(lines[4], "pid:      42");
    assert_eq!(lines[7], "hint:     `shard resume a` to continue where it left off");
    assert_eq!(status_report(&registry.entries[1], "x").len(), 7);
}

#[test]
fn configuration_paths_and_keys_are_checked() {
    assert_eq!(config_path(Some("/xdg"), Some("/h")), "/xdg/shard/shard.conf");
    assert_eq!(config_path(None, Some("/h")), "/h/.config/shard/shard.conf");
    assert!(is_blank("  \n\t"));
    assert!(!is_blank(" x "));
    let set = parse_set_value("filetype.video", "Films").unwrap();
    assert_eq!(set.field, "video");
    assert!(matches!(set.value, SetValue::Text(ref t) if t == "Films"));
    assert!(parse_set_value("connections", "0").is_err());
    assert_eq!(Config::keys().len(), 16);
}

#[test]
fn absent_file_yields_builtin_defaults() {
    let config = Config::with_defaults("/home/u/Downloads".to_string());
    assert_eq!(config.style.color, ColorChoice::Auto);
    assert!(!config.style.prefer_eyecandy);
    assert_eq!(config.download.connections, 8);
    assert_eq!(config.download.chunk_size, 8 * 1024 * 1024);
    assert!(config.download.resume);
}

#[test]
fn bad_enum_value_fails_typed_set() {
    assert!(config_set_body("", "color", "violet").is_err());
    assert!(config_set_body("", "connections", "twelve").is_err());
    assert!(config_set_body("", "connections", "0").is_err());
    assert!(config_set_body("", "resume", "true").is_ok());
    assert!(config_set_body("", "resume", "no").is_ok());
}

#[test]
fn unknown_key_is_rejected() {
    let message = config_set_body("", "threads", "4").unwrap_err();
    assert!(message.contains("unknown key"), "got: {message}");
    assert!(message.contains("pick one of: color, prefer-eyecandy"), "got: {message}");
}

#[test]
fn typed_values_carry_their_section() {
    let set = parse_set_value("prefer-eyecandy", "on").unwrap();
    assert_eq!(set.section.as_str(), "style");
    assert!(matches!(set.value, SetValue::Boolean(true)));
    let set = parse_set_value("chunk_size", "4194304").unwrap();
    assert_eq!(set.section.as_str(), "download");
    assert!(matches!(set.value, SetValue::Integer(4194304)));
    assert_eq!(
        parse_set_value("resume", "maybe").unwrap_err(),
        "resume must be true or false, got \"maybe\""
    );
}

fn setting(body: &str, section: &str, field: &str) -> Option<toml::Value> {
    let doc: toml::Table = toml::from_str(body).unwrap();
    doc.get(section).and_then(|t| t.get(field)).cloned()
}

#[test]
fn set_then_load_round_trips() {
    let body = config_set_body("", "chunk_size", "4194304").unwrap();
    let body = config_set_body(&body, "prefer-eyecandy", "true").unwrap();
    assert_eq!(setting(&body, "download", "chunk_size"), Some(toml::Value::Integer(4 * 1024 * 1024)));
    assert_eq!(setting(&body, "style", "prefer-eyecandy"), Some(toml::Value::Boolean(true)));
}

#[test]
fn overwriting_an_existing_key_updates_it() {
    let body = config_set_body("", "connections", "3").unwrap();
    let body = config_set_body(&body, "connections", "6").unwrap();
    assert_eq!(setting(&body, "download", "connections"), Some(toml::Value::Integer(6)));
    assert_eq!(setting(&body, "download", "max_attempts"), None);
    assert_eq!(DownloadSection::default_section(String::new()).max_attempts, 5);
}

#[test]
fn download_dir_and_filetype_setting_round_trip() {
    let body = config_set_body("", "download_dir", "/home/me/Shared").unwrap();
    let body = config_set_body(&body, "filetype.video", "Movies").unwrap();
    assert_eq!(setting(&body, "download", "download_dir"), Some(toml::Value::String("/home/me/Shared".to_string())));
    assert_eq!(setting(&body, "filetype", "video"), Some(toml::Value::String("Movies".to_string())));
    assert_eq!(setting(&body, "filetype", "image"), None);
    assert_eq!(FiletypeSection::default_section().image, "Images");
}

#[test]
fn set_keeps_other_settings_and_refuses_a_non_table_section() {
    let body = config_set_body("[download]\nconnections = 4\n", "resume", "no").unwrap();
    assert_eq!(setting(&body, "download", "connections"), Some(toml::Value::Integer(4)));
    assert_eq!(setting(&body, "download", "resume"), Some(toml::Value::Boolean(false)));
    assert_eq!(config_set_body("download = 3\n", "resume", "no"), Err("config section is not a table".to_string()));
    let body = config_set_body("not [valid toml", "color", "never").unwrap();
    assert_eq!(setting(&body, "style", "color"), Some(toml::Value::String("never".to_string())));
}
