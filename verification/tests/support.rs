use rocoknight::cache::CacheManager;
use rocoknight::config::{CacheConfig, CoreConfig, GameConfig, LauncherConfig, UpdateConfig};
use rocoknight::error::{prefixed, CoreError};
use rocoknight::error_handling::{
    format_error_chain, log_error, log_error_with_context, result_to_string, ErrorChain,
    ErrorInfo,
};
use rocoknight::logging::{trim_log_file, LOG_MAX_BYTES, LOG_TRIM_BYTES};
use rocoknight::plugins::loader::DirectoryEntry;
use rocoknight::plugins::{
    NetworkPermission, PermissionSet, PluginLoader, PluginManifest, ScriptLanguage,
};
use rocoknight::process::{ProcessHandle, ProcessManager, ProjectorLauncher};
use rocoknight::request_context::{
    create_command_span, create_stage_span, generate_request_id, CommandTimer, RequestIds,
    StageTimer,
};
use rocoknight::sorting::{compare_bytes, sorted_unique, Order3};
use rocoknight::text::{
    find_bytes, latin1_string, parse_u64, str_equal, to_ascii_lower, to_lower_bytes,
};
use rocoknight::window::set_window_title;
use rocoknight::window_layout::{
    aligned_outer_height, center_position, track_last_size, LastWindowSize,
};
use std::path::PathBuf;

fn chain(message: &str, sources: &[&str]) -> ErrorChain {
    ErrorChain {
        message: message.to_string(),
        sources: sources.iter().map(|s| s.to_string()).collect(),
    }
}

fn manifest(name: &str) -> PluginManifest {
    PluginManifest {
        name: name.to_string(),
        version: "1.0".to_string(),
        description: None,
        language: ScriptLanguage::Lua,
        entry: PathBuf::from("main.lua"),
        permissions: PermissionSet::default(),
        dependencies: None,
    }
}

#[test]
fn error_chain_is_written_line_by_line() {
    assert_eq!(format_error_chain(&chain("top", &[])), "top");
    assert_eq!(
        format_error_chain(&chain("top", &["middle", "root"])),
        "top\n  caused by: middle\n  caused by: root"
    );
    assert_eq!(format_error_chain(&chain("", &[""])), "\n  caused by: ");
}

#[test]
fn error_records_carry_context_and_request() {
    let record = log_error("launching", &chain("failed", &["io"]));
    assert_eq!(record.context, "launching");
    assert_eq!(record.error, "failed\n  caused by: io");
    assert_eq!(record.request_id, None);
    let record = log_error_with_context("launching", &chain("failed", &[]), 17);
    assert_eq!(record.error, "failed");
    assert_eq!(record.request_id, Some(17));
}

#[test]
fn result_error_becomes_its_text() {
    let ok: Result<u8, ErrorChain> = Ok(3);
    assert_eq!(result_to_string(ok), Ok(3));
    let err: Result<u8, ErrorChain> = Err(chain("a", &["b"]));
    assert_eq!(result_to_string(err), Err("a\n  caused by: b".to_string()));
}

#[test]
fn error_info_lists_the_whole_chain() {
    let info = ErrorInfo::from_error(&chain("top", &["middle", "root"]));
    assert_eq!(info.message, "top");
    assert_eq!(info.chain, vec!["top".to_string(), "middle".to_string(), "root".to_string()]);
    assert_eq!(info.context, None);
    assert_eq!(info.request_id, None);
    let info = info.with_context("resize".to_string()).with_request_id(5);
    assert_eq!(info.context, Some("resize".to_string()));
    assert_eq!(info.request_id, Some(5));
    assert_eq!(info.message, "top");
    assert_eq!(info.chain.len(), 3);
}

#[test]
fn request_ids_count_up_from_one() {
    let mut ids = RequestIds::new();
    assert_eq!(generate_request_id(&mut ids), 1);
    assert_eq!(generate_request_id(&mut ids), 2);
    let span = create_command_span(&mut ids, "launch_projector");
    assert_eq!(span.cmd, "launch_projector");
    assert_eq!(span.request_id, 3);
    let stage = create_stage_span("find_window", "start");
    assert_eq!(stage.stage, "find_window");
    assert_eq!(stage.status, "start");
    assert_eq!(generate_request_id(&mut ids), 4);
}

#[test]
fn command_timer_warns_when_slow() {
    let mut ids = RequestIds::new();
    let timer = CommandTimer::new(&mut ids, "stop_projector", 500, 1_000);
    assert_eq!(timer.id(), 1);
    let report = timer.success(1_500);
    assert_eq!(report.duration_ms, 500);
    assert!(!report.slow);
    assert_eq!(report.status, "completed");
    assert_eq!(report.error, None);

    let timer = CommandTimer::new(&mut ids, "stop_projector", 500, 1_000);
    assert_eq!(timer.id(), 2);
    let report = timer.fail("boom", 1_501);
    assert_eq!(report.duration_ms, 501);
    assert!(report.slow);
    assert_eq!(report.error, Some("boom".to_string()));

    let timer = CommandTimer::new(&mut ids, "x", 0, 1_000);
    assert_eq!(timer.success(900).duration_ms, 0);
}

#[test]
fn stage_timer_reports_its_outcome() {
    let report = StageTimer::new("attach_window", 100).success(130);
    assert_eq!(report.duration_ms, 30);
    assert_eq!(report.status, "success");
    assert!(!report.slow);
    let report = StageTimer::new("attach_window", 100).fail("no host", 90);
    assert_eq!(report.duration_ms, 0);
    assert_eq!(report.status, "fail");
    assert_eq!(report.error, Some("no host".to_string()));
}

#[test]
fn core_errors_have_their_texts() {
    assert_eq!(CoreError::Config("a".to_string()).message(), "config error: a");
    assert_eq!(CoreError::Process("b".to_string()).message(), "process error: b");
    assert_eq!(CoreError::Network("c".to_string()).message(), "network error: c");
    assert_eq!(CoreError::UnsupportedPlatform.message(), "unsupported platform");
    let io = std::io::Error::new(std::io::ErrorKind::Other, "disk");
    assert_eq!(CoreError::Io(io).message(), "io error: disk");
    assert_eq!(prefixed("a: ", "b"), "a: b");
}

#[test]
fn cache_manager_keeps_its_root() {
    let cache = CacheManager::new(PathBuf::from("/var/cache/roco"));
    assert_eq!(cache.root_dir(), &PathBuf::from("/var/cache/roco"));
    match cache.purge() {
        Err(CoreError::Config(message)) => assert_eq!(message, "cache purge not implemented"),
        _ => panic!("purging is not offered"),
    }
}

#[test]
fn default_config_is_blank() {
    let cfg = CoreConfig::default();
    assert_eq!(cfg.launcher.projector_path, None);
    assert_eq!(cfg.launcher.main_swf_url, None);
    assert!(!cfg.launcher.allow_multi_instance);
    assert!(!cfg.launcher.auto_restart_on_crash);
    assert_eq!(cfg.game.window_title, None);
    assert_eq!(cfg.game.fps_limit, None);
    assert_eq!(cfg.cache.root_dir, None);
    assert_eq!(cfg.cache.max_size_mb, None);
    assert_eq!(cfg.update.channel, None);
    assert!(!cfg.update.allow_prerelease);
    let _ = (
        LauncherConfig::default(),
        GameConfig::default(),
        CacheConfig::default(),
        UpdateConfig::default(),
    );
}

#[test]
fn launch_needs_path_and_url() {
    let manager = ProcessManager::new();
    let mut cfg = CoreConfig::default();
    match manager.launch_projector(&cfg) {
        Err(CoreError::Config(message)) => assert_eq!(message, "projector_path is required"),
        _ => panic!("the path is missing"),
    }
    cfg.launcher.projector_path = Some(PathBuf::from("projector.exe"));
    match manager.launch_projector(&cfg) {
        Err(CoreError::Config(message)) => assert_eq!(message, "main_swf_url is required"),
        _ => panic!("the url is missing"),
    }
    cfg.launcher.main_swf_url = Some("https://a/main.swf".to_string());
    let request = manager.launch_projector(&cfg).expect("both are there");
    assert_eq!(request.projector_path, PathBuf::from("projector.exe"));
    assert_eq!(request.url, "https://a/main.swf");
    let launcher = ProjectorLauncher::new(ProcessManager::new());
    let request = launcher.launch(&cfg).expect("both are there");
    assert_eq!(request.projector_path, PathBuf::from("projector.exe"));
    assert_eq!(request.url, "https://a/main.swf");
    match launcher.launch(&CoreConfig::default()) {
        Err(CoreError::Config(message)) => assert_eq!(message, "projector_path is required"),
        _ => panic!("the path is missing"),
    }
    cfg.launcher.main_swf_url = None;
    match launcher.launch(&cfg) {
        Err(CoreError::Config(message)) => assert_eq!(message, "main_swf_url is required"),
        _ => panic!("the url is missing"),
    }
}

#[test]
fn manager_tracks_live_children() {
    let mut manager = ProcessManager::new();
    assert!(manager.has_free_id());
    let a = manager.launch_projector_with_url();
    let b = manager.launch_projector_with_url();
    assert_eq!(a, ProcessHandle { id: 0 });
    assert_eq!(b, ProcessHandle { id: 1 });
    assert!(manager.is_running(&a, Some(false)));
    assert!(!manager.is_running(&a, Some(true)));
    assert!(!manager.is_running(&a, None));
    assert!(!manager.is_running(&ProcessHandle { id: 9 }, Some(false)));
    assert!(manager.stop(&a));
    assert!(!manager.stop(&a));
    assert!(!manager.is_running(&a, Some(false)));
    assert!(manager.is_running(&b, Some(false)));
    assert_eq!(manager.launch_projector_with_url().id, 2);
}

#[test]
fn plugins_are_directories_with_manifest() {
    let loader = PluginLoader::new(PathBuf::from("plugins"));
    assert_eq!(loader.root_dir(), &PathBuf::from("plugins"));
    assert_eq!(PluginLoader::manifest_name(), "plugin.json");
    let entries = vec![
        DirectoryEntry { path: PathBuf::from("plugins/a"), is_dir: true, manifest: Some(manifest("a")) },
        DirectoryEntry { path: PathBuf::from("plugins/readme"), is_dir: false, manifest: Some(manifest("x")) },
        DirectoryEntry { path: PathBuf::from("plugins/empty"), is_dir: true, manifest: None },
        DirectoryEntry { path: PathBuf::from("plugins/b"), is_dir: true, manifest: Some(manifest("b")) },
    ];
    let found = loader.discover(entries);
    assert_eq!(found.len(), 2);
    assert_eq!(found[0].manifest.name, "a");
    assert_eq!(found[0].root_dir, PathBuf::from("plugins/a"));
    assert_eq!(found[1].manifest.name, "b");
    assert_eq!(found[1].root_dir, PathBuf::from("plugins/b"));
    assert!(loader.discover(Vec::new()).is_empty());
}

#[test]
fn languages_are_named_in_lower_case() {
    assert_eq!(ScriptLanguage::Lua.name(), "lua");
    assert_eq!(ScriptLanguage::JavaScript.name(), "javascript");
    assert_eq!(ScriptLanguage::Python.name(), "python");
    assert_eq!(ScriptLanguage::from_name("python"), Some(ScriptLanguage::Python));
    assert_eq!(ScriptLanguage::from_name("lua"), Some(ScriptLanguage::Lua));
    assert_eq!(ScriptLanguage::from_name("javascript"), Some(ScriptLanguage::JavaScript));
    assert_eq!(ScriptLanguage::from_name("Lua"), None);
    let nothing = PermissionSet::default();
    assert!(!nothing.config_read && !nothing.config_write && !nothing.process_control);
    assert!(!nothing.window_control && !nothing.notifications);
    assert!(nothing.network.allowed_domains.is_empty());
    assert!(NetworkPermission::default().allowed_domains.is_empty());
}

#[test]
fn window_title_is_not_implemented() {
    set_window_title(0, "title");
}

#[test]
fn zero_sizes_are_not_remembered() {
    let mut last = LastWindowSize::new();
    track_last_size(&mut last, 0, 600);
    assert_eq!(last.size, None);
    track_last_size(&mut last, 800, 600);
    assert_eq!(last.size, Some((800, 600)));
    track_last_size(&mut last, 900, 0);
    assert_eq!(last.size, Some((800, 600)));
    track_last_size(&mut last, 1, 1);
    assert_eq!(last.size, Some((1, 1)));
}

#[test]
fn window_is_centred_on_its_screen() {
    assert_eq!(center_position((0, 0), (1920, 1080), (1280, 800)), (320, 140));
    assert_eq!(center_position((100, -50), (1920, 1080), (1921, 1083)), (100, -51));
    assert_eq!(center_position((0, 0), (800, 600), (1000, 601)), (-100, 0));
}

#[test]
fn window_height_follows_the_game_ratio() {
    assert_eq!(aligned_outer_height(1200, 736, 760, 36), None);
    assert_eq!(aligned_outer_height(1200, 700, 760, 36), Some(796));
    assert_eq!(aligned_outer_height(1200, 800, 760, 36), Some(696));
    assert_eq!(aligned_outer_height(6, 40, 50, 36), None);
    assert_eq!(aligned_outer_height(6, 41, 50, 36), Some(240));
    assert_eq!(aligned_outer_height(0, 5, 300, 0), Some(296));
    assert_eq!(aligned_outer_height(18, 11, 300, 0), None);
    assert_eq!(aligned_outer_height(18, 10, 300, 0), Some(301));
}

#[test]
fn large_log_files_lose_their_beginning() {
    assert_eq!(trim_log_file(LOG_MAX_BYTES, 5_242_880), None);
    assert_eq!(trim_log_file(LOG_MAX_BYTES + 1, 5_242_881), Some(LOG_TRIM_BYTES));
    assert_eq!(trim_log_file(LOG_MAX_BYTES + 1, 10), Some(10));
    assert_eq!(trim_log_file(0, 0), None);
    assert_eq!(LOG_TRIM_BYTES, 1_048_576);
}

#[test]
fn texts_are_ordered_by_their_bytes() {
    assert_eq!(compare_bytes(b"a", b"b"), Order3::Before);
    assert_eq!(compare_bytes(b"b", b"a"), Order3::After);
    assert_eq!(compare_bytes(b"ab", b"ab"), Order3::Same);
    assert_eq!(compare_bytes(b"ab", b"abc"), Order3::Before);
    assert_eq!(compare_bytes(b"abc", b"ab"), Order3::After);
    assert_eq!(compare_bytes(b"", b""), Order3::Same);
    assert_eq!(compare_bytes(b"", b"a"), Order3::Before);
    assert_eq!(compare_bytes(b"Z", b"a"), Order3::Before);
}

#[test]
fn sorting_drops_repeats() {
    let texts = ["pear", "apple", "fig", "apple", "Pear", "fig", ""]
        .iter()
        .map(|s| s.to_string())
        .collect();
    assert_eq!(
        sorted_unique(texts),
        vec!["".to_string(), "Pear".to_string(), "apple".to_string(), "fig".to_string(), "pear".to_string()]
    );
    assert!(sorted_unique(Vec::new()).is_empty());
}

#[test]
fn decimal_numbers_are_read_like_the_standard_library() {
    for text in ["0", "7", "+7", "007", "18446744073709551615", "18446744073709551616", "", "+", "-1", "1 ", " 1", "1a", "++1", "99999999999999999999999"] {
        assert_eq!(parse_u64(text.as_bytes()), text.parse::<u64>().ok(), "{}", text);
    }
}

#[test]
fn bytes_helpers_agree_with_the_standard_library() {
    assert_eq!(find_bytes(b"hello world", b"o w"), Some(4));
    assert_eq!(find_bytes(b"hello", b""), Some(0));
    assert_eq!(find_bytes(b"", b""), Some(0));
    assert_eq!(find_bytes(b"aaa", b"aaaa"), None);
    assert_eq!(find_bytes(b"abcabc", b"bc"), Some(1));
    assert_eq!(find_bytes(b"abc", b"c"), Some(2));
    assert_eq!(to_ascii_lower(b'A'), b'a');
    assert_eq!(to_ascii_lower(b'Z'), b'z');
    assert_eq!(to_ascii_lower(b'['), b'[');
    assert_eq!(to_ascii_lower(b'@'), b'@');
    assert_eq!(to_lower_bytes(b"AbC-Z"), b"abc-z".to_vec());
    assert_eq!(latin1_string(&[0x61, 0xE9, 0xFF]), "a\u{E9}\u{FF}");
    assert!(str_equal("abc", "abc"));
    assert!(!str_equal("abc", "abd"));
    assert!(!str_equal("abc", "ab"));
}

#[test]
fn json_errors_are_shown_with_their_own_text() {
    let error = serde_json::from_str::<serde_json::Value>("{").unwrap_err();
    let text = error.to_string();
    assert!(!text.is_empty());
    assert_eq!(CoreError::Serde(error).message(), format!("serde error: {}", text));
}
