use rocoknight::config::CoreConfig;
use rocoknight::embed_win32::WindowCommand;
use rocoknight::login_flow::{
    abandon_login, begin_login, end_login, liveness_step, login_attached, login_tick,
    login_window_closed, match_main_swf, projector_attached, projector_started,
    resolve_projector_path as resolve_configured_path, set_game_rect, set_login_rect, stop_game,
    EmbedState, LoginPoll, LoginStatus, LOGIN_POLL_MS, LOGIN_TIMEOUT_MS,
};
use rocoknight::process::ProcessHandle;
use rocoknight::projector::{
    dev_candidate_components, launch_failed_message, projector_command_line, redact_url,
    resolve_projector_path, sanitize_url_for_log, PathProbe,
};
use rocoknight::state::{
    parse_theme_mode, set_theme_mode, status_payload, theme_class_script, AppState, AppStatus,
    RawWindowId, ThemeMode,
};
use rocoknight::window_embed::EmbedRect;
use std::path::PathBuf;

fn probe(path: &str, exists: bool) -> PathProbe {
    PathProbe { path: PathBuf::from(path), shown: path.to_string(), exists }
}

#[test]
fn bundled_projector_wins() {
    let r = resolve_projector_path(Some(probe("a", true)), None, vec![probe("c", true)]);
    assert_eq!(r, Ok(PathBuf::from("a")));
}

#[test]
fn resource_directory_is_the_second_place() {
    let r = resolve_projector_path(Some(probe("a", false)), Some(probe("b", true)), vec![probe("c", true)]);
    assert_eq!(r, Ok(PathBuf::from("b")));
}

#[test]
fn places_next_to_the_executable_come_last() {
    let r = resolve_projector_path(
        Some(probe("a", false)),
        Some(probe("b", false)),
        vec![probe("c", false), probe("d", true), probe("e", true)],
    );
    assert_eq!(r, Ok(PathBuf::from("d")));
}

#[test]
fn missing_projector_is_reported_with_the_places() {
    let r = resolve_projector_path(Some(probe("res/a", false)), Some(probe("dir/b", false)), vec![probe("c", false)]);
    assert_eq!(
        r,
        Err("Failed to locate projector.exe. Checked: res/a, dir/b, and dev resources.".to_string())
    );
    let r = resolve_projector_path(Some(probe("a", false)), Some(probe("b", false)), Vec::new());
    assert!(r.is_err());
}

#[test]
fn unknown_directories_are_reported() {
    assert_eq!(
        resolve_projector_path(None, Some(probe("b", true)), Vec::new()),
        Err("Failed to resolve resource directory.".to_string())
    );
    assert_eq!(
        resolve_projector_path(Some(probe("a", false)), None, vec![probe("c", true)]),
        Err("Failed to get resource directory.".to_string())
    );
}

#[test]
fn dev_places_lie_around_the_executable() {
    assert_eq!(dev_candidate_components(0), vec!["resources", "projector.exe"]);
    assert_eq!(dev_candidate_components(1), vec!["..", "resources", "projector.exe"]);
    assert_eq!(dev_candidate_components(2), vec!["..", "..", "resources", "projector.exe"]);
    assert_eq!(dev_candidate_components(3), vec!["..", "..", "debug", "resources", "projector.exe"]);
    assert_eq!(dev_candidate_components(4), vec!["..", "..", "release", "resources", "projector.exe"]);
}

#[test]
fn command_line_quotes_the_path() {
    assert_eq!(
        projector_command_line("C:\\Program Files\\projector.exe", "https://a/main.swf?x=1"),
        "\"C:\\Program Files\\projector.exe\" https://a/main.swf?x=1"
    );
    assert_eq!(launch_failed_message(), "Failed to launch projector.");
}

#[test]
fn logged_url_shows_sorted_key_names_only() {
    assert_eq!(
        sanitize_url_for_log("https://res.17roco.qq.com/main.swf?0.5=&skey=SECRET&config=x&skey=y"),
        "https://res.17roco.qq.com/main.swf ?keys=0.5,config,skey"
    );
    assert_eq!(
        sanitize_url_for_log("https://example.com:8443/a/b?z=1"),
        "https://example.com:8443/a/b ?keys=z"
    );
    assert_eq!(sanitize_url_for_log("https://example.com/a/b"), "https://example.com/a/b");
    assert_eq!(sanitize_url_for_log("https://example.com"), "https://example.com/");
    assert_eq!(sanitize_url_for_log("not a url"), "<invalid-url>");
    assert_eq!(sanitize_url_for_log(""), "<invalid-url>");
}

#[test]
fn redacted_url_is_origin_and_path() {
    assert_eq!(redact_url("https://user:pw@example.com/a/b?x=1#frag"), "https://example.com/a/b");
    assert_eq!(redact_url("nope"), "redacted");
}

#[test]
fn main_asset_is_recognised_by_name_and_host() {
    let url = "https://res.17roco.qq.com/main.swf?x=1";
    assert_eq!(match_main_swf(url, Some("res.17roco.qq.com")), Some(url.to_string()));
    assert_eq!(match_main_swf(url, None), Some(url.to_string()));
    assert_eq!(match_main_swf(url, Some("qq.com")), Some(url.to_string()));
    assert_eq!(match_main_swf(url, Some("qq.com.evil.example")), None);
    assert_eq!(match_main_swf(url, Some("q.com")), None);
    assert_eq!(match_main_swf("https://res.17roco.qq.com/login.html", Some("res.17roco.qq.com")), None);
}

#[test]
fn one_login_at_a_time() {
    let mut state = EmbedState::default();
    assert_eq!(begin_login(&mut state), Ok(()));
    assert!(state.login_in_progress);
    assert_eq!(begin_login(&mut state), Err("login already in progress".to_string()));
    assert!(state.login_in_progress);
    abandon_login(&mut state);
    assert_eq!(begin_login(&mut state), Ok(()));
    end_login(&mut state);
    assert!(!state.login_in_progress);
}

#[test]
fn login_window_gets_its_rect() {
    let mut state = EmbedState::default();
    let rect = EmbedRect { x: 0, y: 36, width: 900, height: 684 };
    assert!(set_login_rect(&mut state, rect).is_empty());
    assert_eq!(state.login_rect, Some(rect));
    let commands = login_attached(&mut state, 77, 0x14CF_0000);
    assert_eq!(
        commands,
        vec![
            WindowCommand::Move { window: RawWindowId(77), x: 0, y: 36, w: 900, h: 684 },
            WindowCommand::SetPos {
                window: RawWindowId(77),
                to_top: true,
                x: 0,
                y: 36,
                w: 900,
                h: 684,
                flags: 0x0004 | 0x0020,
            },
        ]
    );
    assert_eq!(state.login_hwnd, Some(77));
    assert_eq!(state.login_old_style, Some(0x14CF_0000));
    let moved = EmbedRect { x: 1, y: 2, width: 3, height: 4 };
    assert_eq!(set_login_rect(&mut state, moved).len(), 2);
    end_login(&mut state);
    assert_eq!(state.login_hwnd, None);
    assert_eq!(state.login_old_style, None);
    assert_eq!(state.login_rect, Some(moved));
}

#[test]
fn login_is_polled_until_matched_or_timed_out() {
    let url = "https://res.17roco.qq.com/main.swf?x=1";
    assert!(matches!(login_tick(0, None), LoginPoll::Wait));
    assert!(matches!(
        login_tick(200, Some(("https://17roco.qq.com/login.html", Some("17roco.qq.com")))),
        LoginPoll::Wait
    ));
    match login_tick(LOGIN_TIMEOUT_MS, Some((url, Some("res.17roco.qq.com")))) {
        LoginPoll::Matched(found) => assert_eq!(found, url),
        _ => panic!("the address names the main asset"),
    }
    assert!(matches!(
        login_tick(LOGIN_TIMEOUT_MS + 1, Some((url, Some("res.17roco.qq.com")))),
        LoginPoll::TimedOut
    ));
    assert_eq!(LOGIN_TIMEOUT_MS, 180_000);
    assert_eq!(LOGIN_POLL_MS, 200);
    assert!(login_window_closed(false));
    assert!(!login_window_closed(true));
}

#[test]
fn game_is_stopped_and_restored() {
    let mut state = EmbedState::default();
    let nothing = stop_game(&mut state);
    assert_eq!(nothing.handle, None);
    assert!(nothing.commands.is_empty());

    projector_started(&mut state, ProcessHandle { id: 3 });
    let rect = EmbedRect { x: 0, y: 0, width: 10, height: 10 };
    assert!(set_game_rect(&mut state, rect).is_empty());
    let placed = vec![
        WindowCommand::Move { window: RawWindowId(55), x: 0, y: 0, w: 10, h: 10 },
        WindowCommand::SetPos {
            window: RawWindowId(55),
            to_top: true,
            x: 0,
            y: 0,
            w: 10,
            h: 10,
            flags: 0x0004 | 0x0020,
        },
    ];
    assert_eq!(projector_attached(&mut state, 55, 0x1234), placed);
    assert_eq!(set_game_rect(&mut state, rect), placed);
    assert_eq!(liveness_step(&state, true), (true, None));
    assert_eq!(liveness_step(&state, false), (false, Some(LoginStatus::Login)));

    let stopped = stop_game(&mut state);
    assert_eq!(stopped.handle, Some(ProcessHandle { id: 3 }));
    assert_eq!(
        stopped.commands,
        vec![
            WindowCommand::SetParent { window: RawWindowId(55), parent: None },
            WindowCommand::SetStyle { window: RawWindowId(55), style: 0x1234 },
        ]
    );
    assert_eq!(state.projector_handle, None);
    assert_eq!(state.projector_hwnd, None);
    assert_eq!(state.projector_old_style, None);
    assert_eq!(liveness_step(&state, true), (false, None));
    assert_eq!(LoginStatus::Waiting.as_str(), "Waiting");
    assert_eq!(LoginStatus::Launching.as_str(), "Launching");
    assert_eq!(LoginStatus::Running.as_str(), "Running");
    assert_eq!(LoginStatus::Error.as_str(), "Error");
    assert_eq!(LoginStatus::Login.as_str(), "Login");
}

#[test]
fn configured_path_counts_before_the_resource() {
    let mut cfg = CoreConfig::default();
    assert_eq!(
        resolve_configured_path(&cfg, None),
        Err("无法定位资源目录".to_string())
    );
    assert_eq!(
        resolve_configured_path(&cfg, Some(probe("res/projector.exe", false))),
        Err("projector.exe 未找到，请在资源目录中提供".to_string())
    );
    assert_eq!(
        resolve_configured_path(&cfg, Some(probe("res/projector.exe", true))),
        Ok(PathBuf::from("res/projector.exe"))
    );
    cfg.launcher.projector_path = Some(PathBuf::from("custom.exe"));
    assert_eq!(resolve_configured_path(&cfg, None), Ok(PathBuf::from("custom.exe")));
}

#[test]
fn themes_are_named_dark_and_light() {
    assert_eq!(parse_theme_mode("dark"), Some(ThemeMode::Dark));
    assert_eq!(parse_theme_mode("  LIGHT\n"), Some(ThemeMode::Light));
    assert_eq!(parse_theme_mode("\u{3000}Dark\u{A0}"), Some(ThemeMode::Dark));
    assert_eq!(parse_theme_mode("darker"), None);
    assert_eq!(parse_theme_mode("da rk"), None);
    assert_eq!(parse_theme_mode(""), None);
    assert_eq!(parse_theme_mode("   "), None);
    assert_eq!(ThemeMode::Dark.as_str(), "dark");
    assert_eq!(ThemeMode::Light.as_str(), "light");
    assert_eq!(theme_class_script(ThemeMode::Dark), "document.body.classList.remove('light');");
    assert_eq!(theme_class_script(ThemeMode::Light), "document.body.classList.add('light');");
}

#[test]
fn theme_is_set_by_name() {
    let mut state = AppState::new();
    assert_eq!(state.theme_mode, ThemeMode::Dark);
    assert_eq!(set_theme_mode(&mut state, " Light "), Ok(ThemeMode::Light));
    assert_eq!(state.theme_mode, ThemeMode::Light);
    assert_eq!(
        set_theme_mode(&mut state, "blue"),
        Err("Invalid theme. Use 'dark' or 'light'.".to_string())
    );
    assert_eq!(state.theme_mode, ThemeMode::Light);
}

#[test]
fn fresh_state_is_idle() {
    let state = AppState::new();
    assert_eq!(state.status, AppStatus::Login);
    assert_eq!(state.message, None);
    assert_eq!(state.swf_url, None);
    assert_eq!(state.launched_url, None);
    assert_eq!(state.capture_stop, None);
    assert_eq!(state.projector, None);
    assert_eq!(state.last_projector_rect, None);
    assert_eq!(state.qq_num, None);
    let payload = status_payload(&state);
    assert_eq!(payload.status, AppStatus::Login);
    assert_eq!(payload.message, None);
}
