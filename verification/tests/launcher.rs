use rocoknight::embed_win32::{
    WindowCommand, SWP_FRAMECHANGED, SWP_NOMOVE, SWP_NOSIZE, SWP_NOZORDER, SWP_SHOWWINDOW,
};
use rocoknight::launcher::{
    change_channel, extract_qq_from_url, fit_delays_ms, host_size, launch_projector_auto,
    launch_step, login_layout_delays_ms, login_rect, projector_rect, qq_from_pairs,
    reset_to_login, resize_projector_to_window, stop_projector, stop_schedule_threads,
    toolbar_rect, ChannelPlan, LaunchAction, LaunchEvent, ScheduleControl, ScheduleStep,
    FIND_WINDOW_TIMEOUT_MS, UI_BAR_HEIGHT,
};
use rocoknight::login3_capture::{start, watcher_poll, WatcherStep};
use rocoknight::state::{
    AppState, AppStatus, ProjectorHandle, ProjectorProcess, RawWindowId,
};
use std::path::PathBuf;

fn embedded() -> ProjectorHandle {
    ProjectorHandle {
        process: ProjectorProcess { handle: 11, pid: 22 },
        hwnd: RawWindowId(33),
        original_style: 0x14CF_0000,
    }
}

fn to_top(child: RawWindowId) -> WindowCommand {
    WindowCommand::SetPos {
        window: child,
        to_top: true,
        x: 0,
        y: 0,
        w: 0,
        h: 0,
        flags: SWP_FRAMECHANGED | SWP_SHOWWINDOW | SWP_NOMOVE | SWP_NOSIZE,
    }
}

#[test]
fn rect_is_below_the_toolbar() {
    assert_eq!(projector_rect(1024, 768, 36), (0, 36, 1024, 732));
    assert_eq!(projector_rect(1024, 768, 54), (0, 54, 1024, 714));
}

#[test]
fn rect_is_never_lower_than_one_pixel() {
    assert_eq!(projector_rect(800, 36, 36), (0, 36, 800, 1));
    assert_eq!(projector_rect(800, 10, 36), (0, 36, 800, 1));
    assert_eq!(projector_rect(800, 38, 36), (0, 36, 800, 2));
    assert_eq!(projector_rect(5, i32::MIN, i32::MAX), (0, i32::MAX, 5, 1));
}

#[test]
fn login_surface_and_toolbar_share_the_window() {
    assert_eq!(UI_BAR_HEIGHT, 36);
    assert_eq!(login_rect(900, 720), (0, 36, 900, 684));
    assert_eq!(toolbar_rect(900), (0, 0, 900, 36));
}

#[test]
fn client_size_counts_before_window_size() {
    assert_eq!(host_size(Some((10, 20)), Some((30, 40))), Some((10, 20)));
    assert_eq!(host_size(None, Some((30, 40))), Some((30, 40)));
    assert_eq!(host_size(None, None), None);
    assert_eq!(host_size(None, Some((u32::MAX, 1))), Some((-1, 1)));
}

#[test]
fn resize_moves_once_for_an_unchanged_host() {
    let mut state = AppState::new();
    state.projector = Some(embedded());
    state.status = AppStatus::Running;
    let first = resize_projector_to_window(&mut state, Some((1024, 768)), None, 36);
    assert_eq!(
        first,
        vec![
            WindowCommand::Move { window: RawWindowId(33), x: 0, y: 36, w: 1024, h: 732 },
            to_top(RawWindowId(33)),
        ]
    );
    assert_eq!(state.last_projector_rect, Some((0, 36, 1024, 732)));
    let second = resize_projector_to_window(&mut state, Some((1024, 768)), None, 36);
    assert!(second.is_empty());
    assert_eq!(state.last_projector_rect, Some((0, 36, 1024, 732)));
    let third = resize_projector_to_window(&mut state, Some((1280, 768)), None, 36);
    assert_eq!(third.len(), 2);
    assert_eq!(state.last_projector_rect, Some((0, 36, 1280, 732)));
}

#[test]
fn resize_without_projector_or_size_does_nothing() {
    let mut state = AppState::new();
    assert!(resize_projector_to_window(&mut state, Some((1024, 768)), None, 36).is_empty());
    assert_eq!(state.last_projector_rect, None);
    state.projector = Some(embedded());
    assert!(resize_projector_to_window(&mut state, None, None, 36).is_empty());
    assert_eq!(state.last_projector_rect, None);
    let fallback = resize_projector_to_window(&mut state, None, Some((640, 480)), 36);
    assert_eq!(
        fallback[0],
        WindowCommand::Move { window: RawWindowId(33), x: 0, y: 36, w: 640, h: 444 }
    );
}

#[test]
fn stop_without_projector_is_a_no_op() {
    let mut state = AppState::new();
    state.status = AppStatus::Error;
    state.message = Some("broken".to_string());
    assert!(stop_projector(&mut state).is_none());
    assert_eq!(state.status, AppStatus::Error);
    assert_eq!(state.message, Some("broken".to_string()));
}

#[test]
fn stop_lets_go_of_the_projector() {
    let mut state = AppState::new();
    state.projector = Some(embedded());
    state.status = AppStatus::Running;
    state.last_projector_rect = Some((0, 36, 10, 10));
    state.qq_num = Some(5);
    state.swf_url = Some("u".to_string());
    let teardown = stop_projector(&mut state).expect("a projector was embedded");
    assert_eq!(teardown.process, ProjectorProcess { handle: 11, pid: 22 });
    assert_eq!(
        teardown.commands,
        vec![
            WindowCommand::SetParent { window: RawWindowId(33), parent: None },
            WindowCommand::SetStyle { window: RawWindowId(33), style: 0x14CF_0000 },
            WindowCommand::SetPos {
                window: RawWindowId(33),
                to_top: false,
                x: 0,
                y: 0,
                w: 1,
                h: 1,
                flags: SWP_FRAMECHANGED | SWP_NOZORDER | SWP_SHOWWINDOW,
            },
        ]
    );
    assert_eq!(state.projector, None);
    assert_eq!(state.status, AppStatus::Login);
    assert_eq!(state.last_projector_rect, None);
    assert_eq!(state.qq_num, None);
    assert_eq!(state.swf_url, Some("u".to_string()));
}

#[test]
fn launch_without_url_fails_and_is_recorded() {
    let mut state = AppState::new();
    match launch_projector_auto(&mut state) {
        LaunchAction::Fail { message, announce } => {
            assert_eq!(message, "Missing main.swf URL.");
            let payload = announce.expect("the failure is recorded");
            assert_eq!(payload.status, AppStatus::Error);
            assert_eq!(payload.message, Some("Missing main.swf URL.".to_string()));
        }
        _ => panic!("there is no URL"),
    }
    assert_eq!(state.status, AppStatus::Error);
}

#[test]
fn launch_runs_through_every_stage() {
    let mut state = AppState::new();
    state.status = AppStatus::Launching;
    state.swf_url = Some("https://res.17roco.qq.com/main.swf?0.5=&config=a&uin=4242".to_string());

    let action = launch_projector_auto(&mut state);
    assert!(matches!(action, LaunchAction::ResolvePath { .. }));

    let action = launch_step(
        &mut state,
        action,
        LaunchEvent::PathResolved(Ok(PathBuf::from("C:/app/projector.exe"))),
    );
    match &action {
        LaunchAction::Spawn { path, url } => {
            assert_eq!(path, &PathBuf::from("C:/app/projector.exe"));
            assert_eq!(url, "https://res.17roco.qq.com/main.swf?0.5=&config=a&uin=4242");
        }
        _ => panic!("the path was resolved"),
    }

    let process = ProjectorProcess { handle: 700, pid: 1234 };
    let action = launch_step(&mut state, action, LaunchEvent::Spawned(Ok(process)));
    match &action {
        LaunchAction::FindWindow { process: p, timeout_ms, .. } => {
            assert_eq!(*p, process);
            assert_eq!(*timeout_ms, FIND_WINDOW_TIMEOUT_MS);
            assert_eq!(*timeout_ms, 6000);
        }
        _ => panic!("the process was started"),
    }

    let child = RawWindowId(0x50);
    let action = launch_step(&mut state, action, LaunchEvent::WindowFound(Ok(child)));
    match &action {
        LaunchAction::Prepare { commands, child: c, .. } => {
            assert_eq!(*c, child);
            assert_eq!(commands, &vec![WindowCommand::Hide { window: child }]);
        }
        _ => panic!("the window was found"),
    }

    let host = RawWindowId(0x60);
    let action = launch_step(&mut state, action, LaunchEvent::Prepared(Ok((host, 0x14CF_0000))));
    match &action {
        LaunchAction::Attach { commands, original_style, .. } => {
            assert_eq!(*original_style, 0x14CF_0000);
            assert_eq!(
                commands,
                &vec![
                    WindowCommand::SetParent { window: child, parent: Some(host) },
                    WindowCommand::SetStyle { window: child, style: 0x5400_0000 },
                    WindowCommand::SetPos {
                        window: child,
                        to_top: false,
                        x: 0,
                        y: 0,
                        w: 1,
                        h: 1,
                        flags: SWP_FRAMECHANGED | SWP_NOZORDER | SWP_SHOWWINDOW,
                    },
                ]
            );
        }
        _ => panic!("the host is ready"),
    }
    assert_eq!(state.status, AppStatus::Launching);
    assert_eq!(state.projector, None);

    let action = launch_step(
        &mut state,
        action,
        LaunchEvent::Measured { client: Some((1024, 768)), inner: Ok((1, 1)), bar_height: 36 },
    );
    match action {
        LaunchAction::Finish { commands, pid, qq_num, payload } => {
            assert_eq!(
                commands,
                vec![
                    WindowCommand::Move { window: child, x: 0, y: 36, w: 1024, h: 732 },
                    to_top(child),
                ]
            );
            assert_eq!(pid, 1234);
            assert_eq!(qq_num, 4242);
            assert_eq!(payload.status, AppStatus::Running);
            assert_eq!(payload.message, None);
        }
        _ => panic!("the launch ends well"),
    }
    assert_eq!(state.status, AppStatus::Running);
    assert_eq!(
        state.projector,
        Some(ProjectorHandle { process, hwnd: child, original_style: 0x14CF_0000 })
    );
    assert_eq!(state.qq_num, Some(4242));
    assert_eq!(state.last_projector_rect, None);
    assert_eq!(state.swf_url, None);
    assert_eq!(
        state.launched_url,
        Some("https://res.17roco.qq.com/main.swf?0.5=&config=a&uin=4242".to_string())
    );
    assert_eq!(change_channel(&state), ChannelPlan::Relaunch);
}

#[test]
fn relaunch_uses_the_launched_url() {
    let mut state = AppState::new();
    state.projector = Some(embedded());
    state.status = AppStatus::Running;
    state.launched_url = Some("https://res.17roco.qq.com/main.swf?x=1".to_string());
    assert!(stop_projector(&mut state).is_some());
    assert_eq!(state.launched_url, Some("https://res.17roco.qq.com/main.swf?x=1".to_string()));
    match launch_projector_auto(&mut state) {
        LaunchAction::ResolvePath { url } => {
            assert_eq!(url, "https://res.17roco.qq.com/main.swf?x=1");
        }
        _ => panic!("the launched url is held"),
    }
    state.swf_url = Some("https://res.17roco.qq.com/main.swf?x=2".to_string());
    match launch_projector_auto(&mut state) {
        LaunchAction::ResolvePath { url } => {
            assert_eq!(url, "https://res.17roco.qq.com/main.swf?x=2");
        }
        _ => panic!("the captured url counts first"),
    }
}

#[test]
fn launch_lets_go_of_the_old_projector_first() {
    let mut state = AppState::new();
    state.projector = Some(embedded());
    state.status = AppStatus::Running;
    state.swf_url = Some("https://res.17roco.qq.com/main.swf?x=1".to_string());
    let action = launch_projector_auto(&mut state);
    match &action {
        LaunchAction::Teardown { teardown, held_url } => {
            assert_eq!(teardown.process.pid, 22);
            assert_eq!(teardown.commands.len(), 3);
            assert_eq!(held_url, &Some("https://res.17roco.qq.com/main.swf?x=1".to_string()));
        }
        _ => panic!("a projector is embedded"),
    }
    assert_eq!(state.projector, None);
    assert_eq!(state.status, AppStatus::Login);
    let action = launch_step(&mut state, action, LaunchEvent::TornDown);
    assert!(matches!(action, LaunchAction::ResolvePath { .. }));
}

#[test]
fn each_stage_can_fail() {
    let fresh = || {
        let mut state = AppState::new();
        state.swf_url = Some("https://res.17roco.qq.com/main.swf?x=1".to_string());
        state
    };
    let path = || LaunchEvent::PathResolved(Ok(PathBuf::from("p")));
    let spawned = || LaunchEvent::Spawned(Ok(ProjectorProcess { handle: 1, pid: 2 }));
    let found = || LaunchEvent::WindowFound(Ok(RawWindowId(3)));
    let expect_recorded = |state: &AppState, action: LaunchAction, text: &str| {
        match action {
            LaunchAction::Fail { message, announce } => {
                assert_eq!(message, text);
                assert_eq!(announce.expect("recorded").message, Some(text.to_string()));
            }
            _ => panic!("the stage failed"),
        }
        assert_eq!(state.status, AppStatus::Error);
        assert_eq!(state.message, Some(text.to_string()));
        assert_eq!(state.projector, None);
    };

    let mut state = fresh();
    let a = launch_projector_auto(&mut state);
    let a = launch_step(&mut state, a, LaunchEvent::PathResolved(Err("no path".to_string())));
    expect_recorded(&state, a, "no path");

    let mut state = fresh();
    let a = launch_projector_auto(&mut state);
    let a = launch_step(&mut state, a, path());
    let a = launch_step(&mut state, a, LaunchEvent::Spawned(Err("Failed to launch projector.".to_string())));
    expect_recorded(&state, a, "Failed to launch projector.");

    let mut state = fresh();
    let a = launch_projector_auto(&mut state);
    let a = launch_step(&mut state, a, path());
    let a = launch_step(&mut state, a, spawned());
    let a = launch_step(&mut state, a, LaunchEvent::WindowFound(Err("no window".to_string())));
    expect_recorded(&state, a, "no window");

    let mut state = fresh();
    let a = launch_projector_auto(&mut state);
    let a = launch_step(&mut state, a, path());
    let a = launch_step(&mut state, a, spawned());
    let a = launch_step(&mut state, a, found());
    let a = launch_step(&mut state, a, LaunchEvent::Prepared(Err("Main window not found.".to_string())));
    expect_recorded(&state, a, "Main window not found.");
}

#[test]
fn unknown_host_size_fails_and_is_recorded() {
    let mut state = AppState::new();
    state.status = AppStatus::Launching;
    state.swf_url = Some("https://res.17roco.qq.com/main.swf?x=1".to_string());
    let a = launch_projector_auto(&mut state);
    let a = launch_step(&mut state, a, LaunchEvent::PathResolved(Ok(PathBuf::from("p"))));
    let a = launch_step(&mut state, a, LaunchEvent::Spawned(Ok(ProjectorProcess { handle: 1, pid: 2 })));
    let a = launch_step(&mut state, a, LaunchEvent::WindowFound(Ok(RawWindowId(3))));
    let a = launch_step(&mut state, a, LaunchEvent::Prepared(Ok((RawWindowId(4), 0))));
    let a = launch_step(
        &mut state,
        a,
        LaunchEvent::Measured {
            client: None,
            inner: Err("Failed to get window size.".to_string()),
            bar_height: 36,
        },
    );
    match a {
        LaunchAction::Fail { message, announce } => {
            assert_eq!(message, "Failed to get window size.");
            let payload = announce.expect("the failure is recorded");
            assert_eq!(payload.status, AppStatus::Error);
            assert_eq!(payload.message, Some("Failed to get window size.".to_string()));
        }
        _ => panic!("the host has no size"),
    }
    assert_eq!(state.status, AppStatus::Error);
    assert_eq!(state.message, Some("Failed to get window size.".to_string()));
    assert_eq!(state.projector, None);
    assert!(state.swf_url.is_some());
}

#[test]
fn failed_attach_is_recorded() {
    let mut state = AppState::new();
    state.swf_url = Some("https://res.17roco.qq.com/main.swf?x=1".to_string());
    let a = launch_projector_auto(&mut state);
    let a = launch_step(&mut state, a, LaunchEvent::PathResolved(Ok(PathBuf::from("p"))));
    let a = launch_step(&mut state, a, LaunchEvent::Spawned(Ok(ProjectorProcess { handle: 1, pid: 2 })));
    let a = launch_step(&mut state, a, LaunchEvent::WindowFound(Ok(RawWindowId(3))));
    let a = launch_step(&mut state, a, LaunchEvent::Prepared(Ok((RawWindowId(4), 0))));
    let a = launch_step(&mut state, a, LaunchEvent::AttachFailed("attach failed".to_string()));
    match a {
        LaunchAction::Fail { message, announce } => {
            assert_eq!(message, "attach failed");
            assert_eq!(announce.expect("recorded").status, AppStatus::Error);
        }
        _ => panic!("the attach failed"),
    }
    assert_eq!(state.status, AppStatus::Error);
    assert_eq!(state.projector, None);
}

#[test]
fn window_size_stands_in_for_client_size() {
    let mut state = AppState::new();
    state.swf_url = Some("not a url".to_string());
    let a = launch_projector_auto(&mut state);
    let a = launch_step(&mut state, a, LaunchEvent::PathResolved(Ok(PathBuf::from("p"))));
    let a = launch_step(&mut state, a, LaunchEvent::Spawned(Ok(ProjectorProcess { handle: 1, pid: 2 })));
    let a = launch_step(&mut state, a, LaunchEvent::WindowFound(Ok(RawWindowId(3))));
    let a = launch_step(&mut state, a, LaunchEvent::Prepared(Ok((RawWindowId(4), 0))));
    let a = launch_step(
        &mut state,
        a,
        LaunchEvent::Measured { client: None, inner: Ok((800, 600)), bar_height: 36 },
    );
    match a {
        LaunchAction::Finish { commands, qq_num, .. } => {
            assert_eq!(
                commands[0],
                WindowCommand::Move { window: RawWindowId(3), x: 0, y: 36, w: 800, h: 564 }
            );
            assert_eq!(qq_num, 0);
        }
        _ => panic!("the launch ends well"),
    }
    assert_eq!(state.qq_num, Some(0));
}

#[test]
fn event_out_of_order_ends_the_launch() {
    let mut state = AppState::new();
    state.swf_url = Some("https://res.17roco.qq.com/main.swf?x=1".to_string());
    state.status = AppStatus::Launching;
    let a = launch_projector_auto(&mut state);
    let a = launch_step(&mut state, a, LaunchEvent::TornDown);
    match a {
        LaunchAction::Fail { message, announce } => {
            assert_eq!(message, "Launch step out of order.");
            assert!(announce.is_none());
        }
        _ => panic!("the event does not answer the action"),
    }
    assert_eq!(state.status, AppStatus::Launching);
    let a = launch_step(
        &mut state,
        LaunchAction::Fail { message: "x".to_string(), announce: None },
        LaunchEvent::TornDown,
    );
    assert!(matches!(a, LaunchAction::Fail { .. }));
}

#[test]
fn reset_returns_to_login_from_any_state() {
    let mut state = AppState::new();
    let (session, _) = start(&mut state);
    state.status = AppStatus::Error;
    state.message = Some("broken".to_string());
    state.swf_url = Some("u".to_string());
    state.launched_url = Some("w".to_string());
    state.projector = Some(embedded());
    state.last_projector_rect = Some((0, 36, 1, 1));
    let (teardown, payload) = reset_to_login(&mut state);
    assert_eq!(teardown.expect("a projector was embedded").process.pid, 22);
    assert_eq!(payload.status, AppStatus::Login);
    assert_eq!(payload.message, None);
    assert_eq!(state.status, AppStatus::Login);
    assert_eq!(state.swf_url, None);
    assert_eq!(state.launched_url, None);
    assert_eq!(state.projector, None);
    assert_eq!(state.last_projector_rect, None);
    assert_eq!(watcher_poll(&state, session, 0), WatcherStep::Exit);

    let mut idle = AppState::new();
    idle.status = AppStatus::Error;
    let (teardown, payload) = reset_to_login(&mut idle);
    assert!(teardown.is_none());
    assert_eq!(payload.status, AppStatus::Login);
}

#[test]
fn channel_change_depends_on_what_runs() {
    let mut state = AppState::new();
    assert_eq!(change_channel(&state), ChannelPlan::Relogin);
    state.projector = Some(embedded());
    assert_eq!(change_channel(&state), ChannelPlan::MissingUrl);
    state.launched_url = Some("u".to_string());
    assert_eq!(change_channel(&state), ChannelPlan::Relaunch);
    state.launched_url = None;
    state.swf_url = Some("v".to_string());
    assert_eq!(change_channel(&state), ChannelPlan::Relaunch);
}

#[test]
fn account_number_is_read_from_the_query() {
    assert_eq!(extract_qq_from_url("https://a.example/main.swf?x=1&qq=12345&uin=9"), Some(12345));
    assert_eq!(extract_qq_from_url("https://a.example/main.swf?uin=%2B77"), Some(77));
    assert_eq!(extract_qq_from_url("https://a.example/main.swf?uin=7&qq=8"), Some(7));
    assert_eq!(extract_qq_from_url("https://a.example/main.swf?qq=abc&uin=9"), None);
    assert_eq!(extract_qq_from_url("https://a.example/main.swf?angel_uin=9"), None);
    assert_eq!(extract_qq_from_url("https://a.example/main.swf"), None);
    assert_eq!(extract_qq_from_url("no url at all"), None);
    assert_eq!(
        extract_qq_from_url("https://a.example/?qq=18446744073709551615"),
        Some(u64::MAX)
    );
    assert_eq!(extract_qq_from_url("https://a.example/?qq=18446744073709551616"), None);
}

#[test]
fn account_number_is_the_first_named_pair() {
    let pairs = vec![
        ("a".to_string(), "1".to_string()),
        ("uin".to_string(), "0042".to_string()),
        ("qq".to_string(), "7".to_string()),
    ];
    assert_eq!(qq_from_pairs(&pairs), Some(42));
    assert_eq!(qq_from_pairs(&[]), None);
    assert_eq!(qq_from_pairs(&[("qq".to_string(), "".to_string())]), None);
    assert_eq!(qq_from_pairs(&[("qq".to_string(), "+".to_string())]), None);
    assert_eq!(qq_from_pairs(&[("qq".to_string(), "-1".to_string())]), None);
    assert_eq!(qq_from_pairs(&[("QQ".to_string(), "1".to_string())]), None);
}

#[test]
fn schedules_follow_their_delays() {
    assert_eq!(fit_delays_ms(), [50, 150, 300, 600, 1200, 2000]);
    assert_eq!(login_layout_delays_ms(), [50, 150, 300, 600]);
    let mut control = ScheduleControl::new();
    let delays = fit_delays_ms();
    assert_eq!(control.schedule_next(&delays, 0), ScheduleStep::Sleep(50));
    assert_eq!(control.schedule_next(&delays, 5), ScheduleStep::Sleep(2000));
    assert_eq!(control.schedule_next(&delays, 6), ScheduleStep::Stop);
    assert!(control.schedule_due());
    stop_schedule_threads(&mut control);
    assert_eq!(control.schedule_next(&delays, 0), ScheduleStep::Stop);
    assert!(!control.schedule_due());
}
