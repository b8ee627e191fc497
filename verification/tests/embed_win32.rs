use rocoknight::embed_win32::{
    attach_child, bring_to_top, detach_child, disable_maximize_resize, embed_style,
    find_window_by_pid, find_window_step, hide_window, move_child, parent_client_size,
    pick_window, FindStep, WindowCommand, WindowInfo, FIND_POLL_MS, SWP_FRAMECHANGED,
    SWP_NOMOVE, SWP_NOSIZE, SWP_NOZORDER, SWP_SHOWWINDOW, WS_CHILD, WS_MAXIMIZEBOX,
    WS_OVERLAPPEDWINDOW, WS_POPUP, WS_SIZEBOX, WS_VISIBLE,
};
use rocoknight::state::RawWindowId;
use rocoknight::window_embed::{
    attach_child as attach_by_rect, detach, find_window_by_pid as find_visible_window,
    pick_visible_window, set_child_rect, EmbedRect,
};

fn info(hwnd: isize, pid: u32, has_owner: bool, visible: bool) -> WindowInfo {
    WindowInfo { hwnd: RawWindowId(hwnd), pid, has_owner, visible }
}

#[test]
fn embedded_style_swaps_top_level_bits_for_child_bits() {
    assert_eq!(embed_style(0x14CF_0000), 0x5400_0000);
    assert_eq!(embed_style(0), 0x5000_0000);
    assert_eq!(embed_style(0x0000_1234), 0x5000_1234);
    assert_eq!(embed_style(0x5000_0000), 0x5000_0000);
    let popup = WS_POPUP as isize | 0x0000_0001;
    assert_eq!(embed_style(popup), 0x5000_0001);
    let all = WS_OVERLAPPEDWINDOW as isize | WS_POPUP as isize;
    assert_eq!(embed_style(all) & all, 0);
    assert_eq!(embed_style(all), (WS_CHILD | WS_VISIBLE) as isize);
}

#[test]
fn attach_hands_back_the_style_it_was_given() {
    let child = RawWindowId(10);
    let parent = RawWindowId(20);
    let (commands, original) = attach_child(child, parent, 0x14CF_0000);
    assert_eq!(original, 0x14CF_0000);
    assert_eq!(
        commands,
        vec![
            WindowCommand::SetParent { window: child, parent: Some(parent) },
            WindowCommand::SetStyle { window: child, style: 0x5400_0000 },
            WindowCommand::SetPos {
                window: child,
                to_top: false,
                x: 0,
                y: 0,
                w: 1,
                h: 1,
                flags: SWP_FRAMECHANGED | SWP_NOZORDER | SWP_SHOWWINDOW,
            },
        ]
    );
}

#[test]
fn detach_restores_the_style_that_attach_captured() {
    let child = RawWindowId(10);
    for style in [0isize, 0x14CF_0000, 0x1234_5678, -1, isize::MAX, isize::MIN] {
        let (_, original) = attach_child(child, RawWindowId(20), style);
        let commands = detach_child(child, original);
        assert_eq!(commands[0], WindowCommand::SetParent { window: child, parent: None });
        assert_eq!(commands[1], WindowCommand::SetStyle { window: child, style });
        assert_eq!(commands.len(), 3);
    }
}

#[test]
fn single_commands_name_their_window() {
    let child = RawWindowId(7);
    assert_eq!(
        move_child(child, 1, 2, 3, 4),
        WindowCommand::Move { window: child, x: 1, y: 2, w: 3, h: 4 }
    );
    assert_eq!(hide_window(child), WindowCommand::Hide { window: child });
    assert_eq!(
        bring_to_top(child),
        WindowCommand::SetPos {
            window: child,
            to_top: true,
            x: 0,
            y: 0,
            w: 0,
            h: 0,
            flags: SWP_FRAMECHANGED | SWP_SHOWWINDOW | SWP_NOMOVE | SWP_NOSIZE,
        }
    );
}

#[test]
fn host_window_loses_maximise_and_resize() {
    let host = RawWindowId(9);
    let commands = disable_maximize_resize(host, 0x14CF_0000);
    assert_eq!(
        commands,
        vec![
            WindowCommand::SetStyle { window: host, style: 0x14CA_0000 },
            WindowCommand::SetPos {
                window: host,
                to_top: true,
                x: 0,
                y: 0,
                w: 0,
                h: 0,
                flags: SWP_FRAMECHANGED | SWP_NOMOVE | SWP_NOSIZE | SWP_NOZORDER,
            },
        ]
    );
    assert_eq!(WS_MAXIMIZEBOX | WS_SIZEBOX, 0x0005_0000);
}

#[test]
fn client_size_needs_width_and_height() {
    assert_eq!(parent_client_size(0, 0, 1024, 768), Some((1024, 768)));
    assert_eq!(parent_client_size(10, 20, 110, 220), Some((100, 200)));
    assert_eq!(parent_client_size(0, 0, 0, 768), None);
    assert_eq!(parent_client_size(0, 0, 1024, 0), None);
    assert_eq!(parent_client_size(5, 5, 1, 1), None);
}

#[test]
fn main_window_is_visible_and_ownerless() {
    let windows = [
        info(1, 5, false, true),
        info(2, 7, true, true),
        info(3, 7, false, false),
        info(4, 7, false, true),
        info(5, 7, false, true),
    ];
    assert_eq!(pick_window(&windows, 7), Some(RawWindowId(4)));
    assert_eq!(pick_window(&windows, 5), Some(RawWindowId(1)));
    assert_eq!(pick_window(&windows, 8), None);
    assert_eq!(pick_window(&windows[1..3], 7), None);
    assert_eq!(pick_window(&[], 7), None);
}

#[test]
fn search_sleeps_until_found_or_timed_out() {
    assert!(matches!(find_window_step(Some(RawWindowId(4)), 0, 6000), FindStep::Found(RawWindowId(4))));
    assert!(matches!(find_window_step(Some(RawWindowId(4)), 9999, 6000), FindStep::Found(_)));
    assert!(matches!(find_window_step(None, 0, 6000), FindStep::Sleep(FIND_POLL_MS)));
    assert!(matches!(find_window_step(None, 6000, 6000), FindStep::Sleep(100)));
    match find_window_step(None, 6001, 6000) {
        FindStep::TimedOut(message) => assert_eq!(message, "未能在超时内找到 projector 窗口。"),
        _ => panic!("the time is up"),
    }
}

#[test]
fn search_looks_through_one_enumeration() {
    let windows = [info(3, 7, false, false), info(4, 7, false, true)];
    assert!(matches!(find_window_by_pid(&windows, 7, 50, 6000), FindStep::Found(RawWindowId(4))));
    assert!(matches!(find_window_by_pid(&windows[..1], 7, 50, 6000), FindStep::Sleep(100)));
    assert!(matches!(find_window_by_pid(&windows[..1], 7, 7000, 6000), FindStep::TimedOut(_)));
}

#[test]
fn rect_embedding_writes_style_before_parent() {
    let (commands, old_style) = attach_by_rect(20, 10, 0x14CF_0000);
    assert_eq!(old_style, 0x14CF_0000);
    assert_eq!(
        commands,
        vec![
            WindowCommand::SetStyle { window: RawWindowId(10), style: 0x5400_0000 },
            WindowCommand::SetParent { window: RawWindowId(10), parent: Some(RawWindowId(20)) },
        ]
    );
    assert_eq!(
        detach(10, old_style),
        vec![
            WindowCommand::SetParent { window: RawWindowId(10), parent: None },
            WindowCommand::SetStyle { window: RawWindowId(10), style: 0x14CF_0000 },
        ]
    );
}

#[test]
fn rect_is_applied_twice() {
    let rect = EmbedRect { x: 1, y: 2, width: 3, height: 4 };
    assert_eq!(
        set_child_rect(10, rect),
        vec![
            WindowCommand::Move { window: RawWindowId(10), x: 1, y: 2, w: 3, h: 4 },
            WindowCommand::SetPos {
                window: RawWindowId(10),
                to_top: true,
                x: 1,
                y: 2,
                w: 3,
                h: 4,
                flags: SWP_NOZORDER | SWP_FRAMECHANGED,
            },
        ]
    );
}

#[test]
fn visible_window_search_gives_up_when_the_time_is_up() {
    let windows = [info(1, 5, false, true), info(3, 7, true, false), info(4, 7, true, true)];
    assert_eq!(pick_visible_window(&windows, 7), Some(RawWindowId(4)));
    assert_eq!(pick_visible_window(&windows, 5), Some(RawWindowId(1)));
    assert_eq!(pick_visible_window(&windows[..2], 7), None);
    assert!(matches!(find_visible_window(&windows, 7, 0, 10_000), FindStep::Found(RawWindowId(4))));
    assert!(matches!(find_visible_window(&windows[..2], 7, 9_999, 10_000), FindStep::Sleep(100)));
    match find_visible_window(&windows, 7, 10_000, 10_000) {
        FindStep::TimedOut(message) => assert_eq!(message, "projector window not found"),
        _ => panic!("the time is up"),
    }
}
