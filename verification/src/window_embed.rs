//! Embedding by rectangle, as the configuration-driven front end does it.

use crate::embed_win32::{
    embed_style, embedded_style, FindStep, FindStepView, WindowCommand, WindowInfo, FIND_POLL_MS,
    SWP_FRAMECHANGED, SWP_NOZORDER,
};
use crate::state::RawWindowId;
use vstd::prelude::*;
use vstd::string::*;

verus! {

/// A native window handle as a plain integer.
pub type RawHwnd = isize;

/// The place of an embedded window inside its host.
#[derive(Clone, Copy, Debug, PartialEq, Eq, Structural)]
pub struct EmbedRect {
    pub x: i32,
    pub y: i32,
    pub width: i32,
    pub height: i32,
}

/// Embeds `child` under `parent`: the style is replaced first, then the
/// parent. `style` is the style that the child has now; it is returned for
/// the restore.
pub fn attach_child(parent: RawHwnd, child: RawHwnd, style: isize) -> (r: (Vec<WindowCommand>, isize))
    ensures
        r.0@ == seq![
            WindowCommand::SetStyle { window: RawWindowId(child), style: embedded_style(style) },
            WindowCommand::SetParent {
                window: RawWindowId(child),
                parent: Some(RawWindowId(parent)),
            },
        ],
        r.1 == style,
{
    let mut commands: Vec<WindowCommand> = Vec::new();
    commands.push(WindowCommand::SetStyle { window: RawWindowId(child), style: embed_style(style) });
    commands.push(
        WindowCommand::SetParent { window: RawWindowId(child), parent: Some(RawWindowId(parent)) },
    );
    (commands, style)
}

/// Undoes an embedding: the child goes back to the desktop, then gets its
/// old style.
pub fn detach(child: RawHwnd, old_style: isize) -> (r: Vec<WindowCommand>)
    ensures
        r@ == seq![
            WindowCommand::SetParent { window: RawWindowId(child), parent: None },
            WindowCommand::SetStyle { window: RawWindowId(child), style: old_style },
        ],
{
    let mut commands: Vec<WindowCommand> = Vec::new();
    commands.push(WindowCommand::SetParent { window: RawWindowId(child), parent: None });
    commands.push(WindowCommand::SetStyle { window: RawWindowId(child), style: old_style });
    commands
}

/// The commands that give `child` the place `rect`: a move, then a
/// set-position with the same values that leaves the order alone and redraws
/// the frame.
pub open spec fn rect_commands(child: RawHwnd, rect: EmbedRect) -> Seq<WindowCommand> {
    seq![
        WindowCommand::Move {
            window: RawWindowId(child),
            x: rect.x,
            y: rect.y,
            w: rect.width,
            h: rect.height,
        },
        WindowCommand::SetPos {
            window: RawWindowId(child),
            to_top: true,
            x: rect.x,
            y: rect.y,
            w: rect.width,
            h: rect.height,
            flags: SWP_NOZORDER | SWP_FRAMECHANGED,
        },
    ]
}

/// The commands that place a window, where there is a window and a place
/// for it; none otherwise.
pub open spec fn placing(window: Option<RawHwnd>, rect: Option<EmbedRect>) -> Seq<WindowCommand> {
    match (window, rect) {
        (Some(hwnd), Some(place)) => rect_commands(hwnd, place),
        _ => Seq::empty(),
    }
}

/// Gives the child the place `rect`: a move, then a set-position with the
/// same values that leaves the order alone and redraws the frame.
pub fn set_child_rect(child: RawHwnd, rect: EmbedRect) -> (r: Vec<WindowCommand>)
    ensures
        r@ == rect_commands(child, rect),
{
    let mut commands: Vec<WindowCommand> = Vec::new();
    commands.push(
        WindowCommand::Move {
            window: RawWindowId(child),
            x: rect.x,
            y: rect.y,
            w: rect.width,
            h: rect.height,
        },
    );
    commands.push(
        WindowCommand::SetPos {
            window: RawWindowId(child),
            to_top: true,
            x: rect.x,
            y: rect.y,
            w: rect.width,
            h: rect.height,
            flags: SWP_NOZORDER | SWP_FRAMECHANGED,
        },
    );
    commands
}

/// The first window in enumeration order that belongs to `pid` and is
/// visible.
pub open spec fn spec_pick_visible(windows: Seq<WindowInfo>, pid: u32) -> Option<RawWindowId>
    decreases windows.len(),
{
    if windows.len() == 0 {
        None
    } else if windows[0].pid == pid && windows[0].visible {
        Some(windows[0].hwnd)
    } else {
        spec_pick_visible(windows.drop_first(), pid)
    }
}

/// Picks the first visible window of process `pid` from one enumeration.
pub fn pick_visible_window(windows: &[WindowInfo], pid: u32) -> (r: Option<RawWindowId>)
    ensures
        r == spec_pick_visible(windows@, pid),
{
    let mut i: usize = 0;
    assert(windows@.skip(0) =~= windows@);
    while i < windows.len()
        invariant
            i <= windows.len(),
            spec_pick_visible(windows@, pid) == spec_pick_visible(windows@.skip(i as int), pid),
        decreases windows.len() - i,
    {
        let info = windows[i];
        assert(windows@.skip(i as int)[0] == info);
        if info.pid == pid && info.visible {
            return Some(info.hwnd);
        }
        assert(windows@.skip(i as int).drop_first() =~= windows@.skip(i + 1));
        i += 1;
    }
    None
}

/// What the search does after one enumeration, `elapsed_ms` after it
/// began: once the time is up it fails, whatever the enumeration gave;
/// before that it takes the window if it is there and sleeps otherwise.
pub open spec fn spec_find_window(
    windows: Seq<WindowInfo>,
    pid: u32,
    elapsed_ms: u64,
    timeout_ms: u64,
) -> FindStepView {
    if elapsed_ms >= timeout_ms {
        FindStepView::TimedOut("projector window not found"@)
    } else {
        match spec_pick_visible(windows, pid) {
            Some(window) => FindStepView::Found(window),
            None => FindStepView::Sleep(FIND_POLL_MS),
        }
    }
}

/// One round of the search for the window of process `pid`. The caller
/// enumerates the windows, sleeps and counts the time.
pub fn find_window_by_pid(windows: &[WindowInfo], pid: u32, elapsed_ms: u64, timeout_ms: u64) -> (r:
    FindStep)
    ensures
        r@ == spec_find_window(windows@, pid, elapsed_ms, timeout_ms),
{
    if elapsed_ms >= timeout_ms {
        return FindStep::TimedOut("projector window not found".to_owned());
    }
    match pick_visible_window(windows, pid) {
        Some(window) => FindStep::Found(window),
        None => FindStep::Sleep(FIND_POLL_MS),
    }
}

} // verus!
