//! The native window bridge, as far as it decides anything.
//!
//! Nothing here touches a window. The functions compute the commands that
//! the host's main thread then performs, in order, and a small model says
//! what those commands do to a window's style, parent and place.

use crate::state::{RawWindowId, RectTuple};
use vstd::prelude::*;

verus! {

/// Window style bits of the windowing system.
pub const WS_OVERLAPPEDWINDOW: u32 = 0x00CF_0000;

pub const WS_POPUP: u32 = 0x8000_0000;

pub const WS_CHILD: u32 = 0x4000_0000;

pub const WS_VISIBLE: u32 = 0x1000_0000;

pub const WS_MAXIMIZEBOX: u32 = 0x0001_0000;

pub const WS_SIZEBOX: u32 = 0x0004_0000;

/// Flags of a set-position command.
pub const SWP_NOSIZE: u32 = 0x0001;

pub const SWP_NOMOVE: u32 = 0x0002;

pub const SWP_NOZORDER: u32 = 0x0004;

pub const SWP_FRAMECHANGED: u32 = 0x0020;

pub const SWP_SHOWWINDOW: u32 = 0x0040;

/// How often the window of a fresh process is looked for, in milliseconds.
pub const FIND_POLL_MS: u64 = 100;

/// The style bits that only a top-level window has.
pub open spec fn top_level_bits() -> isize {
    (WS_OVERLAPPEDWINDOW | WS_POPUP) as isize
}

/// The style bits that make a window an embedded, shown child.
pub open spec fn child_bits() -> isize {
    (WS_CHILD | WS_VISIBLE) as isize
}

/// The style of a window once embedded: its top-level bits cleared, the
/// child and visible bits set, every other bit as it was.
pub open spec fn embedded_style(style: isize) -> isize {
    (style & !top_level_bits()) | child_bits()
}

/// The bits that let the user maximise or resize a window.
pub open spec fn resize_bits() -> isize {
    (WS_MAXIMIZEBOX | WS_SIZEBOX) as isize
}

/// The style of a window that can be neither maximised nor resized.
pub open spec fn fixed_size_style(style: isize) -> isize {
    style & !(WS_MAXIMIZEBOX as isize) & !(WS_SIZEBOX as isize)
}

/// One native call on a window.
#[derive(Clone, Copy, Debug, PartialEq, Eq, Structural)]
pub enum WindowCommand {
    /// Make `parent` the window's parent; `None` is the desktop.
    SetParent { window: RawWindowId, parent: Option<RawWindowId> },
    /// Replace the window's style bits.
    SetStyle { window: RawWindowId, style: isize },
    /// Set position, size and order in one call. `to_top` asks for the top
    /// of the z-order; `flags` say which of the values count.
    SetPos { window: RawWindowId, to_top: bool, x: i32, y: i32, w: i32, h: i32, flags: u32 },
    /// Move and resize, repainting.
    Move { window: RawWindowId, x: i32, y: i32, w: i32, h: i32 },
    /// Hide the window.
    Hide { window: RawWindowId },
}

/// What the bridge has made of a window: the style bits and the parent it
/// wrote last, the place it gave it last, and whether it hid it.
pub struct WindowModel {
    pub style: isize,
    pub parent: Option<RawWindowId>,
    pub rect: Option<RectTuple>,
    pub hidden: bool,
}

/// The window after one command.
pub open spec fn apply(w: WindowModel, command: WindowCommand) -> WindowModel {
    match command {
        WindowCommand::SetParent { parent, .. } => WindowModel { parent, ..w },
        WindowCommand::SetStyle { style, .. } => WindowModel { style, ..w },
        WindowCommand::SetPos { x, y, w: width, h, flags, .. } => WindowModel {
            rect: if flags & SWP_NOMOVE != 0 && flags & SWP_NOSIZE != 0 {
                w.rect
            } else {
                Some((x, y, width, h))
            },
            hidden: if flags & SWP_SHOWWINDOW != 0 {
                false
            } else {
                w.hidden
            },
            ..w
        },
        WindowCommand::Move { x, y, w: width, h, .. } => WindowModel {
            rect: Some((x, y, width, h)),
            ..w
        },
        WindowCommand::Hide { .. } => WindowModel { hidden: true, ..w },
    }
}

/// The window after a run of commands, first to last.
pub open spec fn apply_all(w: WindowModel, commands: Seq<WindowCommand>) -> WindowModel
    decreases commands.len(),
{
    if commands.len() == 0 {
        w
    } else {
        apply_all(apply(w, commands[0]), commands.drop_first())
    }
}

/// The commands that embed `child` under `parent`.
pub open spec fn attach_commands(child: RawWindowId, parent: RawWindowId, style: isize) -> Seq<
    WindowCommand,
> {
    seq![
        WindowCommand::SetParent { window: child, parent: Some(parent) },
        WindowCommand::SetStyle { window: child, style: embedded_style(style) },
        WindowCommand::SetPos {
            window: child,
            to_top: false,
            x: 0,
            y: 0,
            w: 1,
            h: 1,
            flags: SWP_FRAMECHANGED | SWP_NOZORDER | SWP_SHOWWINDOW,
        },
    ]
}

/// The commands that undo an embedding.
pub open spec fn detach_commands(child: RawWindowId, original_style: isize) -> Seq<WindowCommand> {
    seq![
        WindowCommand::SetParent { window: child, parent: None },
        WindowCommand::SetStyle { window: child, style: original_style },
        WindowCommand::SetPos {
            window: child,
            to_top: false,
            x: 0,
            y: 0,
            w: 1,
            h: 1,
            flags: SWP_FRAMECHANGED | SWP_NOZORDER | SWP_SHOWWINDOW,
        },
    ]
}

/// The embedded style: clears the top-level bits of `style` and sets the
/// child and visible bits.
pub fn embed_style(style: isize) -> (r: isize)
    ensures
        r == embedded_style(style),
        r & top_level_bits() == 0,
        r & child_bits() == child_bits(),
        r & !(top_level_bits() | child_bits()) == style & !(top_level_bits() | child_bits()),
{
    let r = (style & !((WS_OVERLAPPEDWINDOW | WS_POPUP) as isize)) | ((WS_CHILD | WS_VISIBLE) as isize);
    proof {
        lemma_embedded_style_bits(style);
    }
    r
}

/// The bits of an embedded style, one group at a time.
pub proof fn lemma_embedded_style_bits(style: isize)
    ensures
        embedded_style(style) & top_level_bits() == 0,
        embedded_style(style) & child_bits() == child_bits(),
        embedded_style(style) & !(top_level_bits() | child_bits()) == style & !(top_level_bits()
            | child_bits()),
{
    let t = (0x00CF_0000u32 | 0x8000_0000u32) as isize;
    let c = (0x4000_0000u32 | 0x1000_0000u32) as isize;
    assert(((style & !t) | c) & t == 0) by (bit_vector)
        requires
            t == (0x00CF_0000u32 | 0x8000_0000u32) as isize,
            c == (0x4000_0000u32 | 0x1000_0000u32) as isize,
    ;
    assert(((style & !t) | c) & c == c) by (bit_vector);
    assert(((style & !t) | c) & !(t | c) == style & !(t | c)) by (bit_vector);
}

/// Embeds `child` under `parent`. `style` is the style that the child has
/// now. Returns the commands to perform and the style to keep for the
/// restore: `style` itself.
pub fn attach_child(child: RawWindowId, parent: RawWindowId, style: isize) -> (r: (
    Vec<WindowCommand>,
    isize,
))
    ensures
        r.0@ == attach_commands(child, parent, style),
        r.1 == style,
{
    let mut commands: Vec<WindowCommand> = Vec::new();
    commands.push(WindowCommand::SetParent { window: child, parent: Some(parent) });
    commands.push(WindowCommand::SetStyle { window: child, style: embed_style(style) });
    commands.push(
        WindowCommand::SetPos {
            window: child,
            to_top: false,
            x: 0,
            y: 0,
            w: 1,
            h: 1,
            flags: SWP_FRAMECHANGED | SWP_NOZORDER | SWP_SHOWWINDOW,
        },
    );
    assert(commands@ =~= attach_commands(child, parent, style));
    (commands, style)
}

/// Undoes an embedding: the child goes back to the desktop and gets the
/// style it had before. To be used once per attach.
pub fn detach_child(child: RawWindowId, original_style: isize) -> (r: Vec<WindowCommand>)
    ensures
        r@ == detach_commands(child, original_style),
{
    let mut commands: Vec<WindowCommand> = Vec::new();
    commands.push(WindowCommand::SetParent { window: child, parent: None });
    commands.push(WindowCommand::SetStyle { window: child, style: original_style });
    commands.push(
        WindowCommand::SetPos {
            window: child,
            to_top: false,
            x: 0,
            y: 0,
            w: 1,
            h: 1,
            flags: SWP_FRAMECHANGED | SWP_NOZORDER | SWP_SHOWWINDOW,
        },
    );
    assert(commands@ =~= detach_commands(child, original_style));
    commands
}

/// Moves and resizes the child in one call.
pub fn move_child(child: RawWindowId, x: i32, y: i32, w: i32, h: i32) -> (r: WindowCommand)
    ensures
        r == (WindowCommand::Move { window: child, x, y, w, h }),
{
    WindowCommand::Move { window: child, x, y, w, h }
}

/// Raises the child to the top of the z-order and shows it, keeping its
/// place and size.
pub fn bring_to_top(child: RawWindowId) -> (r: WindowCommand)
    ensures
        r == (WindowCommand::SetPos {
            window: child,
            to_top: true,
            x: 0,
            y: 0,
            w: 0,
            h: 0,
            flags: SWP_FRAMECHANGED | SWP_SHOWWINDOW | SWP_NOMOVE | SWP_NOSIZE,
        }),
{
    WindowCommand::SetPos {
        window: child,
        to_top: true,
        x: 0,
        y: 0,
        w: 0,
        h: 0,
        flags: SWP_FRAMECHANGED | SWP_SHOWWINDOW | SWP_NOMOVE | SWP_NOSIZE,
    }
}

/// Hides the child, so that it does not flash before it is in place.
pub fn hide_window(child: RawWindowId) -> (r: WindowCommand)
    ensures
        r == (WindowCommand::Hide { window: child }),
{
    WindowCommand::Hide { window: child }
}

/// Takes from the host window the means to maximise and to resize it.
/// `style` is the style that the window has now.
pub fn disable_maximize_resize(hwnd: RawWindowId, style: isize) -> (r: Vec<WindowCommand>)
    ensures
        r@ == seq![
            WindowCommand::SetStyle { window: hwnd, style: fixed_size_style(style) },
            WindowCommand::SetPos {
                window: hwnd,
                to_top: true,
                x: 0,
                y: 0,
                w: 0,
                h: 0,
                flags: SWP_FRAMECHANGED | SWP_NOMOVE | SWP_NOSIZE | SWP_NOZORDER,
            },
        ],
        fixed_size_style(style) & resize_bits() == 0,
        fixed_size_style(style) & !resize_bits() == style & !resize_bits(),
{
    let fixed = style & !(WS_MAXIMIZEBOX as isize) & !(WS_SIZEBOX as isize);
    proof {
        let m = 0x0001_0000u32 as isize;
        let s = 0x0004_0000u32 as isize;
        let both = (0x0001_0000u32 | 0x0004_0000u32) as isize;
        assert((style & !m & !s) & both == 0) by (bit_vector)
            requires
                m == 0x0001_0000u32 as isize,
                s == 0x0004_0000u32 as isize,
                both == (0x0001_0000u32 | 0x0004_0000u32) as isize,
        ;
        assert((style & !m & !s) & !both == style & !both) by (bit_vector)
            requires
                m == 0x0001_0000u32 as isize,
                s == 0x0004_0000u32 as isize,
                both == (0x0001_0000u32 | 0x0004_0000u32) as isize,
        ;
    }
    let mut commands: Vec<WindowCommand> = Vec::new();
    commands.push(WindowCommand::SetStyle { window: hwnd, style: fixed });
    commands.push(
        WindowCommand::SetPos {
            window: hwnd,
            to_top: true,
            x: 0,
            y: 0,
            w: 0,
            h: 0,
            flags: SWP_FRAMECHANGED | SWP_NOMOVE | SWP_NOSIZE | SWP_NOZORDER,
        },
    );
    commands
}

/// The size of a window's client area from the corners of its client
/// rectangle, if it has a positive width and height.
pub fn parent_client_size(left: i32, top: i32, right: i32, bottom: i32) -> (r: Option<(i32, i32)>)
    requires
        i32::MIN <= right - left <= i32::MAX,
        i32::MIN <= bottom - top <= i32::MAX,
    ensures
        r == if right - left > 0 && bottom - top > 0 {
            Some(((right - left) as i32, (bottom - top) as i32))
        } else {
            None
        },
{
    let w = right - left;
    let h = bottom - top;
    if w > 0 && h > 0 {
        Some((w, h))
    } else {
        None
    }
}

/// What the enumeration of top-level windows reports of one window.
#[derive(Clone, Copy, Debug, PartialEq, Eq, Structural)]
pub struct WindowInfo {
    pub hwnd: RawWindowId,
    /// The process that owns the window.
    pub pid: u32,
    /// Whether the window has an owner window.
    pub has_owner: bool,
    pub visible: bool,
}

/// The window that a process shows as its own: visible, without owner,
/// belonging to `pid`.
pub open spec fn is_main_window_of(info: WindowInfo, pid: u32) -> bool {
    info.pid == pid && !info.has_owner && info.visible
}

/// The first window in enumeration order that is the main window of `pid`.
pub open spec fn spec_pick_window(windows: Seq<WindowInfo>, pid: u32) -> Option<RawWindowId>
    decreases windows.len(),
{
    if windows.len() == 0 {
        None
    } else if is_main_window_of(windows[0], pid) {
        Some(windows[0].hwnd)
    } else {
        spec_pick_window(windows.drop_first(), pid)
    }
}

/// Picks the main window of process `pid` from one enumeration.
pub fn pick_window(windows: &[WindowInfo], pid: u32) -> (r: Option<RawWindowId>)
    ensures
        r == spec_pick_window(windows@, pid),
        r is Some ==> exists|i: int|
            0 <= i < windows@.len() && is_main_window_of(#[trigger] windows@[i], pid) && r
                == Some(windows@[i].hwnd),
        r is None ==> forall|i: int|
            0 <= i < windows@.len() ==> !is_main_window_of(#[trigger] windows@[i], pid),
{
    let mut i: usize = 0;
    assert(windows@.skip(0) =~= windows@);
    while i < windows.len()
        invariant
            i <= windows.len(),
            spec_pick_window(windows@, pid) == spec_pick_window(windows@.skip(i as int), pid),
            forall|k: int| 0 <= k < i ==> !is_main_window_of(#[trigger] windows@[k], pid),
        decreases windows.len() - i,
    {
        let info = windows[i];
        assert(windows@.skip(i as int)[0] == info);
        if info.pid == pid && !info.has_owner && info.visible {
            return Some(info.hwnd);
        }
        assert(windows@.skip(i as int).drop_first() =~= windows@.skip(i + 1));
        i += 1;
    }
    assert(windows@.skip(i as int).len() == 0);
    None
}

/// What the search for a process's window does after one enumeration.
#[derive(Debug)]
pub enum FindStep {
    /// The window is there.
    Found(RawWindowId),
    /// Nothing yet and the time is up: the search fails with this message.
    TimedOut(String),
    /// Nothing yet: sleep for this many milliseconds and enumerate again.
    Sleep(u64),
}

/// A `FindStep` with its message as a sequence of characters.
pub enum FindStepView {
    Found(RawWindowId),
    TimedOut(Seq<char>),
    Sleep(u64),
}

impl View for FindStep {
    type V = FindStepView;

    open spec fn view(&self) -> FindStepView {
        match self {
            FindStep::Found(w) => FindStepView::Found(*w),
            FindStep::TimedOut(m) => FindStepView::TimedOut(m@),
            FindStep::Sleep(ms) => FindStepView::Sleep(*ms),
        }
    }
}

/// The message of a search that ran out of time.
pub open spec fn window_not_found_message() -> Seq<char> {
    "未能在超时内找到 projector 窗口。"@
}

/// What the search does after one enumeration that gave `found`.
pub open spec fn spec_find_step(found: Option<RawWindowId>, elapsed_ms: u64, timeout_ms: u64) -> FindStepView {
    match found {
        Some(w) => FindStepView::Found(w),
        None => if elapsed_ms > timeout_ms {
            FindStepView::TimedOut(window_not_found_message())
        } else {
            FindStepView::Sleep(FIND_POLL_MS)
        },
    }
}

/// One round of `find_window_by_pid`: `found` is what the enumeration gave,
/// `elapsed_ms` the time since the search began. A window that is there is
/// taken even when the time is up.
pub fn find_window_step(found: Option<RawWindowId>, elapsed_ms: u64, timeout_ms: u64) -> (r:
    FindStep)
    ensures
        r@ == spec_find_step(found, elapsed_ms, timeout_ms),
{
    match found {
        Some(w) => FindStep::Found(w),
        None => if elapsed_ms > timeout_ms {
            FindStep::TimedOut("未能在超时内找到 projector 窗口。".to_owned())
        } else {
            FindStep::Sleep(FIND_POLL_MS)
        },
    }
}

/// One round of the search for the window of process `pid`: looks through
/// one enumeration of the top-level windows and says how the search goes
/// on. The caller enumerates, sleeps and counts the time.
pub fn find_window_by_pid(windows: &[WindowInfo], pid: u32, elapsed_ms: u64, timeout_ms: u64) -> (r:
    FindStep)
    ensures
        r@ == spec_find_step(spec_pick_window(windows@, pid), elapsed_ms, timeout_ms),
{
    find_window_step(pick_window(windows, pid), elapsed_ms, timeout_ms)
}

/// Attach and detach are inverse on the style: whatever style a window has,
/// embedding it and then undoing the embedding with the style that the
/// attach handed back leaves the window with the style it had, and without
/// a parent.
pub proof fn lemma_attach_detach_round_trip(
    w: WindowModel,
    child: RawWindowId,
    parent: RawWindowId,
)
    ensures
        ({
            let attached = apply_all(w, attach_commands(child, parent, w.style));
            let restored = apply_all(attached, detach_commands(child, w.style));
            &&& attached.style == embedded_style(w.style)
            &&& attached.parent == Some(parent)
            &&& restored.style == w.style
            &&& restored.parent is None
        }),
{
    reveal_with_fuel(apply_all, 4);
    let a = attach_commands(child, parent, w.style);
    assert(a.drop_first() =~= seq![a[1], a[2]]);
    assert(a.drop_first().drop_first() =~= seq![a[2]]);
    assert(a.drop_first().drop_first().drop_first() =~= Seq::<WindowCommand>::empty());
    let attached = apply_all(w, a);
    let d = detach_commands(child, w.style);
    assert(d.drop_first() =~= seq![d[1], d[2]]);
    assert(d.drop_first().drop_first() =~= seq![d[2]]);
    assert(d.drop_first().drop_first().drop_first() =~= Seq::<WindowCommand>::empty());
}

} // verus!
