//! The launch orchestrator: from an accepted asset URL to an embedded,
//! running projector, and back.
//!
//! The orchestrator performs nothing itself. A launch is a sequence of
//! steps: each step takes what the outside world answered to the last
//! action, changes the state, and names the next action. The application
//! performs the actions, none of them while it holds the state's lock, and
//! all native window commands on its main thread.

use crate::embed_win32::{
    attach_child, attach_commands, bring_to_top, detach_child, detach_commands, hide_window,
    move_child, WindowCommand, SWP_FRAMECHANGED, SWP_NOMOVE, SWP_NOSIZE, SWP_SHOWWINDOW,
};
use crate::login3_capture::{stop_timer_only, timer_stopped};
use crate::state::{
    clone_text, set_error, status_payload, AppState, AppStateView, AppStatus, ProjectorHandle,
    ProjectorProcess, RawWindowId, RectTuple, StatusPayload, StatusPayloadView,
};
use crate::text::{parse_u64, spec_parse_u64, str_equal};
use crate::url_parts::{pairs_view, query_pairs_of, url_parses, url_query_pairs};
use std::path::PathBuf;
use vstd::prelude::*;
use vstd::string::*;

verus! {

/// The height of the toolbar above the embedded window, in logical pixels.
pub const UI_BAR_HEIGHT: i32 = 36;

/// How long a launch waits for the projector's window, in milliseconds.
pub const FIND_WINDOW_TIMEOUT_MS: u64 = 6000;

/// A query name under which the account number travels.
pub open spec fn is_account_key(name: Seq<char>) -> bool {
    name == "qq"@ || name == "uin"@
}

/// The account number among the pairs of a query: the value of the first
/// pair named `qq` or `uin`, if that value is a decimal number.
pub open spec fn account_in(pairs: Seq<(Seq<char>, Seq<char>)>) -> Option<u64>
    decreases pairs.len(),
{
    if pairs.len() == 0 {
        None
    } else if is_account_key(pairs[0].0) {
        spec_parse_u64(vstd::utf8::encode_utf8(pairs[0].1))
    } else {
        account_in(pairs.drop_first())
    }
}

/// The account number that an asset URL names, if it names one.
pub open spec fn spec_extract_qq(url: Seq<char>) -> Option<u64> {
    if url_parses(url) {
        account_in(url_query_pairs(url))
    } else {
        None
    }
}

/// Finds the account number among the pairs of a query.
pub fn qq_from_pairs(pairs: &[(String, String)]) -> (r: Option<u64>)
    ensures
        r == account_in(pairs_view(pairs@)),
{
    let mut i: usize = 0;
    assert(pairs_view(pairs@).skip(0) =~= pairs_view(pairs@));
    while i < pairs.len()
        invariant
            i <= pairs.len(),
            account_in(pairs_view(pairs@)) == account_in(pairs_view(pairs@).skip(i as int)),
        decreases pairs.len() - i,
    {
        let ghost rest = pairs_view(pairs@).skip(i as int);
        assert(rest[0] == (pairs@[i as int].0@, pairs@[i as int].1@));
        let name = pairs[i].0.as_str();
        if str_equal(name, "qq") || str_equal(name, "uin") {
            return parse_u64(pairs[i].1.as_str().as_bytes());
        }
        assert(rest.drop_first() =~= pairs_view(pairs@).skip(i + 1));
        i += 1;
    }
    None
}

/// Reads the account number from an asset URL.
pub fn extract_qq_from_url(url: &str) -> (r: Option<u64>)
    ensures
        r == spec_extract_qq(url@),
{
    match query_pairs_of(url) {
        Some(pairs) => qq_from_pairs(pairs.as_slice()),
        None => None,
    }
}

/// The place of the embedded window in a host client area of `width` by
/// `height`: below a toolbar of `bar_height`, as wide as the host, and as
/// high as what is left, but never lower than one pixel.
pub open spec fn spec_projector_rect(width: i32, height: i32, bar_height: i32) -> RectTuple {
    (
        0i32,
        bar_height,
        width,
        if height - bar_height > 1 {
            (height - bar_height) as i32
        } else {
            1i32
        },
    )
}

/// Computes the place of the embedded window. The toolbar's height is not
/// negative.
pub fn projector_rect(width: i32, height: i32, bar_height: i32) -> (r: RectTuple)
    requires
        bar_height >= 0,
    ensures
        r == spec_projector_rect(width, height, bar_height),
        r.3 >= 1,
{
    let usable: i64 = height as i64 - bar_height as i64;
    let h: i32 = if usable > 1 {
        usable as i32
    } else {
        1
    };
    (0, bar_height, width, h)
}

/// The size of the host that counts: that of its client area where it is
/// known, else that of the window, read as signed numbers.
pub open spec fn spec_host_size(client: Option<(i32, i32)>, inner: Option<(u32, u32)>) -> Option<
    (i32, i32),
> {
    match client {
        Some(size) => Some(size),
        None => match inner {
            Some((w, h)) => Some((w as i32, h as i32)),
            None => None,
        },
    }
}

/// Picks the size of the host that counts.
pub fn host_size(client: Option<(i32, i32)>, inner: Option<(u32, u32)>) -> (r: Option<(i32, i32)>)
    ensures
        r == spec_host_size(client, inner),
{
    match client {
        Some(size) => Some(size),
        None => match inner {
            Some((w, h)) => Some((w as i32, h as i32)),
            None => None,
        },
    }
}

/// The commands that put the embedded window in its place: move it, then
/// raise and show it.
pub open spec fn place_commands(child: RawWindowId, rect: RectTuple) -> Seq<WindowCommand> {
    seq![
        WindowCommand::Move { window: child, x: rect.0, y: rect.1, w: rect.2, h: rect.3 },
        WindowCommand::SetPos {
            window: child,
            to_top: true,
            x: 0,
            y: 0,
            w: 0,
            h: 0,
            flags: SWP_FRAMECHANGED | SWP_SHOWWINDOW | SWP_NOMOVE | SWP_NOSIZE,
        },
    ]
}

fn place(child: RawWindowId, rect: RectTuple) -> (r: Vec<WindowCommand>)
    ensures
        r@ == place_commands(child, rect),
{
    let mut commands: Vec<WindowCommand> = Vec::new();
    commands.push(move_child(child, rect.0, rect.1, rect.2, rect.3));
    commands.push(bring_to_top(child));
    assert(commands@ =~= place_commands(child, rect));
    commands
}

/// What is to be done to let go of an embedded projector: restore its
/// window, then terminate its process.
#[derive(Debug)]
pub struct Teardown {
    pub commands: Vec<WindowCommand>,
    pub process: ProjectorProcess,
}

/// A `Teardown` with its commands as a sequence.
pub struct TeardownView {
    pub commands: Seq<WindowCommand>,
    pub process: ProjectorProcess,
}

impl View for Teardown {
    type V = TeardownView;

    open spec fn view(&self) -> TeardownView {
        TeardownView { commands: self.commands@, process: self.process }
    }
}

/// The teardown of an embedded projector.
pub open spec fn teardown_of(p: ProjectorHandle) -> TeardownView {
    TeardownView { commands: detach_commands(p.hwnd, p.original_style), process: p.process }
}

/// The state after the projector has been let go: no projector, no
/// remembered geometry, no account number, status `Login`.
pub open spec fn projector_stopped(s: AppStateView) -> AppStateView {
    AppStateView {
        projector: None,
        status: AppStatus::Login,
        message: None,
        last_projector_rect: None,
        qq_num: None,
        ..s
    }
}

/// The state after `stop_projector`: without a projector there is nothing
/// to stop and nothing changes.
pub open spec fn spec_stop_projector(s: AppStateView) -> AppStateView {
    if s.projector is Some {
        projector_stopped(s)
    } else {
        s
    }
}

fn teardown(p: ProjectorHandle) -> (r: Teardown)
    ensures
        r@ == teardown_of(p),
{
    Teardown { commands: detach_child(p.hwnd, p.original_style), process: p.process }
}

/// Lets go of the embedded projector, if there is one: it leaves the state,
/// the status returns to `Login`, and the teardown to perform is returned.
/// Without a projector this is a no-op.
pub fn stop_projector(state: &mut AppState) -> (r: Option<Teardown>)
    ensures
        final(state)@ == spec_stop_projector(old(state)@),
        match r {
            Some(t) => old(state)@.projector matches Some(p) && t@ == teardown_of(p),
            None => old(state)@.projector is None,
        },
        final(state)@.projector is None,
        old(state)@.wf() ==> final(state)@.wf(),
{
    match state.projector {
        Some(p) => {
            state.projector = None;
            state.status = AppStatus::Login;
            state.message = None;
            state.last_projector_rect = None;
            state.qq_num = None;
            Some(teardown(p))
        },
        None => None,
    }
}

/// The next thing to do in a launch. Each action but the last two waits for
/// one event, named with it; `Finish` and `Fail` end the launch.
#[derive(Debug)]
pub enum LaunchAction {
    /// Perform the teardown of the projector that was embedded, then report
    /// `TornDown`.
    Teardown { teardown: Teardown, held_url: Option<String> },
    /// Locate the projector executable, then report `PathResolved`.
    ResolvePath { url: String },
    /// Start `path` with `url` as its single argument, without console and
    /// without waiting for it, then report `Spawned`.
    Spawn { path: PathBuf, url: String },
    /// Look for the window of `process` for at most `timeout_ms`, then
    /// report `WindowFound`.
    FindWindow { process: ProjectorProcess, timeout_ms: u64, url: String },
    /// Perform `commands`, which hide the new window, find the host window
    /// and read the new window's style, then report `Prepared`.
    Prepare { process: ProjectorProcess, child: RawWindowId, commands: Vec<WindowCommand>, url: String },
    /// Perform `commands`, which embed the window, measure the host, then
    /// report `Measured`; report `AttachFailed` if the commands fail.
    Attach {
        process: ProjectorProcess,
        child: RawWindowId,
        original_style: isize,
        commands: Vec<WindowCommand>,
        url: String,
    },
    /// The projector is embedded. Perform `commands`, which place it,
    /// schedule the delayed re-fits, tell the packet hooks of `pid` and
    /// `qq_num`, announce `payload` and hide the login surface.
    Finish { commands: Vec<WindowCommand>, pid: u32, qq_num: u64, payload: StatusPayload },
    /// The launch failed with `message`. `announce` holds the payload to
    /// announce where the failure was recorded in the state.
    Fail { message: String, announce: Option<StatusPayload> },
}

/// A `LaunchAction` with its texts and commands as sequences.
pub enum LaunchActionView {
    Teardown { teardown: TeardownView, held_url: Option<Seq<char>> },
    ResolvePath { url: Seq<char> },
    Spawn { path: PathBuf, url: Seq<char> },
    FindWindow { process: ProjectorProcess, timeout_ms: u64, url: Seq<char> },
    Prepare { process: ProjectorProcess, child: RawWindowId, commands: Seq<WindowCommand>, url: Seq<char> },
    Attach {
        process: ProjectorProcess,
        child: RawWindowId,
        original_style: isize,
        commands: Seq<WindowCommand>,
        url: Seq<char>,
    },
    Finish { commands: Seq<WindowCommand>, pid: u32, qq_num: u64, payload: StatusPayloadView },
    Fail { message: Seq<char>, announce: Option<StatusPayloadView> },
}

impl View for LaunchAction {
    type V = LaunchActionView;

    open spec fn view(&self) -> LaunchActionView {
        match self {
            LaunchAction::Teardown { teardown, held_url } => LaunchActionView::Teardown {
                teardown: teardown@,
                held_url: crate::state::text_view(*held_url),
            },
            LaunchAction::ResolvePath { url } => LaunchActionView::ResolvePath { url: url@ },
            LaunchAction::Spawn { path, url } => LaunchActionView::Spawn { path: *path, url: url@ },
            LaunchAction::FindWindow { process, timeout_ms, url } => LaunchActionView::FindWindow {
                process: *process,
                timeout_ms: *timeout_ms,
                url: url@,
            },
            LaunchAction::Prepare { process, child, commands, url } => LaunchActionView::Prepare {
                process: *process,
                child: *child,
                commands: commands@,
                url: url@,
            },
            LaunchAction::Attach {
                process,
                child,
                original_style,
                commands,
                url,
            } => LaunchActionView::Attach {
                process: *process,
                child: *child,
                original_style: *original_style,
                commands: commands@,
                url: url@,
            },
            LaunchAction::Finish { commands, pid, qq_num, payload } => LaunchActionView::Finish {
                commands: commands@,
                pid: *pid,
                qq_num: *qq_num,
                payload: payload@,
            },
            LaunchAction::Fail { message, announce } => LaunchActionView::Fail {
                message: message@,
                announce: match announce {
                    Some(p) => Some(p@),
                    None => None,
                },
            },
        }
    }
}

/// What the outside world answered to an action.
#[derive(Debug)]
pub enum LaunchEvent {
    /// The teardown has been performed.
    TornDown,
    /// The executable's path, or why there is none.
    PathResolved(Result<PathBuf, String>),
    /// The started process, or why it did not start.
    Spawned(Result<ProjectorProcess, String>),
    /// The process's window, or why it was not found.
    WindowFound(Result<RawWindowId, String>),
    /// The host window and the style that the new window has now, or why
    /// the host window is not to be had.
    Prepared(Result<(RawWindowId, isize), String>),
    /// The host's client size, if it is known; the host window's size, or
    /// why it is not to be had; and the toolbar's height in physical pixels.
    Measured { client: Option<(i32, i32)>, inner: Result<(u32, u32), String>, bar_height: i32 },
    /// The commands that embed the window failed, and why.
    AttachFailed(String),
}

/// A `LaunchEvent` with its texts as sequences of characters.
pub enum LaunchEventView {
    TornDown,
    PathResolved(Result<PathBuf, Seq<char>>),
    Spawned(Result<ProjectorProcess, Seq<char>>),
    WindowFound(Result<RawWindowId, Seq<char>>),
    Prepared(Result<(RawWindowId, isize), Seq<char>>),
    Measured { client: Option<(i32, i32)>, inner: Result<(u32, u32), Seq<char>>, bar_height: i32 },
    AttachFailed(Seq<char>),
}

impl View for LaunchEvent {
    type V = LaunchEventView;

    open spec fn view(&self) -> LaunchEventView {
        match self {
            LaunchEvent::TornDown => LaunchEventView::TornDown,
            LaunchEvent::PathResolved(r) => LaunchEventView::PathResolved(
                match r {
                    Ok(p) => Ok(*p),
                    Err(m) => Err(m@),
                },
            ),
            LaunchEvent::Spawned(r) => LaunchEventView::Spawned(
                match r {
                    Ok(p) => Ok(*p),
                    Err(m) => Err(m@),
                },
            ),
            LaunchEvent::WindowFound(r) => LaunchEventView::WindowFound(
                match r {
                    Ok(w) => Ok(*w),
                    Err(m) => Err(m@),
                },
            ),
            LaunchEvent::Prepared(r) => LaunchEventView::Prepared(
                match r {
                    Ok(p) => Ok(*p),
                    Err(m) => Err(m@),
                },
            ),
            LaunchEvent::Measured { client, inner, bar_height } => LaunchEventView::Measured {
                client: *client,
                inner: match inner {
                    Ok(size) => Ok(*size),
                    Err(m) => Err(m@),
                },
                bar_height: *bar_height,
            },
            LaunchEvent::AttachFailed(reason) => LaunchEventView::AttachFailed(reason@),
        }
    }
}

/// A failure that is recorded in the state and announced.
pub open spec fn recorded_failure(s: AppStateView, reason: Seq<char>) -> (AppStateView, LaunchActionView) {
    (
        s.failed(reason),
        LaunchActionView::Fail { message: reason, announce: Some(s.failed(reason).payload()) },
    )
}

/// The launch goes on with the URL that the state held when it began, or
/// fails for want of one.
pub open spec fn with_url(s: AppStateView, url: Option<Seq<char>>) -> (AppStateView, LaunchActionView) {
    match url {
        Some(u) => (s, LaunchActionView::ResolvePath { url: u }),
        None => recorded_failure(s, "Missing main.swf URL."@),
    }
}

/// The beginning of a launch. An embedded projector is let go first, so
/// that two never exist side by side.
pub open spec fn launch_begin(s: AppStateView) -> (AppStateView, LaunchActionView) {
    match s.projector {
        Some(p) => (
            projector_stopped(s),
            LaunchActionView::Teardown { teardown: teardown_of(p), held_url: s.launch_url() },
        ),
        None => with_url(s, s.launch_url()),
    }
}

/// The state of a launcher whose projector has just been embedded. The
/// launch has consumed the captured URL: it is cleared, and the URL that was
/// launched with is kept beside the projector.
pub open spec fn running(
    s: AppStateView,
    handle: ProjectorHandle,
    qq_num: u64,
    url: Seq<char>,
) -> AppStateView {
    AppStateView {
        projector: Some(handle),
        status: AppStatus::Running,
        message: None,
        swf_url: None,
        launched_url: Some(url),
        last_projector_rect: None,
        qq_num: Some(qq_num),
        ..s
    }
}

/// The message of a step that was given an event it did not wait for.
pub open spec fn out_of_order_message() -> Seq<char> {
    "Launch step out of order."@
}

/// One step of a launch: the state and the action that follow from the
/// pending action and the event that answers it.
///
/// A failure to locate or start the executable, to find its window, to
/// reach the host window, to attach to it or to measure it is recorded in
/// the state: the
/// status becomes `Error` with the reason as message. After a failure to
/// find the window the process that was started is left running. The step
/// that finishes a launch clears the captured URL and keeps it as the
/// launched one. An event that does not answer the pending action ends the
/// launch without a record.
pub open spec fn launch_next(s: AppStateView, pending: LaunchActionView, event: LaunchEventView) -> (
    AppStateView,
    LaunchActionView,
) {
    match (pending, event) {
        (LaunchActionView::Teardown { held_url, .. }, LaunchEventView::TornDown) => with_url(
            s,
            held_url,
        ),
        (LaunchActionView::ResolvePath { url }, LaunchEventView::PathResolved(found)) => match found {
            Ok(path) => (s, LaunchActionView::Spawn { path, url }),
            Err(reason) => recorded_failure(s, reason),
        },
        (LaunchActionView::Spawn { url, .. }, LaunchEventView::Spawned(started)) => match started {
            Ok(process) => (
                s,
                LaunchActionView::FindWindow { process, timeout_ms: FIND_WINDOW_TIMEOUT_MS, url },
            ),
            Err(reason) => recorded_failure(s, reason),
        },
        (
            LaunchActionView::FindWindow { process, url, .. },
            LaunchEventView::WindowFound(found),
        ) => match found {
            Ok(child) => (
                s,
                LaunchActionView::Prepare {
                    process,
                    child,
                    commands: seq![WindowCommand::Hide { window: child }],
                    url,
                },
            ),
            Err(reason) => recorded_failure(s, reason),
        },
        (
            LaunchActionView::Prepare { process, child, url, .. },
            LaunchEventView::Prepared(ready),
        ) => match ready {
            Ok((host, style)) => (
                s,
                LaunchActionView::Attach {
                    process,
                    child,
                    original_style: style,
                    commands: attach_commands(child, host, style),
                    url,
                },
            ),
            Err(reason) => recorded_failure(s, reason),
        },
        (
            LaunchActionView::Attach { process, child, original_style, url, .. },
            LaunchEventView::Measured { client, inner, bar_height },
        ) => match client {
            None if inner is Err => recorded_failure(s, inner->Err_0),
            _ => {
                let size = spec_host_size(
                    client,
                    match inner {
                        Ok(size) => Some(size),
                        Err(_) => None,
                    },
                )->0;
                let rect = spec_projector_rect(size.0, size.1, bar_height);
                let qq_num = match spec_extract_qq(url) {
                    Some(n) => n,
                    None => 0,
                };
                let next = running(
                    s,
                    ProjectorHandle { process, hwnd: child, original_style },
                    qq_num,
                    url,
                );
                (
                    next,
                    LaunchActionView::Finish {
                        commands: place_commands(child, rect),
                        pid: process.pid,
                        qq_num,
                        payload: next.payload(),
                    },
                )
            },
        },
        (LaunchActionView::Attach { .. }, LaunchEventView::AttachFailed(reason)) => recorded_failure(
            s,
            reason,
        ),
        _ => (s, LaunchActionView::Fail { message: out_of_order_message(), announce: None }),
    }
}

fn fail_recorded(state: &mut AppState, reason: String) -> (r: LaunchAction)
    ensures
        (final(state)@, r@) == recorded_failure(old(state)@, reason@),
        old(state)@.wf() ==> final(state)@.wf(),
{
    let message = reason.clone();
    let payload = set_error(state, reason);
    LaunchAction::Fail { message, announce: Some(payload) }
}

fn go_on_with_url(state: &mut AppState, url: Option<String>) -> (r: LaunchAction)
    ensures
        (final(state)@, r@) == with_url(old(state)@, crate::state::text_view(url)),
        old(state)@.wf() ==> final(state)@.wf(),
{
    match url {
        Some(u) => LaunchAction::ResolvePath { url: u },
        None => fail_recorded(state, "Missing main.swf URL.".to_owned()),
    }
}

/// Begins a launch with the URL that the state holds.
///
/// If a projector is embedded it is let go first: the state forgets it and
/// the first action is its teardown. Then, without a URL, the launch fails
/// and the failure is recorded.
pub fn launch_projector_auto(state: &mut AppState) -> (r: LaunchAction)
    ensures
        (final(state)@, r@) == launch_begin(old(state)@),
        old(state)@.wf() ==> final(state)@.wf(),
{
    let url = match &state.swf_url {
        Some(u) => Some(u.clone()),
        None => clone_text(&state.launched_url),
    };
    match stop_projector(state) {
        Some(teardown) => LaunchAction::Teardown { teardown, held_url: url },
        None => go_on_with_url(state, url),
    }
}

/// Takes one step of a launch: `event` answers `pending`.
pub fn launch_step(state: &mut AppState, pending: LaunchAction, event: LaunchEvent) -> (r:
    LaunchAction)
    requires
        event matches LaunchEvent::Measured { bar_height, .. } ==> bar_height >= 0,
    ensures
        (final(state)@, r@) == launch_next(old(state)@, pending@, event@),
        old(state)@.wf() ==> final(state)@.wf(),
{
    match (pending, event) {
        (LaunchAction::Teardown { held_url, .. }, LaunchEvent::TornDown) => go_on_with_url(
            state,
            held_url,
        ),
        (LaunchAction::ResolvePath { url }, LaunchEvent::PathResolved(found)) => match found {
            Ok(path) => LaunchAction::Spawn { path, url },
            Err(reason) => fail_recorded(state, reason),
        },
        (LaunchAction::Spawn { url, .. }, LaunchEvent::Spawned(started)) => match started {
            Ok(process) => LaunchAction::FindWindow {
                process,
                timeout_ms: FIND_WINDOW_TIMEOUT_MS,
                url,
            },
            Err(reason) => fail_recorded(state, reason),
        },
        (LaunchAction::FindWindow { process, url, .. }, LaunchEvent::WindowFound(found)) => match found {
            Ok(child) => {
                let mut commands: Vec<WindowCommand> = Vec::new();
                commands.push(hide_window(child));
                assert(commands@ =~= seq![WindowCommand::Hide { window: child }]);
                LaunchAction::Prepare { process, child, commands, url }
            },
            Err(reason) => fail_recorded(state, reason),
        },
        (LaunchAction::Prepare { process, child, url, .. }, LaunchEvent::Prepared(ready)) => match ready {
            Ok((host, style)) => {
                let (commands, original_style) = attach_child(child, host, style);
                LaunchAction::Attach { process, child, original_style, commands, url }
            },
            Err(reason) => fail_recorded(state, reason),
        },
        (
            LaunchAction::Attach { process, child, original_style, url, .. },
            LaunchEvent::Measured { client, inner, bar_height },
        ) => {
            let size = match client {
                Some(size) => size,
                None => match inner {
                    Ok((w, h)) => (w as i32, h as i32),
                    Err(message) => {
                        return fail_recorded(state, message);
                    },
                },
            };
            let rect = projector_rect(size.0, size.1, bar_height);
            let qq_num = match extract_qq_from_url(url.as_str()) {
                Some(n) => n,
                None => 0,
            };
            state.projector = Some(ProjectorHandle { process, hwnd: child, original_style });
            state.status = AppStatus::Running;
            state.message = None;
            state.swf_url = None;
            state.launched_url = Some(url);
            state.last_projector_rect = None;
            state.qq_num = Some(qq_num);
            LaunchAction::Finish {
                commands: place(child, rect),
                pid: process.pid,
                qq_num,
                payload: status_payload(state),
            }
        },
        (LaunchAction::Attach { .. }, LaunchEvent::AttachFailed(reason)) => fail_recorded(
            state,
            reason,
        ),
        _ => LaunchAction::Fail { message: "Launch step out of order.".to_owned(), announce: None },
    }
}

/// What a resize makes of the window: its handle and new place, unless
/// there is no projector, the host's size is unknown, or the place is the
/// one last applied.
pub open spec fn resize_target(
    s: AppStateView,
    client: Option<(i32, i32)>,
    inner: Option<(u32, u32)>,
    bar_height: i32,
) -> Option<(RawWindowId, RectTuple)> {
    match (s.projector, spec_host_size(client, inner)) {
        (Some(p), Some(size)) => {
            let rect = spec_projector_rect(size.0, size.1, bar_height);
            if s.last_projector_rect == Some(rect) {
                None
            } else {
                Some((p.hwnd, rect))
            }
        },
        _ => None,
    }
}

/// The state after a resize: the place applied is remembered.
pub open spec fn resized(
    s: AppStateView,
    client: Option<(i32, i32)>,
    inner: Option<(u32, u32)>,
    bar_height: i32,
) -> AppStateView {
    match resize_target(s, client, inner, bar_height) {
        Some((_, rect)) => AppStateView { last_projector_rect: Some(rect), ..s },
        None => s,
    }
}

/// The commands of a resize: those that place the window, or none.
pub open spec fn resize_commands(
    s: AppStateView,
    client: Option<(i32, i32)>,
    inner: Option<(u32, u32)>,
    bar_height: i32,
) -> Seq<WindowCommand> {
    match resize_target(s, client, inner, bar_height) {
        Some((child, rect)) => place_commands(child, rect),
        None => Seq::empty(),
    }
}

/// Fits the embedded window to the host again.
///
/// `client` is the size of the host's client area, if it is known, `inner`
/// the size of the host window, if that is known, `bar_height` the
/// toolbar's height in physical pixels. The place is computed anew; if it
/// differs from the one last applied it is remembered and the commands that
/// apply it are returned. In every other case nothing changes and there is
/// nothing to perform.
pub fn resize_projector_to_window(
    state: &mut AppState,
    client: Option<(i32, i32)>,
    inner: Option<(u32, u32)>,
    bar_height: i32,
) -> (r: Vec<WindowCommand>)
    requires
        bar_height >= 0,
    ensures
        final(state)@ == resized(old(state)@, client, inner, bar_height),
        r@ == resize_commands(old(state)@, client, inner, bar_height),
        old(state)@.wf() ==> final(state)@.wf(),
{
    let hwnd = match state.projector {
        Some(p) => p.hwnd,
        None => {
            return Vec::new();
        },
    };
    let size = match host_size(client, inner) {
        Some(size) => size,
        None => {
            return Vec::new();
        },
    };
    let rect = projector_rect(size.0, size.1, bar_height);
    let same = match state.last_projector_rect {
        Some(last) => last.0 == rect.0 && last.1 == rect.1 && last.2 == rect.2 && last.3 == rect.3,
        None => false,
    };
    if same {
        return Vec::new();
    }
    state.last_projector_rect = Some(rect);
    place(hwnd, rect)
}

/// The state after a reset: whatever ran is let go, the capture watcher is
/// cancelled, neither a captured nor a launched URL is kept, the status is
/// `Login`.
pub open spec fn reset(s: AppStateView) -> AppStateView {
    AppStateView {
        status: AppStatus::Login,
        message: None,
        swf_url: None,
        launched_url: None,
        ..timer_stopped(spec_stop_projector(s))
    }
}

/// Returns to the login surface from any state, `Error` included. Returns
/// the teardown to perform, if a projector was embedded, and the payload to
/// announce once the login surface is shown again.
pub fn reset_to_login(state: &mut AppState) -> (r: (Option<Teardown>, StatusPayload))
    ensures
        final(state)@ == reset(old(state)@),
        match r.0 {
            Some(t) => old(state)@.projector matches Some(p) && t@ == teardown_of(p),
            None => old(state)@.projector is None,
        },
        r.1@ == final(state)@.payload(),
        final(state)@.status == AppStatus::Login,
        final(state)@.projector is None,
        old(state)@.wf() ==> final(state)@.wf(),
{
    let teardown = stop_projector(state);
    stop_timer_only(state);
    state.status = AppStatus::Login;
    state.message = None;
    state.swf_url = None;
    state.launched_url = None;
    (teardown, status_payload(state))
}

/// What a change of channel amounts to.
#[derive(Clone, Copy, Debug, PartialEq, Eq, Structural)]
pub enum ChannelPlan {
    /// Nothing runs: log in again, by `reset_to_login`.
    Relogin,
    /// A projector runs but neither a captured URL nor the one it was
    /// launched with is held: the change fails with `Missing swf url.`.
    MissingUrl,
    /// Launch again, with the captured URL where there is one, else with
    /// the one of the last launch.
    Relaunch,
}

/// How the channel is changed in a state.
pub open spec fn spec_change_channel(s: AppStateView) -> ChannelPlan {
    if s.projector is None {
        ChannelPlan::Relogin
    } else if s.launch_url() is None {
        ChannelPlan::MissingUrl
    } else {
        ChannelPlan::Relaunch
    }
}

/// Decides how the channel is changed.
pub fn change_channel(state: &AppState) -> (r: ChannelPlan)
    ensures
        r == spec_change_channel(state@),
{
    if state.projector.is_none() {
        ChannelPlan::Relogin
    } else if state.swf_url.is_none() && state.launched_url.is_none() {
        ChannelPlan::MissingUrl
    } else {
        ChannelPlan::Relaunch
    }
}

/// The delays, in milliseconds, after which the embedded window is fitted
/// again once a launch is through: its true geometry settles late.
pub open spec fn fit_delays() -> Seq<u64> {
    seq![50u64, 150, 300, 600, 1200, 2000]
}

/// The delays, in milliseconds, after which the login surface is laid out
/// again.
pub open spec fn login_layout_delays() -> Seq<u64> {
    seq![50u64, 150, 300, 600]
}

pub fn fit_delays_ms() -> (r: [u64; 6])
    ensures
        r@ == fit_delays(),
{
    let r: [u64; 6] = [50, 150, 300, 600, 1200, 2000];
    assert(r@ =~= fit_delays());
    r
}

pub fn login_layout_delays_ms() -> (r: [u64; 4])
    ensures
        r@ == login_layout_delays(),
{
    let r: [u64; 4] = [50, 150, 300, 600];
    assert(r@ =~= login_layout_delays());
    r
}

/// The switch that ends the delayed re-fits and layouts when the
/// application leaves.
#[derive(Debug)]
pub struct ScheduleControl {
    pub should_exit: bool,
}

/// What a scheduler does next.
#[derive(Clone, Copy, Debug, PartialEq, Eq, Structural)]
pub enum ScheduleStep {
    /// End.
    Stop,
    /// Sleep for this many milliseconds, then ask `schedule_due`.
    Sleep(u64),
}

/// What a scheduler does after `index` sleeps.
pub open spec fn spec_schedule_next(delays: Seq<u64>, index: int, should_exit: bool) -> ScheduleStep {
    if should_exit || index < 0 || index >= delays.len() {
        ScheduleStep::Stop
    } else {
        ScheduleStep::Sleep(delays[index])
    }
}

impl ScheduleControl {
    pub fn new() -> (r: Self)
        ensures
            !r.should_exit,
    {
        ScheduleControl { should_exit: false }
    }

    /// The step of a scheduler that has slept `index` times: it ends when
    /// the application leaves or the delays are used up.
    pub fn schedule_next(&self, delays: &[u64], index: usize) -> (r: ScheduleStep)
        ensures
            r == spec_schedule_next(delays@, index as int, self.should_exit),
    {
        if self.should_exit || index >= delays.len() {
            ScheduleStep::Stop
        } else {
            ScheduleStep::Sleep(delays[index])
        }
    }

    /// Whether the work that was slept for is still wanted: it is unless
    /// the application leaves.
    pub fn schedule_due(&self) -> (r: bool)
        ensures
            r == !self.should_exit,
    {
        !self.should_exit
    }
}

/// Ends every scheduler at its next look.
pub fn stop_schedule_threads(control: &mut ScheduleControl)
    ensures
        final(control).should_exit,
{
    control.should_exit = true;
}

/// The place of the login surface in a window of `width` by `height`
/// logical pixels: below the toolbar, as wide as the window, never lower
/// than one pixel. The toolbar lies above it, `UI_BAR_HEIGHT` high.
pub fn login_rect(width: i32, height: i32) -> (r: RectTuple)
    ensures
        r == spec_projector_rect(width, height, UI_BAR_HEIGHT),
{
    projector_rect(width, height, UI_BAR_HEIGHT)
}

/// The place of the toolbar in a window of `width` logical pixels: at the
/// top, as wide as the window, `UI_BAR_HEIGHT` high.
pub fn toolbar_rect(width: i32) -> (r: RectTuple)
    ensures
        r == (0i32, 0i32, width, UI_BAR_HEIGHT),
{
    (0, 0, width, UI_BAR_HEIGHT)
}

/// Fitting is idempotent: once a resize has been applied, the same resize
/// has nothing to perform and changes nothing.
pub proof fn lemma_resize_idempotent(
    s: AppStateView,
    client: Option<(i32, i32)>,
    inner: Option<(u32, u32)>,
    bar_height: i32,
)
    ensures
        resize_commands(resized(s, client, inner, bar_height), client, inner, bar_height)
            =~= Seq::<WindowCommand>::empty(),
        resized(resized(s, client, inner, bar_height), client, inner, bar_height) == resized(
            s,
            client,
            inner,
            bar_height,
        ),
{
}

/// A resize that finds the place unchanged performs nothing, and one that
/// finds it changed performs exactly one move.
pub proof fn lemma_resize_moves_once(
    s: AppStateView,
    client: Option<(i32, i32)>,
    inner: Option<(u32, u32)>,
    bar_height: i32,
)
    ensures
        ({
            let commands = resize_commands(s, client, inner, bar_height);
            match resize_target(s, client, inner, bar_height) {
                Some((child, rect)) => {
                    &&& commands.len() == 2
                    &&& commands[0] == (WindowCommand::Move {
                        window: child,
                        x: rect.0,
                        y: rect.1,
                        w: rect.2,
                        h: rect.3,
                    })
                    &&& !(commands[1] is Move)
                },
                None => commands.len() == 0,
            }
        }),
{
}

/// At most one projector: a launch that begins while a projector is
/// embedded lets go of it before anything else, and a launch that ends well
/// leaves exactly the new one.
pub proof fn lemma_launch_replaces_projector(s: AppStateView)
    requires
        s.projector is Some,
    ensures
        launch_begin(s).0.projector is None,
        launch_begin(s).1 matches LaunchActionView::Teardown { teardown, .. } && teardown
            == teardown_of(s.projector->0),
{
}

/// Letting go undoes the embedding: the teardown of a projector whose
/// handle holds the style that its window had before it was attached
/// leaves the window with that style and without a parent.
pub proof fn lemma_teardown_restores_style(
    w: crate::embed_win32::WindowModel,
    process: ProjectorProcess,
    child: RawWindowId,
    host: RawWindowId,
)
    ensures
        ({
            let attached = crate::embed_win32::apply_all(
                w,
                attach_commands(child, host, w.style),
            );
            let handle = ProjectorHandle { process, hwnd: child, original_style: w.style };
            let restored = crate::embed_win32::apply_all(attached, teardown_of(handle).commands);
            restored.style == w.style && restored.parent is None
        }),
{
    crate::embed_win32::lemma_attach_detach_round_trip(w, child, host);
}

/// Every step keeps the state well formed. Only the step that finishes a
/// launch touches the projector: it leaves the launcher running, the
/// captured URL consumed and the launched URL kept. Any other step leaves
/// the state as it was or records a failure.
pub proof fn lemma_launch_step_keeps_wf(
    s: AppStateView,
    pending: LaunchActionView,
    event: LaunchEventView,
)
    requires
        s.wf(),
    ensures
        launch_next(s, pending, event).0.wf(),
        launch_next(s, pending, event).1 is Finish ==> {
            &&& launch_next(s, pending, event).0.status == AppStatus::Running
            &&& launch_next(s, pending, event).0.projector is Some
            &&& launch_next(s, pending, event).0.swf_url is None
            &&& launch_next(s, pending, event).0.launched_url is Some
        },
        !(launch_next(s, pending, event).1 is Finish) ==> {
            &&& launch_next(s, pending, event).0.projector == s.projector
            &&& (launch_next(s, pending, event).0 == s || launch_next(s, pending, event).0.status
                == AppStatus::Error)
        },
{
}

/// A launch consumes the captured URL and a relaunch finds it again: in the
/// state that a finished launch leaves, no URL is captured, a further
/// launch begins with the URL that was launched, and a well-formed state
/// with a projector always has a URL to change the channel with.
pub proof fn lemma_launch_consumes_url(
    s: AppStateView,
    handle: ProjectorHandle,
    qq_num: u64,
    url: Seq<char>,
)
    ensures
        running(s, handle, qq_num, url).swf_url is None,
        running(s, handle, qq_num, url).launch_url() == Some(url),
        launch_begin(running(s, handle, qq_num, url)).1 matches LaunchActionView::Teardown {
            held_url,
            ..
        } && held_url == Some(url),
        spec_change_channel(running(s, handle, qq_num, url)) == ChannelPlan::Relaunch,
        s.wf() && s.projector is Some ==> spec_change_channel(s) == ChannelPlan::Relaunch,
{
}

/// Only a reset leaves `Error`: no step of a launch that fails, no resize
/// and no stop without a projector changes an `Error` status.
pub proof fn lemma_error_is_sticky(
    s: AppStateView,
    client: Option<(i32, i32)>,
    inner: Option<(u32, u32)>,
    bar_height: i32,
)
    requires
        s.status == AppStatus::Error,
    ensures
        resized(s, client, inner, bar_height).status == AppStatus::Error,
        s.projector is None ==> spec_stop_projector(s) == s,
        reset(s).status == AppStatus::Login,
{
}

} // verus!
