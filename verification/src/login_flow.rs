//! The login flow of the front end that watches the login window's address
//! instead of its responses: the login window is embedded in the host, its
//! address is polled until it names the game's main asset, and the
//! projector is then started with that address and embedded in turn.

use crate::config::CoreConfig;
use crate::embed_win32::WindowCommand;
use crate::process::ProcessHandle;
use crate::projector::PathProbe;
use crate::text::{bytes_occur_at, contains_bytes, find_bytes, occurs_at};
use crate::window_embed::{detach, placing, set_child_rect, EmbedRect, RawHwnd};
use std::path::PathBuf;
use vstd::prelude::*;
use vstd::string::*;

verus! {

/// How long the flow waits for the login to succeed, in milliseconds.
pub const LOGIN_TIMEOUT_MS: u64 = 180_000;

/// How often the login window's address is looked at, in milliseconds.
pub const LOGIN_POLL_MS: u64 = 200;

/// How long the flow waits for the projector's window, in milliseconds.
pub const PROJECTOR_WINDOW_TIMEOUT_MS: u64 = 10_000;

/// How often the projector is probed once it runs, in milliseconds.
pub const LIVENESS_POLL_MS: u64 = 500;

/// What is embedded at the moment, and where.
#[derive(Debug)]
pub struct EmbedState {
    pub login_in_progress: bool,
    pub login_hwnd: Option<RawHwnd>,
    pub login_old_style: Option<isize>,
    pub projector_hwnd: Option<RawHwnd>,
    pub projector_old_style: Option<isize>,
    pub projector_handle: Option<ProcessHandle>,
    pub login_rect: Option<EmbedRect>,
    pub game_rect: Option<EmbedRect>,
}

impl Default for EmbedState {
    fn default() -> (r: Self)
        ensures
            !r.login_in_progress,
            r.login_hwnd is None,
            r.login_old_style is None,
            r.projector_hwnd is None,
            r.projector_old_style is None,
            r.projector_handle is None,
            r.login_rect is None,
            r.game_rect is None,
    {
        EmbedState {
            login_in_progress: false,
            login_hwnd: None,
            login_old_style: None,
            projector_hwnd: None,
            projector_old_style: None,
            projector_handle: None,
            login_rect: None,
            game_rect: None,
        }
    }
}

/// The status that the front end is told.
#[derive(Clone, Copy, Debug, PartialEq, Eq, Structural)]
pub enum LoginStatus {
    Waiting,
    Launching,
    Running,
    Error,
    Login,
}

impl LoginStatus {
    pub open spec fn spec_as_str(self) -> Seq<char> {
        match self {
            LoginStatus::Waiting => "Waiting"@,
            LoginStatus::Launching => "Launching"@,
            LoginStatus::Running => "Running"@,
            LoginStatus::Error => "Error"@,
            LoginStatus::Login => "Login"@,
        }
    }

    pub fn as_str(&self) -> (r: &'static str)
        ensures
            r@ == self.spec_as_str(),
    {
        match self {
            LoginStatus::Waiting => "Waiting",
            LoginStatus::Launching => "Launching",
            LoginStatus::Running => "Running",
            LoginStatus::Error => "Error",
            LoginStatus::Login => "Login",
        }
    }
}

/// `text` ends with `suffix`.
pub open spec fn ends_with(text: Seq<u8>, suffix: Seq<u8>) -> bool {
    suffix.len() <= text.len() && occurs_at(text, text.len() - suffix.len(), suffix)
}

/// An address is that of the game's main asset if it holds `main.swf` and
/// its host, if it has one, ends with `qq.com`.
pub open spec fn is_main_swf(raw: Seq<u8>, host: Option<Seq<u8>>) -> bool {
    &&& contains_bytes(raw, "main.swf".spec_bytes())
    &&& match host {
        Some(h) => ends_with(h, "qq.com".spec_bytes()),
        None => true,
    }
}

/// Recognises the address of the game's main asset. `raw` is the address as
/// text, `host` its host. Returns the address where it is one.
pub fn match_main_swf(raw: &str, host: Option<&str>) -> (r: Option<String>)
    ensures
        match r {
            Some(url) => url@ == raw@ && is_main_swf(
                raw.spec_bytes(),
                match host {
                    Some(h) => Some(h.spec_bytes()),
                    None => None,
                },
            ),
            None => !is_main_swf(
                raw.spec_bytes(),
                match host {
                    Some(h) => Some(h.spec_bytes()),
                    None => None,
                },
            ),
        },
{
    if find_bytes(raw.as_bytes(), "main.swf".as_bytes()).is_none() {
        return None;
    }
    match host {
        Some(h) => {
            let text = h.as_bytes();
            let suffix = "qq.com".as_bytes();
            if suffix.len() > text.len() || !bytes_occur_at(text, text.len() - suffix.len(), suffix) {
                return None;
            }
        },
        None => {},
    }
    Some(raw.to_owned())
}

/// Opens a login: there is at most one at a time.
pub fn begin_login(state: &mut EmbedState) -> (r: Result<(), String>)
    ensures
        match r {
            Ok(_) => !old(state).login_in_progress && final(state).login_in_progress,
            Err(message) => old(state).login_in_progress && message@
                == "login already in progress"@,
        },
        final(state).login_hwnd == old(state).login_hwnd,
        final(state).login_old_style == old(state).login_old_style,
        final(state).projector_hwnd == old(state).projector_hwnd,
        final(state).projector_old_style == old(state).projector_old_style,
        final(state).projector_handle == old(state).projector_handle,
        final(state).login_rect == old(state).login_rect,
        final(state).game_rect == old(state).game_rect,
        r is Err ==> final(state).login_in_progress,
{
    if state.login_in_progress {
        return Err("login already in progress".to_owned());
    }
    state.login_in_progress = true;
    Ok(())
}

/// Gives up a login that could not open its window.
pub fn abandon_login(state: &mut EmbedState)
    ensures
        !final(state).login_in_progress,
        final(state).login_hwnd == old(state).login_hwnd,
        final(state).login_old_style == old(state).login_old_style,
        final(state).projector_hwnd == old(state).projector_hwnd,
        final(state).projector_old_style == old(state).projector_old_style,
        final(state).projector_handle == old(state).projector_handle,
        final(state).login_rect == old(state).login_rect,
        final(state).game_rect == old(state).game_rect,
{
    state.login_in_progress = false;
}

/// Records the embedded login window and the style it had. Returns the
/// commands that give it the place that was asked for, if one was.
pub fn login_attached(state: &mut EmbedState, login_hwnd: RawHwnd, old_style: isize) -> (r: Vec<
    WindowCommand,
>)
    ensures
        final(state).login_hwnd == Some(login_hwnd),
        final(state).login_old_style == Some(old_style),
        final(state).login_in_progress == old(state).login_in_progress,
        final(state).login_rect == old(state).login_rect,
        final(state).game_rect == old(state).game_rect,
        final(state).projector_hwnd == old(state).projector_hwnd,
        final(state).projector_old_style == old(state).projector_old_style,
        final(state).projector_handle == old(state).projector_handle,
        r@ == placing(Some(login_hwnd), old(state).login_rect),
{
    state.login_hwnd = Some(login_hwnd);
    state.login_old_style = Some(old_style);
    match state.login_rect {
        Some(rect) => set_child_rect(login_hwnd, rect),
        None => Vec::new(),
    }
}

/// Remembers the place of the login window. Returns the commands that
/// apply it, if the window is embedded.
pub fn set_login_rect(state: &mut EmbedState, rect: EmbedRect) -> (r: Vec<WindowCommand>)
    ensures
        final(state).login_rect == Some(rect),
        final(state).login_hwnd == old(state).login_hwnd,
        final(state).login_in_progress == old(state).login_in_progress,
        final(state).login_old_style == old(state).login_old_style,
        final(state).game_rect == old(state).game_rect,
        final(state).projector_hwnd == old(state).projector_hwnd,
        final(state).projector_old_style == old(state).projector_old_style,
        final(state).projector_handle == old(state).projector_handle,
        r@ == placing(old(state).login_hwnd, Some(rect)),
{
    state.login_rect = Some(rect);
    match state.login_hwnd {
        Some(hwnd) => set_child_rect(hwnd, rect),
        None => Vec::new(),
    }
}

/// Remembers the place of the game. Returns the commands that apply it, if
/// the projector is embedded.
pub fn set_game_rect(state: &mut EmbedState, rect: EmbedRect) -> (r: Vec<WindowCommand>)
    ensures
        final(state).game_rect == Some(rect),
        final(state).login_rect == old(state).login_rect,
        final(state).login_hwnd == old(state).login_hwnd,
        final(state).login_in_progress == old(state).login_in_progress,
        final(state).login_old_style == old(state).login_old_style,
        final(state).projector_hwnd == old(state).projector_hwnd,
        final(state).projector_old_style == old(state).projector_old_style,
        final(state).projector_handle == old(state).projector_handle,
        r@ == placing(old(state).projector_hwnd, Some(rect)),
{
    state.game_rect = Some(rect);
    match state.projector_hwnd {
        Some(hwnd) => set_child_rect(hwnd, rect),
        None => Vec::new(),
    }
}

/// What one look at the login window amounts to.
#[derive(Debug)]
pub enum LoginPoll {
    /// Nothing yet: look again after `LOGIN_POLL_MS`.
    Wait,
    /// The time is up: close the window and report the timeout.
    TimedOut,
    /// The address names the main asset: close the window and launch.
    Matched(String),
}

/// One look at the login window, `elapsed_ms` after the flow began.
/// `current` is the window's address and its host, if the address is to be
/// had. The timeout counts before the address.
pub fn login_tick(elapsed_ms: u64, current: Option<(&str, Option<&str>)>) -> (r: LoginPoll)
    ensures
        elapsed_ms > LOGIN_TIMEOUT_MS ==> r is TimedOut,
        elapsed_ms <= LOGIN_TIMEOUT_MS ==> match current {
            None => r is Wait,
            Some((raw, host)) => {
                let host_bytes = match host {
                    Some(h) => Some(h.spec_bytes()),
                    None => None,
                };
                if is_main_swf(raw.spec_bytes(), host_bytes) {
                    r matches LoginPoll::Matched(url) && url@ == raw@
                } else {
                    r is Wait
                }
            },
        },
{
    if elapsed_ms > LOGIN_TIMEOUT_MS {
        return LoginPoll::TimedOut;
    }
    match current {
        Some((raw, host)) => match match_main_swf(raw, host) {
            Some(url) => LoginPoll::Matched(url),
            None => LoginPoll::Wait,
        },
        None => LoginPoll::Wait,
    }
}

/// Whether the closing of the login window ends the flow: it does unless
/// the flow has closed the window itself.
pub fn login_window_closed(finished: bool) -> (r: bool)
    ensures
        r == !finished,
{
    !finished
}

/// Ends a login, however it went: no login is in progress and the login
/// window is forgotten.
pub fn end_login(state: &mut EmbedState)
    ensures
        !final(state).login_in_progress,
        final(state).login_hwnd is None,
        final(state).login_old_style is None,
        final(state).login_rect == old(state).login_rect,
        final(state).game_rect == old(state).game_rect,
        final(state).projector_hwnd == old(state).projector_hwnd,
        final(state).projector_old_style == old(state).projector_old_style,
        final(state).projector_handle == old(state).projector_handle,
{
    state.login_in_progress = false;
    state.login_hwnd = None;
    state.login_old_style = None;
}

/// Records the process of the projector that has been started.
pub fn projector_started(state: &mut EmbedState, handle: ProcessHandle)
    ensures
        final(state).projector_handle == Some(handle),
        final(state).login_in_progress == old(state).login_in_progress,
        final(state).login_hwnd == old(state).login_hwnd,
        final(state).login_old_style == old(state).login_old_style,
        final(state).login_rect == old(state).login_rect,
        final(state).game_rect == old(state).game_rect,
        final(state).projector_hwnd == old(state).projector_hwnd,
        final(state).projector_old_style == old(state).projector_old_style,
{
    state.projector_handle = Some(handle);
}

/// Records the embedded projector window and the style it had. Returns the
/// commands that give it the place that was asked for, if one was.
pub fn projector_attached(state: &mut EmbedState, hwnd: RawHwnd, old_style: isize) -> (r: Vec<
    WindowCommand,
>)
    ensures
        final(state).projector_hwnd == Some(hwnd),
        final(state).projector_old_style == Some(old_style),
        final(state).projector_handle == old(state).projector_handle,
        final(state).login_in_progress == old(state).login_in_progress,
        final(state).login_hwnd == old(state).login_hwnd,
        final(state).login_old_style == old(state).login_old_style,
        final(state).login_rect == old(state).login_rect,
        final(state).game_rect == old(state).game_rect,
        r@ == placing(Some(hwnd), old(state).game_rect),
{
    state.projector_hwnd = Some(hwnd);
    state.projector_old_style = Some(old_style);
    match state.game_rect {
        Some(rect) => set_child_rect(hwnd, rect),
        None => Vec::new(),
    }
}

/// What stopping the game asks of the application.
#[derive(Debug)]
pub struct StopGame {
    /// The process to stop, if one was started.
    pub handle: Option<ProcessHandle>,
    /// The commands that restore the projector's window, if it was
    /// embedded and its style is known.
    pub commands: Vec<WindowCommand>,
}

/// Stops the game: the projector's process and window leave the state.
pub fn stop_game(state: &mut EmbedState) -> (r: StopGame)
    ensures
        r.handle == old(state).projector_handle,
        final(state).projector_handle is None,
        final(state).projector_hwnd is None,
        final(state).projector_old_style == if old(state).projector_hwnd is Some {
            None
        } else {
            old(state).projector_old_style
        },
        (old(state).projector_hwnd is Some && old(state).projector_old_style is Some) <==> r.commands@.len()
            > 0,
        r.commands@.len() > 0 ==> r.commands@ == seq![
            WindowCommand::SetParent {
                window: crate::state::RawWindowId(old(state).projector_hwnd->0),
                parent: None,
            },
            WindowCommand::SetStyle {
                window: crate::state::RawWindowId(old(state).projector_hwnd->0),
                style: old(state).projector_old_style->0,
            },
        ],
        final(state).login_in_progress == old(state).login_in_progress,
        final(state).login_hwnd == old(state).login_hwnd,
        final(state).login_old_style == old(state).login_old_style,
        final(state).login_rect == old(state).login_rect,
        final(state).game_rect == old(state).game_rect,
{
    let handle = state.projector_handle;
    state.projector_handle = None;
    let mut commands: Vec<WindowCommand> = Vec::new();
    match state.projector_hwnd {
        Some(hwnd) => {
            state.projector_hwnd = None;
            match state.projector_old_style {
                Some(old_style) => {
                    state.projector_old_style = None;
                    commands = detach(hwnd, old_style);
                },
                None => {},
            }
        },
        None => {},
    }
    StopGame { handle, commands }
}

/// Whether the watch over the projector goes on, given whether its process
/// runs. It ends when no process is recorded or the process has ended; in
/// the latter case the front end is told `Login`.
pub fn liveness_step(state: &EmbedState, running: bool) -> (r: (bool, Option<LoginStatus>))
    ensures
        r.0 == (state.projector_handle is Some && running),
        r.1 == if state.projector_handle is Some && !running {
            Some(LoginStatus::Login)
        } else {
            None
        },
{
    match state.projector_handle {
        Some(_) => if running {
            (true, None)
        } else {
            (false, Some(LoginStatus::Login))
        },
        None => (false, None),
    }
}

/// Where the projector is: the configured path if there is one, else the
/// file in the resource directory if it is there. `resource` is `None`
/// where the resource directory is not to be had.
pub fn resolve_projector_path(cfg: &CoreConfig, resource: Option<PathProbe>) -> (r: Result<
    PathBuf,
    String,
>)
    ensures
        match cfg.launcher.projector_path {
            Some(path) => r == Ok::<PathBuf, String>(path),
            None => match resource {
                None => r matches Err(m) && m@ == "无法定位资源目录"@,
                Some(probe) => if probe.exists {
                    r == Ok::<PathBuf, String>(probe.path)
                } else {
                    r matches Err(m) && m@ == "projector.exe 未找到，请在资源目录中提供"@
                },
            },
        },
{
    match &cfg.launcher.projector_path {
        Some(path) => {
            return Ok(path.clone());
        },
        None => {},
    }
    match resource {
        None => Err("无法定位资源目录".to_owned()),
        Some(probe) => if probe.exists {
            Ok(probe.path)
        } else {
            Err("projector.exe 未找到，请在资源目录中提供".to_owned())
        },
    }
}

} // verus!
