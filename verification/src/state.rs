//! The launcher's single piece of mutable state and the values it is made
//! of. The application keeps one `AppState` behind one lock; every transition
//! in this crate takes it by `&mut`.

use vstd::prelude::*;

verus! {

/// Where the launcher stands. There is exactly one status at any time.
#[derive(Clone, Copy, Debug, PartialEq, Eq, Structural)]
pub enum AppStatus {
    /// Idle, the login surface is shown.
    Login,
    /// A capture session is open and its timeout watcher is armed.
    Capturing,
    /// A captured URL has just been accepted.
    FoundValue,
    /// The projector is being started and embedded.
    Launching,
    /// The projector is embedded and interactive.
    Running,
    /// Something failed; left only by an explicit reset.
    Error,
}

/// The look of the user interface.
#[derive(Clone, Copy, Debug, PartialEq, Eq, Structural)]
pub enum ThemeMode {
    Dark,
    Light,
}

impl ThemeMode {
    pub open spec fn spec_as_str(self) -> Seq<char> {
        match self {
            ThemeMode::Dark => "dark"@,
            ThemeMode::Light => "light"@,
        }
    }

    pub fn as_str(&self) -> (r: &'static str)
        ensures
            r@ == self.spec_as_str(),
    {
        match self {
            ThemeMode::Dark => "dark",
            ThemeMode::Light => "light",
        }
    }
}

/// White space as Unicode defines it.
pub open spec fn is_white_space(c: char) -> bool {
    let n = c as u32;
    (0x09 <= n <= 0x0D) || n == 0x20 || n == 0x85 || n == 0xA0 || n == 0x1680 || (0x2000 <= n
        <= 0x200A) || n == 0x2028 || n == 0x2029 || n == 0x202F || n == 0x205F || n == 0x3000
}

/// `c` with an upper-case ASCII letter replaced by its lower-case form.
pub open spec fn lower_char(c: char) -> char {
    if 'A' <= c <= 'Z' {
        ((c as u32) + 0x20) as char
    } else {
        c
    }
}

/// Where the text begins once leading white space is cut from `text[..end]`.
pub open spec fn text_start(text: Seq<char>, from: int, end: int) -> int
    decreases end - from,
{
    if 0 <= from < end <= text.len() && is_white_space(text[from]) {
        text_start(text, from + 1, end)
    } else {
        from
    }
}

/// Where the text ends once trailing white space is cut.
pub open spec fn text_end(text: Seq<char>, end: int) -> int
    decreases end,
{
    if 0 < end <= text.len() && is_white_space(text[end - 1]) {
        text_end(text, end - 1)
    } else {
        end
    }
}

/// Whether `text`, without the white space around it, is `word` in any
/// letter case. `word` is in lower case.
pub open spec fn is_word(text: Seq<char>, word: Seq<char>) -> bool {
    let end = text_end(text, text.len() as int);
    let start = text_start(text, 0, end);
    &&& end - start == word.len()
    &&& forall|i: int| 0 <= i < word.len() ==> lower_char(#[trigger] text[start + i]) == word[i]
}

/// The theme that `theme` names: `dark` or `light`, in any letter case,
/// white space around it aside.
pub open spec fn spec_parse_theme_mode(theme: Seq<char>) -> Option<ThemeMode> {
    if is_word(theme, "dark"@) {
        Some(ThemeMode::Dark)
    } else if is_word(theme, "light"@) {
        Some(ThemeMode::Light)
    } else {
        None
    }
}

fn white_space(c: char) -> (r: bool)
    ensures
        r == is_white_space(c),
{
    let n = c as u32;
    (0x09 <= n && n <= 0x0D) || n == 0x20 || n == 0x85 || n == 0xA0 || n == 0x1680 || (0x2000 <= n
        && n <= 0x200A) || n == 0x2028 || n == 0x2029 || n == 0x202F || n == 0x205F || n == 0x3000
}

fn to_lower_char(c: char) -> (r: char)
    ensures
        r == lower_char(c),
{
    if 'A' <= c && c <= 'Z' {
        let n = ((c as u32) + 0x20) as u8;
        n as char
    } else {
        c
    }
}

fn word_in(text: &str, word: &str) -> (r: bool)
    ensures
        r == is_word(text@, word@),
{
    let len = text.unicode_len();
    let mut end = len;
    while end > 0 && white_space(text.get_char(end - 1))
        invariant
            end <= len,
            len == text@.len(),
            text_end(text@, len as int) == text_end(text@, end as int),
        decreases end,
    {
        end -= 1;
    }
    let mut start: usize = 0;
    while start < end && white_space(text.get_char(start))
        invariant
            start <= end <= len,
            len == text@.len(),
            text_start(text@, 0, end as int) == text_start(text@, start as int, end as int),
        decreases end - start,
    {
        start += 1;
    }
    assert(end == text_end(text@, text@.len() as int));
    assert(start == text_start(text@, 0, end as int));
    let n = word.unicode_len();
    if end - start != n {
        return false;
    }
    let mut i: usize = 0;
    while i < n
        invariant
            i <= n,
            n == word@.len(),
            start + n == end,
            end <= text@.len(),
            end == text_end(text@, text@.len() as int),
            start == text_start(text@, 0, end as int),
            forall|k: int| 0 <= k < i ==> lower_char(#[trigger] text@[start + k]) == word@[k],
        decreases n - i,
    {
        if to_lower_char(text.get_char(start + i)) != word.get_char(i) {
            return false;
        }
        i += 1;
    }
    true
}

/// Reads the name of a theme.
pub fn parse_theme_mode(theme: &str) -> (r: Option<ThemeMode>)
    ensures
        r == spec_parse_theme_mode(theme@),
{
    if word_in(theme, "dark") {
        Some(ThemeMode::Dark)
    } else if word_in(theme, "light") {
        Some(ThemeMode::Light)
    } else {
        None
    }
}

/// The script that gives a page the look of a theme.
pub fn theme_class_script(mode: ThemeMode) -> (r: &'static str)
    ensures
        r@ == match mode {
            ThemeMode::Dark => "document.body.classList.remove('light');"@,
            ThemeMode::Light => "document.body.classList.add('light');"@,
        },
{
    match mode {
        ThemeMode::Dark => "document.body.classList.remove('light');",
        ThemeMode::Light => "document.body.classList.add('light');",
    }
}

/// What observers are told on every transition.
#[derive(Debug)]
pub struct StatusPayload {
    pub status: AppStatus,
    pub message: Option<String>,
}

/// A `StatusPayload` with its message as a sequence of characters.
pub struct StatusPayloadView {
    pub status: AppStatus,
    pub message: Option<Seq<char>>,
}

impl View for StatusPayload {
    type V = StatusPayloadView;

    open spec fn view(&self) -> StatusPayloadView {
        StatusPayloadView { status: self.status, message: text_view(self.message) }
    }
}

/// An opaque identifier of a native window. It is handed back to the
/// windowing system and compared for equality, nothing else.
#[derive(Clone, Copy, Debug, PartialEq, Eq, Structural)]
pub struct RawWindowId(pub isize);

/// The started projector process: the operating system's handle to it, as an
/// opaque integer, and its process id.
#[derive(Clone, Copy, Debug, PartialEq, Eq, Structural)]
pub struct ProjectorProcess {
    pub handle: isize,
    pub pid: u32,
}

/// An embedded projector: its process, its window, and the style bits its
/// window had before it was embedded. The style bits are the only record
/// from which the window can be restored.
#[derive(Clone, Copy, Debug, PartialEq, Eq, Structural)]
pub struct ProjectorHandle {
    pub process: ProjectorProcess,
    pub hwnd: RawWindowId,
    pub original_style: isize,
}

/// The cancellation handle of a capture session's timeout watcher. A watcher
/// remembers the number of the session that armed it; it may act only while
/// the state still holds the flag of that session, not cancelled.
#[derive(Clone, Copy, Debug, PartialEq, Eq, Structural)]
pub struct CancellationFlag {
    pub session: u64,
    pub cancelled: bool,
}

/// A rectangle in the host window's physical pixels: x, y, width, height.
pub type RectTuple = (i32, i32, i32, i32);

/// The state of the launcher. There is one for the lifetime of the
/// application.
pub struct AppState {
    pub status: AppStatus,
    /// The last human-readable detail of the status.
    pub message: Option<String>,
    pub theme_mode: ThemeMode,
    /// The captured asset URL; set once per capture session and cleared
    /// when a launch has consumed it.
    pub swf_url: Option<String>,
    /// The URL with which the projector was launched last; kept beside the
    /// projector for a relaunch.
    pub launched_url: Option<String>,
    /// The flag of the capture session in flight, if any.
    pub capture_stop: Option<CancellationFlag>,
    /// Present while a projector is embedded.
    pub projector: Option<ProjectorHandle>,
    /// The geometry last applied to the embedded window.
    pub last_projector_rect: Option<RectTuple>,
    /// The account number read from the asset URL at launch.
    pub qq_num: Option<u64>,
    /// How many capture sessions have been opened; the number of the latest.
    pub capture_sessions: u64,
}

/// An `AppState` with its texts as sequences of characters: what the
/// contracts speak of.
pub struct AppStateView {
    pub status: AppStatus,
    pub message: Option<Seq<char>>,
    pub theme_mode: ThemeMode,
    pub swf_url: Option<Seq<char>>,
    pub launched_url: Option<Seq<char>>,
    pub capture_stop: Option<CancellationFlag>,
    pub projector: Option<ProjectorHandle>,
    pub last_projector_rect: Option<RectTuple>,
    pub qq_num: Option<u64>,
    pub capture_sessions: u64,
}

impl View for AppState {
    type V = AppStateView;

    open spec fn view(&self) -> AppStateView {
        AppStateView {
            status: self.status,
            message: text_view(self.message),
            theme_mode: self.theme_mode,
            swf_url: text_view(self.swf_url),
            launched_url: text_view(self.launched_url),
            capture_stop: self.capture_stop,
            projector: self.projector,
            last_projector_rect: self.last_projector_rect,
            qq_num: self.qq_num,
            capture_sessions: self.capture_sessions,
        }
    }
}

/// The characters of an optional string.
pub open spec fn text_view(s: Option<String>) -> Option<Seq<char>> {
    match s {
        Some(t) => Some(t@),
        None => None,
    }
}

impl AppStateView {
    /// The state of a freshly started application.
    pub open spec fn initial() -> AppStateView {
        AppStateView {
            status: AppStatus::Login,
            message: None,
            theme_mode: ThemeMode::Dark,
            swf_url: None,
            launched_url: None,
            capture_stop: None,
            projector: None,
            last_projector_rect: None,
            qq_num: None,
            capture_sessions: 0,
        }
    }

    /// What every transition keeps true: a running launcher has a projector,
    /// an embedded projector has the URL it was launched with, geometry is
    /// remembered only for an embedded window, and a capture flag belongs to
    /// the latest session.
    pub open spec fn wf(self) -> bool {
        &&& self.status == AppStatus::Running ==> self.projector is Some
        &&& self.projector is Some ==> self.launched_url is Some
        &&& self.last_projector_rect is Some ==> self.projector is Some
        &&& self.capture_stop matches Some(flag) ==> flag.session == self.capture_sessions
    }

    /// The URL that a launch begins with: the captured one where there is
    /// one, else the one of the last launch.
    pub open spec fn launch_url(self) -> Option<Seq<char>> {
        match self.swf_url {
            Some(url) => Some(url),
            None => self.launched_url,
        }
    }

    /// The payload that announces this state.
    pub open spec fn payload(self) -> StatusPayloadView {
        StatusPayloadView { status: self.status, message: self.message }
    }

    /// This state with `status` and `message` replaced.
    pub open spec fn with_status(self, status: AppStatus, message: Option<Seq<char>>) -> AppStateView {
        AppStateView { status, message, ..self }
    }

    /// The state after a failure: status `Error` with the reason as message,
    /// nothing else touched.
    pub open spec fn failed(self, reason: Seq<char>) -> AppStateView {
        self.with_status(AppStatus::Error, Some(reason))
    }
}

/// A copy of an optional string.
pub fn clone_text(s: &Option<String>) -> (r: Option<String>)
    ensures
        text_view(r) == text_view(*s),
{
    match s {
        Some(t) => Some(t.clone()),
        None => None,
    }
}

impl AppState {
    /// The state of a freshly started application: idle, nothing captured,
    /// nothing embedded.
    pub fn new() -> (r: AppState)
        ensures
            r@ == AppStateView::initial(),
            r@.wf(),
    {
        AppState {
            status: AppStatus::Login,
            message: None,
            theme_mode: ThemeMode::Dark,
            swf_url: None,
            launched_url: None,
            capture_stop: None,
            projector: None,
            last_projector_rect: None,
            qq_num: None,
            capture_sessions: 0,
        }
    }
}

/// Sets the theme by its name. A name that is no theme changes nothing and
/// is refused.
pub fn set_theme_mode(state: &mut AppState, theme: &str) -> (r: Result<ThemeMode, String>)
    ensures
        match spec_parse_theme_mode(theme@) {
            Some(mode) => r == Ok::<ThemeMode, String>(mode) && final(state)@ == (AppStateView {
                theme_mode: mode,
                ..old(state)@
            }),
            None => {
                &&& r matches Err(m) && m@ == "Invalid theme. Use 'dark' or 'light'."@
                &&& final(state)@ == old(state)@
            },
        },
{
    match parse_theme_mode(theme) {
        Some(mode) => {
            state.theme_mode = mode;
            Ok(mode)
        },
        None => Err("Invalid theme. Use 'dark' or 'light'.".to_owned()),
    }
}

/// The payload that announces `state` to observers: its status and message.
pub fn status_payload(state: &AppState) -> (r: StatusPayload)
    ensures
        r@ == state@.payload(),
{
    StatusPayload { status: state.status, message: clone_text(&state.message) }
}

/// Records a failure: the status becomes `Error` and `reason` the message.
/// Returns the payload to announce.
pub fn set_error(state: &mut AppState, reason: String) -> (r: StatusPayload)
    ensures
        final(state)@ == old(state)@.failed(reason@),
        r@ == final(state)@.payload(),
        old(state)@.wf() ==> final(state)@.wf(),
{
    state.status = AppStatus::Error;
    state.message = Some(reason);
    status_payload(state)
}

} // verus!
