//! The capture protocol: reading the login response, validating the captured
//! value, building the asset URL, and admitting it into the state exactly
//! once per capture session.
//!
//! A capture session runs from `start` to an accepted value, a timeout or a
//! `stop`. The response bodies, the clock and the nonce come from outside;
//! every decision is taken here.

use crate::flash_vars::{
    all_letters, extract_attr_value, lemma_name_case_is_irrelevant, lemma_no_name_no_value,
    lemma_unescape_makes_no_name, matches_ignore_case_at, spec_extract_attr_value,
    spec_unescape_source, unescape_source,
};
use crate::redact::{
    append_bytes, redact_swf_url, redact_tokens, sample_response, spec_redact_swf_url,
    spec_redact_text, spec_sample_response,
};
use crate::state::{
    status_payload, AppState, AppStateView, AppStatus, CancellationFlag, StatusPayload,
    StatusPayloadView,
};
use crate::text::{
    ascii_lower, bytes_from, contains_bytes, find_bytes, first_occurrence, latin1, latin1_string,
    occurs_at, AMPERSAND, QUESTION_MARK,
};
use vstd::prelude::*;
use vstd::string::*;

verus! {

/// How long a capture session waits for a value, in milliseconds.
pub const CAPTURE_TIMEOUT_MS: u64 = 180_000;

/// How long the timeout watcher sleeps between two looks at its flag, in
/// milliseconds.
pub const WATCHER_POLL_MS: u64 = 250;

/// How many bytes of a response body are read at most.
pub const MAX_RESPONSE_BYTES: usize = 1_500_000;

/// The path marker of the one endpoint whose responses are read.
pub open spec fn login3_path_needle() -> Seq<u8> {
    "/fcgi-bin/login3".spec_bytes()
}

/// The script marker after which the attribute is looked for first.
pub open spec fn script_anchor() -> Seq<u8> {
    "function swf".spec_bytes()
}

/// The part of a document that is searched first: from the script marker on
/// if the document has one, the whole document otherwise.
pub open spec fn search_window(html: Seq<u8>) -> Seq<u8> {
    match first_occurrence(html, script_anchor()) {
        Some(at) => html.skip(at),
        None => html,
    }
}

/// The first of two optional values that is there.
pub open spec fn first_some(a: Option<Seq<u8>>, b: Option<Seq<u8>>) -> Option<Seq<u8>> {
    match a {
        Some(v) => Some(v),
        None => b,
    }
}

/// The value of the `flashVars` attribute of `text`, under either spelling.
pub open spec fn flash_vars_in(text: Seq<u8>) -> Option<Seq<u8>> {
    first_some(
        spec_extract_attr_value(text, "flashVars".spec_bytes()),
        spec_extract_attr_value(text, "FlashVars".spec_bytes()),
    )
}

/// The captured value of a login response: the attribute's value in the
/// search window, else in the whole document, else in the whole document
/// with one level of backslash escapes removed.
pub open spec fn spec_parse_login3_value(html: Seq<u8>) -> Option<Seq<u8>> {
    first_some(
        flash_vars_in(search_window(html)),
        first_some(flash_vars_in(html), flash_vars_in(spec_unescape_source(html))),
    )
}

/// A captured value is usable if it names a configuration and an identity.
pub open spec fn has_required_params(value: Seq<u8>) -> bool {
    contains_bytes(value, "config=".spec_bytes()) && contains_bytes(
        value,
        "angel_uin=".spec_bytes(),
    )
}

/// White space of a value read one character per byte: the ASCII controls
/// 0x09 to 0x0D, the space, the next-line control 0x85 and the no-break
/// space 0xA0.
pub open spec fn is_value_space(b: u8) -> bool {
    (0x09 <= b <= 0x0D) || b == 0x20 || b == 0x85 || b == 0xA0
}

/// The end of `text[..end]` once trailing white space is cut.
pub open spec fn trim_end(text: Seq<u8>, end: int) -> int
    decreases end,
{
    if 0 < end <= text.len() && is_value_space(text[end - 1]) {
        trim_end(text, end - 1)
    } else {
        end
    }
}

/// The first offset in `from..end` that holds no white space, or `end`.
pub open spec fn trim_start(text: Seq<u8>, from: int, end: int) -> int
    decreases end - from,
{
    if 0 <= from < end <= text.len() && is_value_space(text[from]) {
        trim_start(text, from + 1, end)
    } else {
        from
    }
}

/// The first offset in `from..end` that does not hold `b`, or `end`.
pub open spec fn skip_run(text: Seq<u8>, from: int, end: int, b: u8) -> int
    decreases end - from,
{
    if 0 <= from < end <= text.len() && text[from] == b {
        skip_run(text, from + 1, end, b)
    } else {
        from
    }
}

/// The parameter blob of a value: the value without surrounding white
/// space, then without leading `?`, then without leading `&`.
pub open spec fn trimmed_params(value: Seq<u8>) -> Seq<u8> {
    let end = trim_end(value, value.len() as int);
    let start = trim_start(value, 0, end);
    let after_marks = skip_run(value, start, end, QUESTION_MARK);
    let after_amps = skip_run(value, after_marks, end, AMPERSAND);
    value.subrange(after_amps, end)
}

/// The asset URL for a value: the fixed asset path, the nonce as the name of
/// an empty query parameter, and the parameter blob. There is none for a
/// value whose blob is empty.
pub open spec fn spec_build_swf_url(value: Seq<u8>, nonce: Seq<u8>) -> Option<Seq<u8>> {
    let params = trimmed_params(value);
    if params.len() == 0 {
        None
    } else {
        Some(
            "https://res.17roco.qq.com/main.swf?".spec_bytes() + nonce + "=&".spec_bytes()
                + params,
        )
    }
}

/// The characters of an optional byte string, one per byte.
pub open spec fn latin1_opt(bytes: Option<Seq<u8>>) -> Option<Seq<char>> {
    match bytes {
        Some(b) => Some(latin1(b)),
        None => None,
    }
}

/// The offsets at which a value is cut lie in order within the value.
pub proof fn lemma_trim_bounds(text: Seq<u8>)
    ensures
        ({
            let end = trim_end(text, text.len() as int);
            let start = trim_start(text, 0, end);
            let after_marks = skip_run(text, start, end, QUESTION_MARK);
            let after_amps = skip_run(text, after_marks, end, AMPERSAND);
            0 <= start <= after_marks <= after_amps <= end <= text.len()
        }),
{
    let end = trim_end(text, text.len() as int);
    lemma_trim_end_bounds(text, text.len() as int);
    lemma_trim_start_bounds(text, 0, end);
    let start = trim_start(text, 0, end);
    lemma_skip_run_bounds(text, start, end, QUESTION_MARK);
    let after_marks = skip_run(text, start, end, QUESTION_MARK);
    lemma_skip_run_bounds(text, after_marks, end, AMPERSAND);
}

proof fn lemma_trim_end_bounds(text: Seq<u8>, end: int)
    requires
        0 <= end <= text.len(),
    ensures
        0 <= trim_end(text, end) <= end,
    decreases end,
{
    if 0 < end && is_value_space(text[end - 1]) {
        lemma_trim_end_bounds(text, end - 1);
    }
}

proof fn lemma_trim_start_bounds(text: Seq<u8>, from: int, end: int)
    requires
        0 <= from <= end <= text.len(),
    ensures
        from <= trim_start(text, from, end) <= end,
    decreases end - from,
{
    if from < end && is_value_space(text[from]) {
        lemma_trim_start_bounds(text, from + 1, end);
    }
}

proof fn lemma_skip_run_bounds(text: Seq<u8>, from: int, end: int, b: u8)
    requires
        0 <= from <= end <= text.len(),
    ensures
        from <= skip_run(text, from, end, b) <= end,
    decreases end - from,
{
    if from < end && text[from] == b {
        lemma_skip_run_bounds(text, from + 1, end, b);
    }
}

fn value_space(b: u8) -> (r: bool)
    ensures
        r == is_value_space(b),
{
    (0x09 <= b && b <= 0x0D) || b == 0x20 || b == 0x85 || b == 0xA0
}

fn flash_vars(text: &[u8]) -> (r: Option<Vec<u8>>)
    ensures
        match r {
            Some(v) => flash_vars_in(text@) == Some(v@),
            None => flash_vars_in(text@) is None,
        },
{
    match extract_attr_value(text, "flashVars".as_bytes()) {
        Some(v) => Some(v),
        None => extract_attr_value(text, "FlashVars".as_bytes()),
    }
}

/// Finds the captured value in the bytes of a login response.
pub fn parse_login3_bytes(html: &[u8]) -> (r: Option<Vec<u8>>)
    ensures
        match r {
            Some(v) => spec_parse_login3_value(html@) == Some(v@),
            None => spec_parse_login3_value(html@) is None,
        },
{
    let window = match find_bytes(html, "function swf".as_bytes()) {
        Some(at) => {
            proof {
                assert(occurs_at(html@, at as int, script_anchor()));
            }
            bytes_from(html, at)
        },
        None => html,
    };
    if let Some(v) = flash_vars(window) {
        return Some(v);
    }
    if let Some(v) = flash_vars(html) {
        return Some(v);
    }
    let unescaped = unescape_source(html);
    flash_vars(unescaped.as_slice())
}

/// Finds the captured value in a login response.
///
/// The `flashVars` attribute is looked for after the script marker
/// `function swf` where the document has one, then in the whole document,
/// then in the whole document with one level of backslash escapes removed.
/// The value is returned with its own escapes resolved.
pub fn parse_login3_value(html: &str) -> (r: Option<String>)
    ensures
        crate::state::text_view(r) == latin1_opt(spec_parse_login3_value(html.spec_bytes())),
{
    match parse_login3_bytes(html.as_bytes()) {
        Some(v) => Some(latin1_string(v.as_slice())),
        None => None,
    }
}

/// Whether a captured value names both a configuration and an identity.
pub fn validate_value(value: &[u8]) -> (r: bool)
    ensures
        r == has_required_params(value@),
{
    find_bytes(value, "config=".as_bytes()).is_some() && find_bytes(
        value,
        "angel_uin=".as_bytes(),
    ).is_some()
}

/// Builds the asset URL from a captured value and a nonce key.
///
/// The value is stripped of surrounding white space and of leading `?` and
/// `&`. What is left follows the fixed asset path and the nonce:
/// `https://res.17roco.qq.com/main.swf?<nonce>=&<params>`.
pub fn build_swf_url(value: &[u8], nonce: &[u8]) -> (r: Option<Vec<u8>>)
    ensures
        match r {
            Some(url) => spec_build_swf_url(value@, nonce@) == Some(url@),
            None => spec_build_swf_url(value@, nonce@) is None,
        },
{
    let mut end = value.len();
    while end > 0 && value_space(value[end - 1])
        invariant
            end <= value.len(),
            trim_end(value@, value.len() as int) == trim_end(value@, end as int),
        decreases end,
    {
        end -= 1;
    }
    let mut start: usize = 0;
    while start < end && value_space(value[start])
        invariant
            start <= end <= value.len(),
            trim_start(value@, 0, end as int) == trim_start(value@, start as int, end as int),
        decreases end - start,
    {
        start += 1;
    }
    let ghost trimmed_start = start;
    while start < end && value[start] == QUESTION_MARK
        invariant
            trimmed_start <= start <= end <= value.len(),
            skip_run(value@, trimmed_start as int, end as int, QUESTION_MARK) == skip_run(
                value@,
                start as int,
                end as int,
                QUESTION_MARK,
            ),
        decreases end - start,
    {
        start += 1;
    }
    let ghost after_marks = start;
    while start < end && value[start] == AMPERSAND
        invariant
            after_marks <= start <= end <= value.len(),
            skip_run(value@, after_marks as int, end as int, AMPERSAND) == skip_run(
                value@,
                start as int,
                end as int,
                AMPERSAND,
            ),
        decreases end - start,
    {
        start += 1;
    }
    if start == end {
        return None;
    }
    let mut out: Vec<u8> = Vec::new();
    append_bytes(&mut out, "https://res.17roco.qq.com/main.swf?".as_bytes());
    append_bytes(&mut out, nonce);
    append_bytes(&mut out, "=&".as_bytes());
    append_bytes(&mut out, vstd::slice::slice_subrange(value, start, end));
    Some(out)
}

/// The number of the session that the next `start` opens.
pub open spec fn next_session(s: AppStateView) -> u64 {
    if s.capture_sessions == u64::MAX {
        0
    } else {
        (s.capture_sessions + 1) as u64
    }
}

/// The state after `start`: a new session is open, whatever was captured
/// before is forgotten.
pub open spec fn capture_started(s: AppStateView) -> AppStateView {
    AppStateView {
        status: AppStatus::Capturing,
        message: Some("Capturing login3 response"@),
        swf_url: None,
        capture_stop: Some(CancellationFlag { session: next_session(s), cancelled: false }),
        capture_sessions: next_session(s),
        ..s
    }
}

/// The state after `stop`: no session, no captured URL, back to `Login`.
pub open spec fn capture_stopped(s: AppStateView) -> AppStateView {
    AppStateView {
        status: AppStatus::Login,
        message: None,
        swf_url: None,
        capture_stop: None,
        ..s
    }
}

/// The state after the watcher of the session in flight has been told to
/// stop: its flag is cancelled and stays in place.
pub open spec fn timer_stopped(s: AppStateView) -> AppStateView {
    AppStateView {
        capture_stop: match s.capture_stop {
            Some(flag) => Some(CancellationFlag { cancelled: true, ..flag }),
            None => None,
        },
        ..s
    }
}

/// The watcher armed by session number `session` may still act.
pub open spec fn watcher_live(s: AppStateView, session: u64) -> bool {
    s.capture_stop == Some(CancellationFlag { session, cancelled: false })
}

/// The deadline of session `session` would change the state: its watcher is
/// live and the session still waits for a value.
pub open spec fn timeout_fires(s: AppStateView, session: u64) -> bool {
    watcher_live(s, session) && s.status == AppStatus::Capturing && s.swf_url is None
}

/// The state after the deadline of session `session` has passed.
pub open spec fn capture_timed_out(s: AppStateView, session: u64) -> AppStateView {
    if timeout_fires(s, session) {
        AppStateView {
            status: AppStatus::Error,
            message: Some("Login timed out (180s). Please retry."@),
            swf_url: None,
            ..s
        }
    } else {
        s
    }
}

/// A captured URL is admitted only while nothing runs and no URL is held.
pub open spec fn accepts_capture(s: AppStateView) -> bool {
    s.status != AppStatus::Running && s.swf_url is None
}

/// The state in which an admitted URL is announced.
pub open spec fn capture_found(s: AppStateView, url: Seq<char>) -> AppStateView {
    AppStateView {
        swf_url: Some(url),
        status: AppStatus::FoundValue,
        message: Some("Found login3 value"@),
        ..s
    }
}

/// The state once an admitted URL has been handed to the launch: status
/// `Launching`, the URL held, the session's watcher cancelled.
pub open spec fn capture_accepted(s: AppStateView, url: Seq<char>) -> AppStateView {
    timer_stopped(capture_found(s, url).with_status(AppStatus::Launching, None))
}

/// What a response amounted to.
pub enum CaptureOutcome {
    /// The response holds no attribute value. `sample` is its masked log
    /// sample.
    NotFound { sample: String },
    /// The value lacks a required parameter. `sample` is the value's masked
    /// log sample.
    MissingParams { sample: String },
    /// The value was valid but the state admits no URL now.
    Ignored { redacted_value: String, redacted_url: String },
    /// The URL was admitted. `found` and `launching` are to be announced in
    /// this order, then the launch is to be started, once.
    Accepted {
        found: StatusPayload,
        launching: StatusPayload,
        redacted_value: String,
        redacted_url: String,
    },
}

/// A `CaptureOutcome` with its texts as sequences of characters.
pub enum CaptureOutcomeView {
    NotFound { sample: Seq<char> },
    MissingParams { sample: Seq<char> },
    Ignored { redacted_value: Seq<char>, redacted_url: Seq<char> },
    Accepted {
        found: StatusPayloadView,
        launching: StatusPayloadView,
        redacted_value: Seq<char>,
        redacted_url: Seq<char>,
    },
}

impl View for CaptureOutcome {
    type V = CaptureOutcomeView;

    open spec fn view(&self) -> CaptureOutcomeView {
        match self {
            CaptureOutcome::NotFound { sample } => CaptureOutcomeView::NotFound {
                sample: sample@,
            },
            CaptureOutcome::MissingParams { sample } => CaptureOutcomeView::MissingParams {
                sample: sample@,
            },
            CaptureOutcome::Ignored { redacted_value, redacted_url } => CaptureOutcomeView::Ignored {
                redacted_value: redacted_value@,
                redacted_url: redacted_url@,
            },
            CaptureOutcome::Accepted {
                found,
                launching,
                redacted_value,
                redacted_url,
            } => CaptureOutcomeView::Accepted {
                found: found@,
                launching: launching@,
                redacted_value: redacted_value@,
                redacted_url: redacted_url@,
            },
        }
    }
}

/// What `handle_login3_response` returns for a state, a response body and a
/// nonce. The value and the URL are read one character per byte; the
/// samples and the masked forms are those of these texts.
pub open spec fn response_outcome(s: AppStateView, html: Seq<char>, nonce: Seq<char>) -> CaptureOutcomeView {
    match spec_parse_login3_value(vstd::utf8::encode_utf8(html)) {
        None => CaptureOutcomeView::NotFound { sample: spec_sample_response(html) },
        Some(value) => if !has_required_params(value) {
            CaptureOutcomeView::MissingParams { sample: spec_sample_response(latin1(value)) }
        } else {
            let url = latin1(spec_build_swf_url(value, vstd::utf8::encode_utf8(nonce))->0);
            let redacted_value = spec_redact_text(latin1(value));
            let redacted_url = spec_redact_swf_url(url);
            if accepts_capture(s) {
                CaptureOutcomeView::Accepted {
                    found: capture_found(s, url).payload(),
                    launching: capture_accepted(s, url).payload(),
                    redacted_value,
                    redacted_url,
                }
            } else {
                CaptureOutcomeView::Ignored { redacted_value, redacted_url }
            }
        },
    }
}

/// The state that `handle_login3_response` leaves: changed only where the
/// response holds a valid value and the state admits it.
pub open spec fn response_state(s: AppStateView, html: Seq<char>, nonce: Seq<char>) -> AppStateView {
    match spec_parse_login3_value(vstd::utf8::encode_utf8(html)) {
        Some(value) if has_required_params(value) && accepts_capture(s) => capture_accepted(
            s,
            latin1(spec_build_swf_url(value, vstd::utf8::encode_utf8(nonce))->0),
        ),
        _ => s,
    }
}

/// Opens a capture session. Returns its number, which its timeout watcher
/// keeps, and the payload to announce.
pub fn start(state: &mut AppState) -> (r: (u64, StatusPayload))
    ensures
        final(state)@ == capture_started(old(state)@),
        r.0 == next_session(old(state)@),
        r.1@ == final(state)@.payload(),
        watcher_live(final(state)@, r.0),
        old(state)@.wf() ==> final(state)@.wf(),
{
    let session = if state.capture_sessions == u64::MAX {
        0
    } else {
        state.capture_sessions + 1
    };
    state.status = AppStatus::Capturing;
    state.message = Some("Capturing login3 response".to_owned());
    state.swf_url = None;
    state.capture_stop = Some(CancellationFlag { session, cancelled: false });
    state.capture_sessions = session;
    (session, status_payload(state))
}

/// Closes the capture session, if any, and returns to `Login`. Returns the
/// payload to announce.
pub fn stop(state: &mut AppState) -> (r: StatusPayload)
    ensures
        final(state)@ == capture_stopped(old(state)@),
        r@ == final(state)@.payload(),
        old(state)@.wf() ==> final(state)@.wf(),
{
    state.capture_stop = None;
    state.status = AppStatus::Login;
    state.message = None;
    state.swf_url = None;
    status_payload(state)
}

/// Cancels the watcher of the session in flight, if any, and changes
/// nothing else.
pub fn stop_timer_only(state: &mut AppState)
    ensures
        final(state)@ == timer_stopped(old(state)@),
        old(state)@.wf() ==> final(state)@.wf(),
{
    match state.capture_stop {
        Some(flag) => {
            state.capture_stop = Some(CancellationFlag { session: flag.session, cancelled: true });
        },
        None => {},
    }
}

/// What a timeout watcher does next.
#[derive(Clone, Copy, Debug, PartialEq, Eq, Structural)]
pub enum WatcherStep {
    /// The watcher was cancelled or outlived its session: it ends without
    /// touching anything.
    Exit,
    /// The deadline is not reached: sleep for this many milliseconds and
    /// look again.
    Sleep(u64),
    /// The deadline has passed: call `capture_deadline_passed`.
    Fire,
}

/// The step of the watcher of session `session`, `elapsed_ms` after the
/// session was opened.
pub open spec fn spec_watcher_poll(s: AppStateView, session: u64, elapsed_ms: u64) -> WatcherStep {
    if !watcher_live(s, session) {
        WatcherStep::Exit
    } else if elapsed_ms < CAPTURE_TIMEOUT_MS {
        WatcherStep::Sleep(WATCHER_POLL_MS)
    } else {
        WatcherStep::Fire
    }
}

/// Decides what the timeout watcher of session `session` does next.
pub fn watcher_poll(state: &AppState, session: u64, elapsed_ms: u64) -> (r: WatcherStep)
    ensures
        r == spec_watcher_poll(state@, session, elapsed_ms),
{
    let live = match state.capture_stop {
        Some(flag) => flag.session == session && !flag.cancelled,
        None => false,
    };
    if !live {
        WatcherStep::Exit
    } else if elapsed_ms < CAPTURE_TIMEOUT_MS {
        WatcherStep::Sleep(WATCHER_POLL_MS)
    } else {
        WatcherStep::Fire
    }
}

/// Applies the deadline of session `session`. If its watcher is live and the
/// session still waits for a value, the status becomes `Error` with the
/// timeout message and the payload to announce is returned. Otherwise
/// nothing changes.
pub fn capture_deadline_passed(state: &mut AppState, session: u64) -> (r: Option<StatusPayload>)
    ensures
        final(state)@ == capture_timed_out(old(state)@, session),
        match r {
            Some(payload) => {
                &&& timeout_fires(old(state)@, session)
                &&& payload@ == final(state)@.payload()
            },
            None => !timeout_fires(old(state)@, session),
        },
        old(state)@.wf() ==> final(state)@.wf(),
{
    let live = match state.capture_stop {
        Some(flag) => flag.session == session && !flag.cancelled,
        None => false,
    };
    if live && state.status == AppStatus::Capturing && state.swf_url.is_none() {
        state.status = AppStatus::Error;
        state.message = Some("Login timed out (180s). Please retry.".to_owned());
        state.swf_url = None;
        Some(status_payload(state))
    } else {
        None
    }
}

/// A value that names a configuration is not empty once trimmed, so it
/// always has an asset URL.
pub proof fn lemma_valid_value_builds(value: Seq<u8>, nonce: Seq<u8>)
    requires
        has_required_params(value),
    ensures
        spec_build_swf_url(value, nonce) is Some,
{
    let needle = "config=".spec_bytes();
    reveal_strlit("config=");
    crate::text::lemma_ascii_bytes("config=");
    let at = choose|at: int| occurs_at(value, at, needle);
    assert(needle.len() == 7);
    assert(value[at + 0] == needle[0]);
    assert(value[at] == 0x63);
    lemma_trim_bounds(value);
    let end = trim_end(value, value.len() as int);
    let start = trim_start(value, 0, end);
    let after_marks = skip_run(value, start, end, QUESTION_MARK);
    let after_amps = skip_run(value, after_marks, end, AMPERSAND);
    lemma_trim_end_keeps(value, value.len() as int, at);
    lemma_trim_start_stops(value, 0, end, at);
    lemma_skip_run_stops(value, start, end, QUESTION_MARK, at);
    lemma_skip_run_stops(value, after_marks, end, AMPERSAND, at);
}

proof fn lemma_trim_end_keeps(text: Seq<u8>, end: int, at: int)
    requires
        0 <= at < end <= text.len(),
        !is_value_space(text[at]),
    ensures
        at < trim_end(text, end),
    decreases end,
{
    if is_value_space(text[end - 1]) {
        lemma_trim_end_keeps(text, end - 1, at);
    }
}

proof fn lemma_trim_start_stops(text: Seq<u8>, from: int, end: int, at: int)
    requires
        0 <= from <= at < end <= text.len(),
        !is_value_space(text[at]),
    ensures
        trim_start(text, from, end) <= at,
    decreases end - from,
{
    if from < at && is_value_space(text[from]) {
        lemma_trim_start_stops(text, from + 1, end, at);
    }
}

proof fn lemma_skip_run_stops(text: Seq<u8>, from: int, end: int, b: u8, at: int)
    requires
        0 <= from <= at < end <= text.len(),
        text[at] != b,
    ensures
        skip_run(text, from, end, b) <= at,
    decreases end - from,
{
    if from < at && text[from] == b {
        lemma_skip_run_stops(text, from + 1, end, b, at);
    }
}

/// Handles the body of one login response.
///
/// A body without an attribute value, or with a value that lacks `config=`
/// or `angel_uin=`, leaves the state as it is. A valid value becomes the
/// asset URL built with `nonce`. The URL is admitted only if the launcher is
/// not running and holds no URL: then the state passes through `FoundValue`
/// to `Launching`, keeps the URL and cancels the session's watcher, and the
/// caller announces both payloads and starts the launch once. Otherwise the
/// state is left as it is.
pub fn handle_login3_response(state: &mut AppState, html: &str, nonce: &str) -> (r: CaptureOutcome)
    ensures
        r@ == response_outcome(old(state)@, html@, nonce@),
        final(state)@ == response_state(old(state)@, html@, nonce@),
        !(r is Accepted) ==> final(state)@ == old(state)@,
        old(state)@.wf() ==> final(state)@.wf(),
{
    let body = html.as_bytes();
    let value = match parse_login3_bytes(body) {
        Some(v) => v,
        None => {
            return CaptureOutcome::NotFound { sample: sample_response(html) };
        },
    };
    let value_text = latin1_string(value.as_slice());
    if !validate_value(value.as_slice()) {
        return CaptureOutcome::MissingParams { sample: sample_response(value_text.as_str()) };
    }
    proof {
        lemma_valid_value_builds(value@, nonce.spec_bytes());
    }
    let url = build_swf_url(value.as_slice(), nonce.as_bytes()).unwrap();
    let url_text = latin1_string(url.as_slice());
    let redacted_value = redact_tokens(value_text.as_str());
    let redacted_url = redact_swf_url(url_text.as_str());
    if state.status == AppStatus::Running || state.swf_url.is_some() {
        return CaptureOutcome::Ignored { redacted_value, redacted_url };
    }
    state.swf_url = Some(url_text);
    state.status = AppStatus::FoundValue;
    state.message = Some("Found login3 value".to_owned());
    let found = status_payload(state);
    state.status = AppStatus::Launching;
    state.message = None;
    stop_timer_only(state);
    let launching = status_payload(state);
    CaptureOutcome::Accepted { found, launching, redacted_value, redacted_url }
}

/// How many bytes of `chunk` a body of `held` bytes takes under `limit`.
pub open spec fn taken_of(held: int, chunk: int, limit: int) -> int {
    if held >= limit {
        0
    } else if chunk < limit - held {
        chunk
    } else {
        limit - held
    }
}

/// Adds a chunk that was read from the response stream to the body, up to
/// `limit` bytes in all. Returns whether more is to be read: not after an
/// empty chunk, which ends the stream, and not once the limit is reached.
pub fn append_chunk(body: &mut Vec<u8>, chunk: &[u8], limit: usize) -> (more: bool)
    ensures
        final(body)@ == old(body)@ + chunk@.take(
            taken_of(old(body)@.len() as int, chunk@.len() as int, limit as int),
        ),
        more == (chunk@.len() > 0 && final(body)@.len() < limit),
{
    if chunk.len() == 0 {
        assert(chunk@.take(0) =~= Seq::<u8>::empty());
        assert(body@ + chunk@.take(0) =~= body@);
        return false;
    }
    let remaining = if body.len() >= limit {
        0
    } else {
        limit - body.len()
    };
    if remaining == 0 {
        assert(body@ + chunk@.take(0) =~= body@);
        return false;
    }
    let take = if chunk.len() < remaining {
        chunk.len()
    } else {
        remaining
    };
    append_bytes(body, vstd::slice::slice_subrange(chunk, 0, take));
    assert(chunk@.subrange(0, take as int) =~= chunk@.take(take as int));
    body.len() < limit
}

/// Reads a response body as text: bytes that are not valid UTF-8 are
/// replaced as `String::from_utf8_lossy` replaces them.
pub fn body_text(body: &[u8]) -> (r: String)
    ensures
        r@ == crate::text::utf8_lossy(body@),
{
    crate::text::lossy_text(body)
}

/// Whether a request URL is that of the login endpoint: whether it holds
/// `/fcgi-bin/login3`, letter case aside.
pub fn is_login3_url(url: &str) -> (r: bool)
    ensures
        r == contains_bytes(crate::text::lower_bytes(url.spec_bytes()), login3_path_needle()),
{
    let lowered = crate::text::to_lower_bytes(url.as_bytes());
    find_bytes(lowered.as_slice(), "/fcgi-bin/login3".as_bytes()).is_some()
}

/// A document in which the attribute's name stands nowhere, in any letter
/// case, has no value: not in its search window, not as a whole, and not
/// with its escapes removed.
pub proof fn lemma_no_flash_vars_no_value(html: Seq<u8>)
    requires
        forall|at: int| !matches_ignore_case_at(html, at, "flashvars".spec_bytes()),
    ensures
        spec_parse_login3_value(html) is None,
{
    let name = "flashvars".spec_bytes();
    lemma_flash_vars_names();
    assert(all_letters(name));
    let window = search_window(html);
    assert forall|at: int| !matches_ignore_case_at(window, at, name) by {
        if matches_ignore_case_at(window, at, name) {
            match first_occurrence(html, script_anchor()) {
                Some(start) => {
                    assert(crate::text::is_first_occurrence(html, start, script_anchor()));
                    assert forall|k: int| 0 <= k < name.len() implies ascii_lower(
                        html[start + at + k],
                    ) == ascii_lower(name[k]) by {
                        assert(window[at + k] == html[start + at + k]);
                    }
                    assert(matches_ignore_case_at(html, start + at, name));
                },
                None => {},
            }
        }
    }
    let unescaped = spec_unescape_source(html);
    assert forall|at: int| !matches_ignore_case_at(unescaped, at, name) by {
        if matches_ignore_case_at(unescaped, at, name) {
            lemma_unescape_makes_no_name(html, 0, name, at);
        }
    }
    lemma_absent_everywhere(window);
    lemma_absent_everywhere(html);
    lemma_absent_everywhere(unescaped);
}

/// The two spellings of the attribute's name and their lower-case form.
proof fn lemma_flash_vars_names()
    ensures
        "flashvars".spec_bytes() == seq![
            0x66u8,
            0x6C,
            0x61,
            0x73,
            0x68,
            0x76,
            0x61,
            0x72,
            0x73,
        ],
        "flashVars".spec_bytes() == seq![
            0x66u8,
            0x6C,
            0x61,
            0x73,
            0x68,
            0x56,
            0x61,
            0x72,
            0x73,
        ],
        "FlashVars".spec_bytes() == seq![
            0x46u8,
            0x6C,
            0x61,
            0x73,
            0x68,
            0x56,
            0x61,
            0x72,
            0x73,
        ],
{
    reveal_strlit("flashvars");
    reveal_strlit("flashVars");
    reveal_strlit("FlashVars");
    crate::text::lemma_ascii_bytes("flashvars");
    crate::text::lemma_ascii_bytes("flashVars");
    crate::text::lemma_ascii_bytes("FlashVars");
    assert("flashvars".spec_bytes() =~= seq![
        0x66u8,
        0x6C,
        0x61,
        0x73,
        0x68,
        0x76,
        0x61,
        0x72,
        0x73,
    ]);
    assert("flashVars".spec_bytes() =~= seq![
        0x66u8,
        0x6C,
        0x61,
        0x73,
        0x68,
        0x56,
        0x61,
        0x72,
        0x73,
    ]);
    assert("FlashVars".spec_bytes() =~= seq![
        0x46u8,
        0x6C,
        0x61,
        0x73,
        0x68,
        0x56,
        0x61,
        0x72,
        0x73,
    ]);
}

proof fn lemma_absent_everywhere(text: Seq<u8>)
    requires
        forall|at: int| !matches_ignore_case_at(text, at, "flashvars".spec_bytes()),
    ensures
        flash_vars_in(text) is None,
{
    lemma_flash_vars_names();
    let lower = "flashvars".spec_bytes();
    let a = "flashVars".spec_bytes();
    let b = "FlashVars".spec_bytes();
    assert forall|at: int| 0 <= at implies !matches_ignore_case_at(text, at, a) by {
        assert(matches_ignore_case_at(text, at, a) == matches_ignore_case_at(text, at, lower));
    }
    assert forall|at: int| 0 <= at implies !matches_ignore_case_at(text, at, b) by {
        assert(matches_ignore_case_at(text, at, b) == matches_ignore_case_at(text, at, lower));
    }
    lemma_no_name_no_value(text, a, 0);
    lemma_no_name_no_value(text, b, 0);
}

/// The second spelling adds nothing: what is found under `FlashVars` is
/// found under `flashVars`.
pub proof fn lemma_one_spelling_suffices(text: Seq<u8>)
    ensures
        flash_vars_in(text) == spec_extract_attr_value(text, "flashVars".spec_bytes()),
{
    lemma_flash_vars_names();
    lemma_name_case_is_irrelevant(text, "flashVars".spec_bytes(), "FlashVars".spec_bytes());
}

/// A response without the attribute's name changes nothing: it is reported
/// as not found and the state stays as it is.
pub proof fn lemma_no_flash_vars_no_effect(s: AppStateView, html: Seq<char>, nonce: Seq<char>)
    requires
        forall|at: int|
            !matches_ignore_case_at(vstd::utf8::encode_utf8(html), at, "flashvars".spec_bytes()),
    ensures
        response_outcome(s, html, nonce) is NotFound,
        response_state(s, html, nonce) == s,
{
    lemma_no_flash_vars_no_value(vstd::utf8::encode_utf8(html));
}

/// Single flight: once a response has been accepted, any further response on
/// the state it left is not, and leaves that state as it is.
pub proof fn lemma_single_flight(
    s: AppStateView,
    html1: Seq<char>,
    nonce1: Seq<char>,
    html2: Seq<char>,
    nonce2: Seq<char>,
)
    requires
        response_outcome(s, html1, nonce1) is Accepted,
    ensures
        !(response_outcome(response_state(s, html1, nonce1), html2, nonce2) is Accepted),
        response_state(response_state(s, html1, nonce1), html2, nonce2) == response_state(
            s,
            html1,
            nonce1,
        ),
{
}

/// A response is a no-op on a state that runs a projector or already holds
/// a URL.
pub proof fn lemma_capture_ignored_when_busy(s: AppStateView, html: Seq<char>, nonce: Seq<char>)
    requires
        s.status == AppStatus::Running || s.swf_url is Some,
    ensures
        !(response_outcome(s, html, nonce) is Accepted),
        response_state(s, html, nonce) == s,
{
}

/// A session that is left alone times out: on the state that `start`
/// leaves, that session's watcher fires once the deadline is reached, and
/// the deadline puts the state into `Error` with the timeout message.
pub proof fn lemma_unanswered_session_times_out(s: AppStateView, elapsed_ms: u64)
    requires
        elapsed_ms >= CAPTURE_TIMEOUT_MS,
    ensures
        ({
            let started = capture_started(s);
            let session = next_session(s);
            &&& spec_watcher_poll(started, session, elapsed_ms) == WatcherStep::Fire
            &&& capture_timed_out(started, session).status == AppStatus::Error
            &&& capture_timed_out(started, session).message == Some(
                "Login timed out (180s). Please retry."@,
            )
        }),
{
}

/// A stopped session never times out: after `stop`, every watcher exits and
/// no deadline changes the state.
pub proof fn lemma_stop_disarms_timeout(s: AppStateView, session: u64, elapsed_ms: u64)
    ensures
        spec_watcher_poll(capture_stopped(s), session, elapsed_ms) == WatcherStep::Exit,
        capture_timed_out(capture_stopped(s), session) == capture_stopped(s),
{
}

/// An accepted value disarms the timeout as well.
pub proof fn lemma_accept_disarms_timeout(
    s: AppStateView,
    url: Seq<char>,
    session: u64,
    elapsed_ms: u64,
)
    ensures
        spec_watcher_poll(capture_accepted(s, url), session, elapsed_ms) == WatcherStep::Exit,
        capture_timed_out(capture_accepted(s, url), session) == capture_accepted(s, url),
{
}

/// A watcher left over from an earlier session can change nothing: a new
/// session never has the number of the one before it.
pub proof fn lemma_stale_watcher_is_inert(s: AppStateView, stale: u64, elapsed_ms: u64)
    requires
        s.wf(),
        s.capture_stop matches Some(flag) && flag.session == stale,
    ensures
        spec_watcher_poll(capture_started(s), stale, elapsed_ms) == WatcherStep::Exit,
        capture_timed_out(capture_started(s), stale) == capture_started(s),
{
}

} // verus!
