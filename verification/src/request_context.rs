//! Numbering the commands that the user interface sends, and timing them
//! and their stages.
//!
//! The clock is the caller's: every function that needs the time takes it,
//! in milliseconds.

use vstd::prelude::*;
use vstd::string::*;

verus! {

/// The source of request ids: a counter that starts at 1.
#[derive(Debug)]
pub struct RequestIds {
    next: u64,
}

/// The id after `id`; after the largest comes 0.
pub open spec fn next_id(id: u64) -> u64 {
    if id == u64::MAX {
        0
    } else {
        (id + 1) as u64
    }
}

impl RequestIds {
    /// The id that is handed out next.
    pub closed spec fn next(&self) -> u64 {
        self.next
    }

    pub fn new() -> (r: Self)
        ensures
            r.next() == 1,
    {
        RequestIds { next: 1 }
    }
}

/// Hands out a fresh request id.
pub fn generate_request_id(ids: &mut RequestIds) -> (r: u64)
    ensures
        r == old(ids).next(),
        final(ids).next() == next_id(old(ids).next()),
{
    let id = ids.next;
    ids.next = if id == u64::MAX {
        0
    } else {
        id + 1
    };
    id
}

/// The span of one command: its name and its request id.
#[derive(Debug)]
pub struct CommandSpan {
    pub cmd: String,
    pub request_id: u64,
}

/// The span of one stage of a command: its name and its status.
#[derive(Debug)]
pub struct StageSpan {
    pub stage: String,
    pub status: String,
}

/// Opens the span of a command under a fresh request id.
pub fn create_command_span(ids: &mut RequestIds, command_name: &str) -> (r: CommandSpan)
    ensures
        r.cmd@ == command_name@,
        r.request_id == old(ids).next(),
        final(ids).next() == next_id(old(ids).next()),
{
    let request_id = generate_request_id(ids);
    CommandSpan { cmd: command_name.to_owned(), request_id }
}

/// Opens the span of a stage.
pub fn create_stage_span(stage: &str, status: &str) -> (r: StageSpan)
    ensures
        r.stage@ == stage@,
        r.status@ == status@,
{
    StageSpan { stage: stage.to_owned(), status: status.to_owned() }
}

/// The time from `start_ms` to `now_ms`; nothing where the clock went back.
pub open spec fn elapsed(start_ms: u64, now_ms: u64) -> u64 {
    if now_ms >= start_ms {
        (now_ms - start_ms) as u64
    } else {
        0
    }
}

/// What a timer reports when it ends.
#[derive(Debug)]
pub struct TimerReport {
    pub duration_ms: u64,
    /// Whether the command took longer than its threshold. Stages have no
    /// threshold and are never slow.
    pub slow: bool,
    /// `completed` for a command, `success` or `fail` for a stage.
    pub status: String,
    /// The error, where the command or stage failed.
    pub error: Option<String>,
}

/// Times one command and warns when it is slow.
#[derive(Debug)]
pub struct CommandTimer {
    command_name: String,
    start_ms: u64,
    threshold_ms: u64,
    span: CommandSpan,
}

impl CommandTimer {
    pub closed spec fn command_name(&self) -> Seq<char> {
        self.command_name@
    }

    pub closed spec fn start_ms(&self) -> u64 {
        self.start_ms
    }

    pub closed spec fn threshold_ms(&self) -> u64 {
        self.threshold_ms
    }

    pub closed spec fn request_id(&self) -> u64 {
        self.span.request_id
    }

    /// What the timer reports at `now_ms`.
    pub open spec fn report(&self, now_ms: u64, error: Option<Seq<char>>) -> TimerReportView {
        TimerReportView {
            duration_ms: elapsed(self.start_ms(), now_ms),
            slow: elapsed(self.start_ms(), now_ms) > self.threshold_ms(),
            status: "completed"@,
            error,
        }
    }

    /// Starts timing a command at `now_ms`, under a fresh request id. The
    /// command is slow if it takes more than `threshold_ms`.
    pub fn new(ids: &mut RequestIds, command_name: &str, threshold_ms: u64, now_ms: u64) -> (r:
        Self)
        ensures
            r.command_name() == command_name@,
            r.start_ms() == now_ms,
            r.threshold_ms() == threshold_ms,
            r.request_id() == old(ids).next(),
            final(ids).next() == next_id(old(ids).next()),
    {
        let span = create_command_span(ids, command_name);
        CommandTimer {
            command_name: command_name.to_owned(),
            start_ms: now_ms,
            threshold_ms,
            span,
        }
    }

    /// The request id under which the command runs.
    pub fn id(&self) -> (r: u64)
        ensures
            r == self.request_id(),
    {
        self.span.request_id
    }

    /// Ends the timer of a command that succeeded.
    pub fn success(self, now_ms: u64) -> (r: TimerReport)
        ensures
            r@ == self.report(now_ms, None),
    {
        let duration_ms = now_ms.saturating_sub(self.start_ms);
        TimerReport {
            duration_ms,
            slow: duration_ms > self.threshold_ms,
            status: "completed".to_owned(),
            error: None,
        }
    }

    /// Ends the timer of a command that failed with `error`.
    pub fn fail(self, error: &str, now_ms: u64) -> (r: TimerReport)
        ensures
            r@ == self.report(now_ms, Some(error@)),
    {
        let duration_ms = now_ms.saturating_sub(self.start_ms);
        TimerReport {
            duration_ms,
            slow: duration_ms > self.threshold_ms,
            status: "completed".to_owned(),
            error: Some(error.to_owned()),
        }
    }
}

pub struct TimerReportView {
    pub duration_ms: u64,
    pub slow: bool,
    pub status: Seq<char>,
    pub error: Option<Seq<char>>,
}

impl View for TimerReport {
    type V = TimerReportView;

    open spec fn view(&self) -> TimerReportView {
        TimerReportView {
            duration_ms: self.duration_ms,
            slow: self.slow,
            status: self.status@,
            error: crate::state::text_view(self.error),
        }
    }
}

/// Times one stage of a command.
#[derive(Debug)]
pub struct StageTimer {
    stage: String,
    start_ms: u64,
    span: StageSpan,
}

impl StageTimer {
    pub closed spec fn stage(&self) -> Seq<char> {
        self.stage@
    }

    pub closed spec fn start_ms(&self) -> u64 {
        self.start_ms
    }

    /// Starts timing a stage at `now_ms`.
    pub fn new(stage: &str, now_ms: u64) -> (r: Self)
        ensures
            r.stage() == stage@,
            r.start_ms() == now_ms,
    {
        StageTimer {
            stage: stage.to_owned(),
            start_ms: now_ms,
            span: create_stage_span(stage, "start"),
        }
    }

    /// Ends the timer of a stage that succeeded.
    pub fn success(self, now_ms: u64) -> (r: TimerReport)
        ensures
            r@ == (TimerReportView {
                duration_ms: elapsed(self.start_ms(), now_ms),
                slow: false,
                status: "success"@,
                error: None,
            }),
    {
        TimerReport {
            duration_ms: now_ms.saturating_sub(self.start_ms),
            slow: false,
            status: "success".to_owned(),
            error: None,
        }
    }

    /// Ends the timer of a stage that failed with `error`.
    pub fn fail(self, error: &str, now_ms: u64) -> (r: TimerReport)
        ensures
            r@ == (TimerReportView {
                duration_ms: elapsed(self.start_ms(), now_ms),
                slow: false,
                status: "fail"@,
                error: Some(error@),
            }),
    {
        TimerReport {
            duration_ms: now_ms.saturating_sub(self.start_ms),
            slow: false,
            status: "fail".to_owned(),
            error: Some(error.to_owned()),
        }
    }
}

} // verus!
