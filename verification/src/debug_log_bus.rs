//! The log bus of the debug console: a ring of the latest events for
//! replay, and a bounded queue of events that wait to be sent to the
//! console's window in batches.
//!
//! The bus is a plain value. The application keeps one behind a lock, feeds
//! it the clock, and sends what the bus hands out.

use crate::text::str_equal;
use std::collections::VecDeque;
use vstd::prelude::*;
use vstd::string::*;

verus! {

/// The pause between two batches, in milliseconds.
pub const BATCH_INTERVAL_MS: u64 = 200;

/// How many events the ring keeps for replay.
pub const RING_BUFFER_SIZE: usize = 500;

/// How many events may wait in the queue.
pub const MAX_QUEUE_SIZE: usize = 2000;

/// How many events go out in one batch.
pub const MAX_BATCH_SIZE: usize = 100;

/// The highest priority that counts as low: events up to it are the first
/// to be dropped.
pub const LOW_PRIORITY: u8 = 2;

/// One logged event as the debug console shows it.
#[derive(Debug)]
pub struct LogEvent {
    /// Milliseconds since the Unix epoch.
    pub timestamp: u64,
    /// `ERROR`, `WARN`, `INFO`, `DEBUG` or `TRACE`.
    pub level: String,
    /// The module that logged.
    pub target: String,
    pub message: String,
    pub thread_id: Option<String>,
    /// The structured fields of the event, as JSON text.
    pub fields: Option<String>,
}

/// A `LogEvent` with its texts as sequences of characters.
pub struct LogEventView {
    pub timestamp: u64,
    pub level: Seq<char>,
    pub target: Seq<char>,
    pub message: Seq<char>,
    pub thread_id: Option<Seq<char>>,
    pub fields: Option<Seq<char>>,
}

impl View for LogEvent {
    type V = LogEventView;

    open spec fn view(&self) -> LogEventView {
        LogEventView {
            timestamp: self.timestamp,
            level: self.level@,
            target: self.target@,
            message: self.message@,
            thread_id: crate::state::text_view(self.thread_id),
            fields: crate::state::text_view(self.fields),
        }
    }
}

/// The upper-case form of a text, as `str::to_uppercase` gives it.
pub uninterp spec fn spec_to_uppercase(text: Seq<char>) -> Seq<char>;

/// The upper-case form of `text`: `str::to_uppercase`, which follows
/// Unicode. Its result has only a name here.
#[verifier::external_body]
fn to_uppercase(text: &str) -> (r: String)
    ensures
        r@ == spec_to_uppercase(text@),
{
    text.to_uppercase()
}

/// The priority of a level: 5 for `ERROR` down to 1 for `TRACE`, 0 for any
/// other text.
pub open spec fn spec_priority(level: Seq<char>) -> u8 {
    if level == "ERROR"@ {
        5
    } else if level == "WARN"@ {
        4
    } else if level == "INFO"@ {
        3
    } else if level == "DEBUG"@ {
        2
    } else if level == "TRACE"@ {
        1
    } else {
        0
    }
}

impl Clone for LogEvent {
    fn clone(&self) -> (r: Self)
        ensures
            r@ == self@,
    {
        LogEvent {
            timestamp: self.timestamp,
            level: self.level.clone(),
            target: self.target.clone(),
            message: self.message.clone(),
            thread_id: crate::state::clone_text(&self.thread_id),
            fields: crate::state::clone_text(&self.fields),
        }
    }
}

impl LogEvent {
    /// An event logged at `timestamp`, its level in upper case, without
    /// thread and fields.
    pub fn new(level: &str, target: &str, message: String, timestamp: u64) -> (r: Self)
        ensures
            r@ == (LogEventView {
                timestamp,
                level: spec_to_uppercase(level@),
                target: target@,
                message: message@,
                thread_id: None,
                fields: None,
            }),
    {
        LogEvent {
            timestamp,
            level: to_uppercase(level),
            target: target.to_owned(),
            message,
            thread_id: None,
            fields: None,
        }
    }

    /// How much the event matters, by its level.
    pub fn priority(&self) -> (r: u8)
        ensures
            r == spec_priority(self@.level),
    {
        let level = self.level.as_str();
        if str_equal(level, "ERROR") {
            5
        } else if str_equal(level, "WARN") {
            4
        } else if str_equal(level, "INFO") {
            3
        } else if str_equal(level, "DEBUG") {
            2
        } else if str_equal(level, "TRACE") {
            1
        } else {
            0
        }
    }
}

/// The counters of the bus at one moment.
#[derive(Clone, Copy, Debug, PartialEq, Eq, Structural)]
pub struct LogBusStats {
    pub total_received: usize,
    pub total_sent: usize,
    pub total_dropped: usize,
    pub queue_length: usize,
    pub ring_buffer_length: usize,
    /// When the counters were read, in milliseconds since the Unix epoch.
    pub last_update_time: u64,
}

/// The log bus. Its ring holds at most `RING_BUFFER_SIZE` events and its
/// queue at most `MAX_QUEUE_SIZE`.
pub struct LogBusState {
    queue: VecDeque<LogEvent>,
    ring_buffer: VecDeque<LogEvent>,
    window_open: bool,
    dropped_count: usize,
    total_received: usize,
    total_sent: usize,
    last_update_time: u64,
    should_exit: bool,
}

/// What the bus holds: the model that the contracts speak of.
pub struct LogBusView {
    /// The events that wait to be sent, oldest first.
    pub queue: Seq<LogEventView>,
    /// The latest events, oldest first.
    pub ring_buffer: Seq<LogEventView>,
    pub window_open: bool,
    pub dropped_count: usize,
    pub total_received: usize,
    pub total_sent: usize,
    pub last_update_time: u64,
    pub should_exit: bool,
}

pub open spec fn events_view(events: Seq<LogEvent>) -> Seq<LogEventView> {
    Seq::new(events.len(), |i: int| events[i]@)
}

impl View for LogBusState {
    type V = LogBusView;

    closed spec fn view(&self) -> LogBusView {
        LogBusView {
            queue: events_view(self.queue@),
            ring_buffer: events_view(self.ring_buffer@),
            window_open: self.window_open,
            dropped_count: self.dropped_count,
            total_received: self.total_received,
            total_sent: self.total_sent,
            last_update_time: self.last_update_time,
            should_exit: self.should_exit,
        }
    }
}

/// The offset of the first event of low priority in `queue`, if any.
pub open spec fn first_low_priority(queue: Seq<LogEventView>) -> Option<int>
    decreases queue.len(),
{
    if queue.len() == 0 {
        None
    } else if spec_priority(queue[0].level) <= LOW_PRIORITY {
        Some(0)
    } else {
        match first_low_priority(queue.drop_first()) {
            Some(at) => Some(at + 1),
            None => None,
        }
    }
}

/// `ring` with `event` added, and without its oldest event if that makes
/// it longer than the ring may be.
pub open spec fn ring_with(ring: Seq<LogEventView>, event: LogEventView) -> Seq<LogEventView> {
    if ring.push(event).len() > RING_BUFFER_SIZE {
        ring.push(event).drop_first()
    } else {
        ring.push(event)
    }
}

impl LogBusView {
    /// Neither the ring nor the queue is over its bound.
    pub open spec fn wf(self) -> bool {
        self.ring_buffer.len() <= RING_BUFFER_SIZE && self.queue.len() <= MAX_QUEUE_SIZE
    }

    /// The bus after it has taken `event`.
    ///
    /// The event is counted and enters the ring. It enters the queue only
    /// while the console's window is open. Where the queue is full, an event
    /// of low priority is dropped; an event of higher priority takes the
    /// place of the oldest waiting event of low priority, and is dropped
    /// itself if there is none. Every drop is counted.
    pub open spec fn pushed(self, event: LogEventView) -> LogBusView {
        let taken = LogBusView {
            total_received: (self.total_received + 1) as usize,
            ring_buffer: ring_with(self.ring_buffer, event),
            ..self
        };
        let dropped = LogBusView { dropped_count: (self.dropped_count + 1) as usize, ..taken };
        if !self.window_open {
            taken
        } else if self.queue.len() < MAX_QUEUE_SIZE {
            LogBusView { queue: self.queue.push(event), ..taken }
        } else if spec_priority(event.level) <= LOW_PRIORITY {
            dropped
        } else {
            match first_low_priority(self.queue) {
                Some(at) => LogBusView { queue: self.queue.remove(at).push(event), ..dropped },
                None => dropped,
            }
        }
    }

    /// How many events the next batch holds.
    pub open spec fn batch_len(self) -> int {
        if self.queue.len() < MAX_BATCH_SIZE {
            self.queue.len() as int
        } else {
            MAX_BATCH_SIZE as int
        }
    }

    /// The counters as they are read at `now`.
    pub open spec fn stats(self, now: u64) -> LogBusStats {
        LogBusStats {
            total_received: self.total_received,
            total_sent: self.total_sent,
            total_dropped: self.dropped_count,
            queue_length: self.queue.len() as usize,
            ring_buffer_length: self.ring_buffer.len() as usize,
            last_update_time: now,
        }
    }
}

proof fn lemma_first_low_priority(queue: Seq<LogEventView>)
    ensures
        match first_low_priority(queue) {
            Some(at) => {
                &&& 0 <= at < queue.len()
                &&& spec_priority(queue[at].level) <= LOW_PRIORITY
                &&& forall|k: int| 0 <= k < at ==> spec_priority(#[trigger] queue[k].level) > LOW_PRIORITY
            },
            None => forall|k: int|
                0 <= k < queue.len() ==> spec_priority(#[trigger] queue[k].level) > LOW_PRIORITY,
        },
    decreases queue.len(),
{
    if queue.len() > 0 && spec_priority(queue[0].level) > LOW_PRIORITY {
        lemma_first_low_priority(queue.drop_first());
        let rest = queue.drop_first();
        match first_low_priority(rest) {
            Some(at) => {
                assert forall|k: int| 0 <= k < at + 1 implies spec_priority(
                    #[trigger] queue[k].level,
                ) > LOW_PRIORITY by {
                    if k > 0 {
                        assert(queue[k] == rest[k - 1]);
                    }
                }
            },
            None => {
                assert forall|k: int| 0 <= k < queue.len() implies spec_priority(
                    #[trigger] queue[k].level,
                ) > LOW_PRIORITY by {
                    if k > 0 {
                        assert(queue[k] == rest[k - 1]);
                    }
                }
            },
        }
    }
}

/// Whatever offset holds the first event of low priority is the one that
/// `first_low_priority` names.
proof fn lemma_first_low_priority_is(queue: Seq<LogEventView>, at: int)
    requires
        0 <= at < queue.len(),
        spec_priority(queue[at].level) <= LOW_PRIORITY,
        forall|k: int| 0 <= k < at ==> spec_priority(#[trigger] queue[k].level) > LOW_PRIORITY,
    ensures
        first_low_priority(queue) == Some(at),
{
    lemma_first_low_priority(queue);
}

impl LogBusState {
    /// An empty bus with its window closed, made at `now`.
    pub fn new(now: u64) -> (r: Self)
        ensures
            r@ == (LogBusView {
                queue: Seq::empty(),
                ring_buffer: Seq::empty(),
                window_open: false,
                dropped_count: 0,
                total_received: 0,
                total_sent: 0,
                last_update_time: now,
                should_exit: false,
            }),
            r@.wf(),
    {
        let r = LogBusState {
            queue: VecDeque::new(),
            ring_buffer: VecDeque::new(),
            window_open: false,
            dropped_count: 0,
            total_received: 0,
            total_sent: 0,
            last_update_time: now,
            should_exit: false,
        };
        assert(events_view(r.queue@) =~= Seq::empty());
        assert(events_view(r.ring_buffer@) =~= Seq::empty());
        r
    }

    fn find_low_priority(&self) -> (r: Option<usize>)
        ensures
            match r {
                Some(at) => first_low_priority(self@.queue) == Some(at as int) && at
                    < self.queue@.len(),
                None => first_low_priority(self@.queue) is None,
            },
    {
        let mut i: usize = 0;
        while i < self.queue.len()
            invariant
                i <= self.queue@.len(),
                forall|k: int|
                    0 <= k < i ==> spec_priority(#[trigger] self@.queue[k].level) > LOW_PRIORITY,
            decreases self.queue@.len() - i,
        {
            if self.queue[i].priority() <= LOW_PRIORITY {
                proof {
                    lemma_first_low_priority_is(self@.queue, i as int);
                }
                return Some(i);
            }
            i += 1;
        }
        proof {
            lemma_first_low_priority(self@.queue);
        }
        None
    }
}

/// Takes one event into the bus.
pub fn push_log(bus: &mut LogBusState, event: LogEvent)
    requires
        old(bus)@.wf(),
        old(bus)@.total_received < usize::MAX,
        old(bus)@.dropped_count < usize::MAX,
    ensures
        final(bus)@ == old(bus)@.pushed(event@),
        final(bus)@.wf(),
{
    let ghost before = bus@;
    bus.total_received = bus.total_received + 1;
    if bus.ring_buffer.len() >= RING_BUFFER_SIZE {
        let _ = bus.ring_buffer.pop_front();
    }
    bus.ring_buffer.push_back(event.clone());
    proof {
        assert(events_view(bus.ring_buffer@) =~= ring_with(before.ring_buffer, event@));
    }
    if !bus.window_open {
        return ;
    }
    if bus.queue.len() >= MAX_QUEUE_SIZE {
        if event.priority() <= LOW_PRIORITY {
            bus.dropped_count = bus.dropped_count + 1;
            return ;
        }
        match bus.find_low_priority() {
            Some(at) => {
                let _ = bus.queue.remove(at);
                bus.dropped_count = bus.dropped_count + 1;
                bus.queue.push_back(event);
                proof {
                    assert(events_view(bus.queue@) =~= before.queue.remove(at as int).push(event@));
                }
            },
            None => {
                bus.dropped_count = bus.dropped_count + 1;
            },
        }
        return ;
    }
    bus.queue.push_back(event);
    proof {
        assert(events_view(bus.queue@) =~= before.queue.push(event@));
    }
}

/// Records whether the console's window is open. Returns whether it was
/// open before.
pub fn set_window_open(bus: &mut LogBusState, open: bool) -> (was_open: bool)
    ensures
        final(bus)@ == (LogBusView { window_open: open, ..old(bus)@ }),
        was_open == old(bus)@.window_open,
{
    let was_open = bus.window_open;
    bus.window_open = open;
    was_open
}

pub fn is_window_open(bus: &LogBusState) -> (r: bool)
    ensures
        r == bus@.window_open,
{
    bus.window_open
}

/// The counters as they stand, with the time at which they were read last.
pub fn peek_stats(bus: &LogBusState) -> (r: LogBusStats)
    ensures
        r == bus@.stats(bus@.last_update_time),
{
    LogBusStats {
        total_received: bus.total_received,
        total_sent: bus.total_sent,
        total_dropped: bus.dropped_count,
        queue_length: bus.queue.len(),
        ring_buffer_length: bus.ring_buffer.len(),
        last_update_time: bus.last_update_time,
    }
}

/// Reads the counters at `now` and remembers when they were read.
pub fn get_stats(bus: &mut LogBusState, now: u64) -> (r: LogBusStats)
    ensures
        final(bus)@ == (LogBusView { last_update_time: now, ..old(bus)@ }),
        r == old(bus)@.stats(now),
{
    bus.last_update_time = now;
    LogBusStats {
        total_received: bus.total_received,
        total_sent: bus.total_sent,
        total_dropped: bus.dropped_count,
        queue_length: bus.queue.len(),
        ring_buffer_length: bus.ring_buffer.len(),
        last_update_time: now,
    }
}

/// The latest events of the ring, at most `limit` of them, oldest first.
pub fn get_recent_logs(bus: &LogBusState, limit: usize) -> (r: Vec<LogEvent>)
    ensures
        events_view(r@) == bus@.ring_buffer.skip(
            if bus@.ring_buffer.len() <= limit {
                0
            } else {
                bus@.ring_buffer.len() - limit
            },
        ),
{
    let len = bus.ring_buffer.len();
    let start = if len <= limit {
        0
    } else {
        len - limit
    };
    let mut out: Vec<LogEvent> = Vec::new();
    let mut i: usize = start;
    while i < len
        invariant
            start <= i <= len,
            len == bus.ring_buffer@.len(),
            events_view(out@) == bus@.ring_buffer.subrange(start as int, i as int),
        decreases len - i,
    {
        let ghost before = out@;
        let copy = bus.ring_buffer[i].clone();
        out.push(copy);
        proof {
            let ring = bus@.ring_buffer;
            assert(events_view(before).len() == ring.subrange(start as int, i as int).len());
            assert(before.len() == i - start);
            assert(copy@ == ring[i as int]);
            assert forall|k: int| 0 <= k < out@.len() implies events_view(out@)[k]
                == ring.subrange(start as int, i + 1)[k] by {
                if k < before.len() {
                    assert(events_view(before)[k] == ring.subrange(start as int, i as int)[k]);
                } else {
                    assert(out@[k] == copy);
                }
            }
            assert(events_view(out@) =~= ring.subrange(start as int, i + 1));
        }
        i += 1;
    }
    assert(bus@.ring_buffer.subrange(start as int, len as int) =~= bus@.ring_buffer.skip(
        start as int,
    ));
    out
}

/// Tells the sender of the bus to end.
pub fn shutdown(bus: &mut LogBusState)
    ensures
        final(bus)@ == (LogBusView { should_exit: true, ..old(bus)@ }),
{
    bus.should_exit = true;
}

pub fn is_should_exit(bus: &LogBusState) -> (r: bool)
    ensures
        r == bus@.should_exit,
{
    bus.should_exit
}

/// Whether the sender goes on: it ends once the bus is shut down or the
/// application leaves.
pub fn flush_continues(bus: &LogBusState, exiting: bool) -> (r: bool)
    ensures
        r == (!bus@.should_exit && !exiting),
{
    !bus.should_exit && !exiting
}

/// Whether a batch may be sent: only while the bus is not shut down, the
/// console's window is open, and the window is there.
pub fn may_emit(bus: &LogBusState, has_window: bool) -> (r: bool)
    ensures
        r == (!bus@.should_exit && bus@.window_open && has_window),
{
    !bus.should_exit && bus.window_open && has_window
}

/// Takes the next batch off the queue: its oldest events, at most
/// `MAX_BATCH_SIZE`. They are counted as sent, and the counters are read at
/// `now`. On an empty queue nothing changes and there is no batch.
pub fn take_batch(bus: &mut LogBusState, now: u64) -> (r: Option<(Vec<LogEvent>, LogBusStats)>)
    requires
        old(bus)@.total_sent <= usize::MAX - MAX_BATCH_SIZE,
    ensures
        match r {
            Some((batch, stats)) => {
                &&& old(bus)@.queue.len() > 0
                &&& events_view(batch@) == old(bus)@.queue.take(old(bus)@.batch_len())
                &&& final(bus)@ == (LogBusView {
                    queue: old(bus)@.queue.skip(old(bus)@.batch_len()),
                    total_sent: (old(bus)@.total_sent + old(bus)@.batch_len()) as usize,
                    last_update_time: now,
                    ..old(bus)@
                })
                &&& stats == final(bus)@.stats(now)
            },
            None => old(bus)@.queue.len() == 0 && final(bus)@ == old(bus)@,
        },
        old(bus)@.wf() ==> final(bus)@.wf(),
{
    let ghost before = bus@;
    let len = bus.queue.len();
    if len == 0 {
        return None;
    }
    let count = if len < MAX_BATCH_SIZE {
        len
    } else {
        MAX_BATCH_SIZE
    };
    let mut batch: Vec<LogEvent> = Vec::new();
    let mut i: usize = 0;
    while i < count
        invariant
            i <= count <= before.queue.len(),
            events_view(batch@) == before.queue.take(i as int),
            events_view(bus.queue@) == before.queue.skip(i as int),
            bus.ring_buffer == old(bus).ring_buffer,
            bus.window_open == old(bus).window_open,
            bus.dropped_count == old(bus).dropped_count,
            bus.total_received == old(bus).total_received,
            bus.total_sent == old(bus).total_sent,
            bus.should_exit == old(bus).should_exit,
        decreases count - i,
    {
        let ghost queue_before = bus.queue@;
        let ghost batch_before = batch@;
        assert(events_view(queue_before).len() == before.queue.skip(i as int).len());
        assert(queue_before.len() > 0);
        let event = bus.queue.pop_front().unwrap();
        assert(event@ == before.queue[i as int]) by {
            assert(events_view(queue_before)[0] == before.queue.skip(i as int)[0]);
        }
        batch.push(event);
        assert(events_view(batch_before).len() == before.queue.take(i as int).len());
        assert(batch_before.len() == i);
        assert forall|k: int| 0 <= k < batch@.len() implies events_view(batch@)[k]
            == before.queue.take(i + 1)[k] by {
            if k < batch_before.len() {
                assert(events_view(batch_before)[k] == before.queue.take(i as int)[k]);
            } else {
                assert(batch@[k] == event);
            }
        }
        assert(events_view(batch@) =~= before.queue.take(i + 1));
        assert forall|k: int| 0 <= k < bus.queue@.len() implies events_view(
            bus.queue@,
        )[k] == before.queue.skip(i + 1)[k] by {
            assert(bus.queue@[k] == queue_before[k + 1]);
            assert(events_view(queue_before)[k + 1] == before.queue.skip(i as int)[k + 1]);
        }
        assert(events_view(bus.queue@) =~= before.queue.skip(i + 1));
        i += 1;
    }
    bus.total_sent = bus.total_sent + count;
    bus.last_update_time = now;
    let stats = LogBusStats {
        total_received: bus.total_received,
        total_sent: bus.total_sent,
        total_dropped: bus.dropped_count,
        queue_length: bus.queue.len(),
        ring_buffer_length: bus.ring_buffer.len(),
        last_update_time: now,
    };
    Some((batch, stats))
}

/// The ring never holds more than `RING_BUFFER_SIZE` events and the queue
/// never more than `MAX_QUEUE_SIZE`, and the ring always ends with the
/// event taken last.
pub proof fn lemma_push_keeps_bounds(bus: LogBusView, event: LogEventView)
    requires
        bus.wf(),
    ensures
        bus.pushed(event).wf(),
        bus.pushed(event).ring_buffer.len() > 0,
        bus.pushed(event).ring_buffer.last() == event,
{
    if bus.window_open && bus.queue.len() >= MAX_QUEUE_SIZE && spec_priority(event.level)
        > LOW_PRIORITY {
        lemma_first_low_priority(bus.queue);
    }
}

/// An event of high priority is never dropped for one of low priority: if
/// the queue is full and holds an event of low priority, the new event is
/// queued, and the queue keeps its length.
pub proof fn lemma_high_priority_displaces_low(bus: LogBusView, event: LogEventView)
    requires
        bus.wf(),
        bus.window_open,
        bus.queue.len() == MAX_QUEUE_SIZE,
        spec_priority(event.level) > LOW_PRIORITY,
        first_low_priority(bus.queue) is Some,
    ensures
        bus.pushed(event).queue.len() == MAX_QUEUE_SIZE,
        bus.pushed(event).queue.last() == event,
{
    lemma_first_low_priority(bus.queue);
}

} // verus!
