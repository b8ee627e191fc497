use rocoknight::debug::{
    debug_log, set_debug_window_state, toggle_debug_window, DebugState, DebugWindowProbe,
};
use rocoknight::debug_console_layer::{unquote, DebugConsoleLayer};
use rocoknight::debug_log_bus::{
    flush_continues, get_recent_logs, get_stats, is_should_exit, is_window_open, may_emit,
    push_log, set_window_open, shutdown, take_batch, LogBusState, LogEvent, BATCH_INTERVAL_MS,
    MAX_BATCH_SIZE, MAX_QUEUE_SIZE, RING_BUFFER_SIZE,
};

fn event(level: &str, n: u64) -> LogEvent {
    LogEvent::new(level, "test", format!("message {}", n), n)
}

#[test]
fn event_level_is_upper_case() {
    let e = LogEvent::new("info", "core::launcher", "started".to_string(), 1_700_000_000_000);
    assert_eq!(e.level, "INFO");
    assert_eq!(e.target, "core::launcher");
    assert_eq!(e.message, "started");
    assert_eq!(e.timestamp, 1_700_000_000_000);
    assert_eq!(e.thread_id, None);
    assert_eq!(e.fields, None);
    assert_eq!(LogEvent::new("Warn", "t", String::new(), 0).level, "WARN");
}

#[test]
fn priority_follows_the_level() {
    assert_eq!(event("error", 0).priority(), 5);
    assert_eq!(event("warn", 0).priority(), 4);
    assert_eq!(event("info", 0).priority(), 3);
    assert_eq!(event("debug", 0).priority(), 2);
    assert_eq!(event("trace", 0).priority(), 1);
    assert_eq!(event("verbose", 0).priority(), 0);
    let mut odd = event("info", 0);
    odd.level = "info".to_string();
    assert_eq!(odd.priority(), 0);
}

#[test]
fn clone_keeps_every_field() {
    let mut e = event("info", 3);
    e.thread_id = Some("main".to_string());
    e.fields = Some("{}".to_string());
    let copy = e.clone();
    assert_eq!(copy.timestamp, 3);
    assert_eq!(copy.level, "INFO");
    assert_eq!(copy.message, "message 3");
    assert_eq!(copy.thread_id, Some("main".to_string()));
    assert_eq!(copy.fields, Some("{}".to_string()));
}

#[test]
fn closed_window_fills_the_ring_only() {
    let mut bus = LogBusState::new(10);
    push_log(&mut bus, event("info", 1));
    push_log(&mut bus, event("info", 2));
    let stats = get_stats(&mut bus, 20);
    assert_eq!(stats.total_received, 2);
    assert_eq!(stats.queue_length, 0);
    assert_eq!(stats.ring_buffer_length, 2);
    assert_eq!(stats.total_dropped, 0);
    assert_eq!(stats.last_update_time, 20);
    assert!(take_batch(&mut bus, 30).is_none());
}

#[test]
fn ring_keeps_the_latest_events() {
    let mut bus = LogBusState::new(0);
    for n in 0..(RING_BUFFER_SIZE as u64 + 3) {
        push_log(&mut bus, event("info", n));
    }
    let stats = get_stats(&mut bus, 0);
    assert_eq!(stats.ring_buffer_length, 500);
    assert_eq!(stats.total_received, 503);
    let recent = get_recent_logs(&bus, 2);
    assert_eq!(recent.len(), 2);
    assert_eq!(recent[0].timestamp, 501);
    assert_eq!(recent[1].timestamp, 502);
    let all = get_recent_logs(&bus, 10_000);
    assert_eq!(all.len(), 500);
    assert_eq!(all[0].timestamp, 3);
    assert_eq!(all[499].timestamp, 502);
    assert!(get_recent_logs(&bus, 0).is_empty());
}

#[test]
fn open_window_queues_events() {
    let mut bus = LogBusState::new(0);
    assert!(!is_window_open(&bus));
    assert!(!set_window_open(&mut bus, true));
    assert!(is_window_open(&bus));
    assert!(set_window_open(&mut bus, true));
    for n in 0..250u64 {
        push_log(&mut bus, event("debug", n));
    }
    let (batch, stats) = take_batch(&mut bus, 77).expect("events wait");
    assert_eq!(batch.len(), MAX_BATCH_SIZE);
    assert_eq!(batch[0].timestamp, 0);
    assert_eq!(batch[99].timestamp, 99);
    assert_eq!(stats.total_sent, 100);
    assert_eq!(stats.queue_length, 150);
    assert_eq!(stats.last_update_time, 77);
    let (batch, _) = take_batch(&mut bus, 78).unwrap();
    assert_eq!(batch[0].timestamp, 100);
    let (batch, stats) = take_batch(&mut bus, 79).unwrap();
    assert_eq!(batch.len(), 50);
    assert_eq!(stats.total_sent, 250);
    assert_eq!(stats.queue_length, 0);
    assert!(take_batch(&mut bus, 80).is_none());
}

#[test]
fn full_queue_drops_low_priority_first() {
    let mut bus = LogBusState::new(0);
    set_window_open(&mut bus, true);
    push_log(&mut bus, event("error", 0));
    push_log(&mut bus, event("debug", 1));
    for n in 2..(MAX_QUEUE_SIZE as u64) {
        push_log(&mut bus, event("info", n));
    }
    assert_eq!(get_stats(&mut bus, 0).queue_length, 2000);

    push_log(&mut bus, event("trace", 5000));
    let stats = get_stats(&mut bus, 0);
    assert_eq!(stats.queue_length, 2000);
    assert_eq!(stats.total_dropped, 1);

    push_log(&mut bus, event("warn", 5001));
    let stats = get_stats(&mut bus, 0);
    assert_eq!(stats.queue_length, 2000);
    assert_eq!(stats.total_dropped, 2);
    let (batch, _) = take_batch(&mut bus, 0).unwrap();
    assert_eq!(batch[0].timestamp, 0);
    assert_eq!(batch[1].timestamp, 2);

    for n in 0..100u64 {
        push_log(&mut bus, event("info", 6000 + n));
    }
    push_log(&mut bus, event("error", 7000));
    let stats = get_stats(&mut bus, 0);
    assert_eq!(stats.queue_length, 2000);
    assert_eq!(stats.total_dropped, 3);
    assert_eq!(stats.total_received, 2000 + 2 + 100 + 1);
}

#[test]
fn shutdown_ends_the_sender() {
    let mut bus = LogBusState::new(0);
    set_window_open(&mut bus, true);
    assert!(!is_should_exit(&bus));
    assert!(flush_continues(&bus, false));
    assert!(!flush_continues(&bus, true));
    assert!(may_emit(&bus, true));
    assert!(!may_emit(&bus, false));
    shutdown(&mut bus);
    assert!(is_should_exit(&bus));
    assert!(!flush_continues(&bus, false));
    assert!(!may_emit(&bus, true));
    set_window_open(&mut bus, false);
    assert!(!may_emit(&bus, true));
    assert_eq!(BATCH_INTERVAL_MS, 200);
}

#[test]
fn debug_lines_need_an_open_window() {
    let mut debug = DebugState::new();
    assert!(debug_log(&debug, "info", "hello").is_none());
    set_debug_window_state(&mut debug, true);
    let line = debug_log(&debug, "info", "hello").expect("the window is open");
    assert_eq!(line.level, "info");
    assert_eq!(line.message, "hello");
    set_debug_window_state(&mut debug, false);
    assert!(debug_log(&debug, "info", "hello").is_none());
}

#[test]
fn toggle_shows_a_hidden_window() {
    assert_eq!(toggle_debug_window(false, false, DebugWindowProbe::Present(Some(false))), Ok(true));
    assert_eq!(toggle_debug_window(false, false, DebugWindowProbe::Present(Some(true))), Ok(false));
    assert_eq!(toggle_debug_window(false, false, DebugWindowProbe::Present(None)), Ok(true));
    assert_eq!(
        toggle_debug_window(false, false, DebugWindowProbe::Missing),
        Err("Debug window is not initialized.".to_string())
    );
    assert_eq!(
        toggle_debug_window(false, true, DebugWindowProbe::Present(Some(true))),
        Err("Toggle already in progress".to_string())
    );
    assert_eq!(
        toggle_debug_window(true, true, DebugWindowProbe::Missing),
        Err("Cannot toggle debug window while exiting".to_string())
    );
}

#[test]
fn message_gets_its_fields() {
    let layer = DebugConsoleLayer::new();
    let fields = vec![
        ("pid".to_string(), "42".to_string()),
        ("message".to_string(), "ignored".to_string()),
        ("span".to_string(), "command".to_string()),
    ];
    assert_eq!(layer.compose_message("launched", &fields), "launched pid=42 span=command");
    assert_eq!(layer.compose_message("plain", &[]), "plain");
    let e = layer.compose_event("info", "core", "launched", &fields, Some("{\"pid\":\"42\"}".to_string()), 9);
    assert_eq!(e.level, "INFO");
    assert_eq!(e.target, "core");
    assert_eq!(e.message, "launched pid=42 span=command");
    assert_eq!(e.fields, Some("{\"pid\":\"42\"}".to_string()));
    assert_eq!(e.timestamp, 9);
    let bare = layer.compose_event("warn", "core", "plain", &[], Some("{}".to_string()), 9);
    assert_eq!(bare.fields, None);
}

#[test]
fn quotes_of_debug_formatting_are_removed() {
    assert_eq!(unquote("\"hello\""), "hello");
    assert_eq!(unquote("\"\""), "");
    assert_eq!(unquote("\""), "\"");
    assert_eq!(unquote("hello"), "hello");
    assert_eq!(unquote("\"open"), "\"open");
    assert_eq!(unquote("\"宠物\""), "宠物");
    assert_eq!(unquote(""), "");
}
