use spanpipe::buffer::{BoundedBuffer, OverflowPolicy};
use spanpipe::exporter::{Action, BatchExporter, Event, ExporterConfig, Mode};
use spanpipe::span::Span;

fn span(id: u64) -> Span {
    Span {
        id,
        parent: None,
        name: format!("span-{}", id),
        start: id,
        end: id + 1,
        attrs: Vec::new(),
    }
}

fn exporter(batch_max: usize, size_threshold: usize, max_attempts: u32) -> BatchExporter {
    let cfg = ExporterConfig {
        batch_max,
        flush_interval: 100,
        size_threshold,
        max_attempts,
        backoff: 7,
        shutdown_timeout: 50,
    };
    BatchExporter::new(cfg, BoundedBuffer::new(16, OverflowPolicy::DropNewest))
}

#[test]
fn a_tick_with_nothing_buffered_waits() {
    let mut e = exporter(4, 8, 3);
    assert_eq!(e.handle_event(Event::Tick { now: 0 }), Action::Wait);
    assert_eq!(e.mode(), Mode::Running);
}

#[test]
fn the_interval_schedules_the_next_flush() {
    let mut e = exporter(4, 8, 3);
    e.push_span(span(1));
    assert_eq!(e.handle_event(Event::Tick { now: 0 }), Action::SendBatch);
    assert_eq!(e.handle_event(Event::ExportOk), Action::Wait);
    assert_eq!(e.exported(), 1);
    e.push_span(span(2));
    // The next scheduled flush is at tick 100; before it, and below the
    // size threshold, the machine waits.
    assert_eq!(e.handle_event(Event::Tick { now: 50 }), Action::Wait);
    assert_eq!(e.handle_event(Event::Tick { now: 100 }), Action::SendBatch);
}

#[test]
fn the_size_threshold_flushes_before_the_interval() {
    let mut e = exporter(8, 3, 3);
    e.push_span(span(1));
    assert_eq!(e.handle_event(Event::Tick { now: 0 }), Action::SendBatch);
    assert_eq!(e.handle_event(Event::ExportOk), Action::Wait);
    e.push_span(span(2));
    e.push_span(span(3));
    assert_eq!(e.handle_event(Event::Tick { now: 1 }), Action::Wait);
    e.push_span(span(4));
    // Three buffered spans reach the threshold long before tick 100.
    assert_eq!(e.handle_event(Event::Tick { now: 2 }), Action::SendBatch);
    assert_eq!(e.in_flight_spans().len(), 3);
}

#[test]
fn a_batch_never_exceeds_batch_max() {
    let mut e = exporter(2, 3, 3);
    e.push_span(span(1));
    e.push_span(span(2));
    e.push_span(span(3));
    assert_eq!(e.handle_event(Event::Tick { now: 0 }), Action::SendBatch);
    assert_eq!(e.in_flight_spans().len(), 2);
    assert_eq!(e.buffered(), 1);
}

#[test]
fn while_a_batch_is_in_flight_ticks_wait() {
    let mut e = exporter(4, 8, 3);
    e.push_span(span(1));
    assert_eq!(e.handle_event(Event::Tick { now: 0 }), Action::SendBatch);
    e.push_span(span(2));
    assert_eq!(e.handle_event(Event::Tick { now: 200 }), Action::Wait);
}

#[test]
fn a_failed_send_is_retried_with_backoff_then_dropped() {
    let mut e = exporter(4, 8, 2);
    e.push_span(span(1));
    e.push_span(span(2));
    assert_eq!(e.handle_event(Event::Tick { now: 0 }), Action::SendBatch);
    assert_eq!(e.handle_event(Event::ExportErr { now: 1 }), Action::Retry { delay: 7 });
    // The second attempt was the last allowed: the batch is dropped, the
    // machine keeps running, nothing was exported.
    assert_eq!(e.handle_event(Event::ExportErr { now: 9 }), Action::Wait);
    assert_eq!(e.dropped(), 2);
    assert_eq!(e.exported(), 0);
    assert_eq!(e.mode(), Mode::Running);
    assert_eq!(e.in_flight_spans().len(), 0);
}

#[test]
fn a_send_that_succeeds_after_a_retry_is_counted_once() {
    let mut e = exporter(4, 8, 3);
    e.push_span(span(1));
    assert_eq!(e.handle_event(Event::Tick { now: 0 }), Action::SendBatch);
    assert_eq!(e.handle_event(Event::ExportErr { now: 1 }), Action::Retry { delay: 7 });
    assert_eq!(e.handle_event(Event::ExportOk), Action::Wait);
    assert_eq!(e.exported(), 1);
    assert_eq!(e.dropped(), 0);
}

#[test]
fn overflowing_the_buffer_is_counted_not_fatal() {
    let cfg = ExporterConfig {
        batch_max: 4,
        flush_interval: 100,
        size_threshold: 8,
        max_attempts: 3,
        backoff: 7,
        shutdown_timeout: 50,
    };
    let mut e = BatchExporter::new(cfg, BoundedBuffer::new(2, OverflowPolicy::DropNewest));
    assert!(e.push_span(span(1)));
    assert!(e.push_span(span(2)));
    assert!(!e.push_span(span(3)));
    assert_eq!(e.buffer_dropped(), 1);
    assert_eq!(e.mode(), Mode::Running);
}

#[test]
fn shutdown_with_an_empty_pipeline_finishes_at_once() {
    let mut e = exporter(4, 8, 3);
    assert_eq!(e.handle_event(Event::Shutdown { now: 5 }), Action::Done);
    assert_eq!(e.mode(), Mode::Finished);
}

#[test]
fn graceful_shutdown_exports_every_buffered_span_once() {
    let mut e = exporter(2, 8, 3);
    e.push_span(span(1));
    e.push_span(span(2));
    e.push_span(span(3));
    // The final drain ignores batch_max: one batch with everything.
    assert_eq!(e.handle_event(Event::Shutdown { now: 5 }), Action::SendBatch);
    let ids: Vec<u64> = e.in_flight_spans().iter().map(|s| s.id).collect();
    assert_eq!(ids, vec![1, 2, 3]);
    assert_eq!(e.handle_event(Event::ExportOk), Action::Done);
    assert_eq!(e.mode(), Mode::Finished);
    assert_eq!(e.exported(), 3);
    assert_eq!(e.dropped(), 0);
    assert_eq!(e.buffered(), 0);
}

#[test]
fn shutdown_first_awaits_a_batch_already_in_flight() {
    let mut e = exporter(4, 8, 3);
    e.push_span(span(1));
    assert_eq!(e.handle_event(Event::Tick { now: 0 }), Action::SendBatch);
    e.push_span(span(2));
    assert_eq!(e.handle_event(Event::Shutdown { now: 1 }), Action::Wait);
    assert_eq!(e.mode(), Mode::Draining);
    // The in-flight batch is acknowledged, then the rest goes out.
    assert_eq!(e.handle_event(Event::ExportOk), Action::SendBatch);
    assert_eq!(e.handle_event(Event::ExportOk), Action::Done);
    assert_eq!(e.exported(), 2);
    assert_eq!(e.mode(), Mode::Finished);
}

#[test]
fn after_shutdown_new_spans_are_rejected() {
    let mut e = exporter(4, 8, 3);
    e.push_span(span(1));
    assert_eq!(e.handle_event(Event::Shutdown { now: 5 }), Action::SendBatch);
    assert!(!e.push_span(span(2)));
    assert_eq!(e.rejected(), 1);
}

#[test]
fn a_second_shutdown_signal_is_ignored() {
    let mut e = exporter(4, 8, 3);
    e.push_span(span(1));
    assert_eq!(e.handle_event(Event::Shutdown { now: 5 }), Action::SendBatch);
    assert_eq!(e.handle_event(Event::Shutdown { now: 6 }), Action::Wait);
    assert_eq!(e.mode(), Mode::Draining);
}

#[test]
fn shutdown_with_the_transport_down_exports_nothing_and_finishes() {
    let mut e = exporter(4, 8, 3);
    e.push_span(span(1));
    e.push_span(span(2));
    // Deadline is 5 + 50 = 55; every send fails within it.
    assert_eq!(e.handle_event(Event::Shutdown { now: 5 }), Action::SendBatch);
    assert_eq!(e.handle_event(Event::ExportErr { now: 6 }), Action::Retry { delay: 7 });
    assert_eq!(e.handle_event(Event::ExportErr { now: 14 }), Action::Retry { delay: 7 });
    // The third attempt was the last: everything unsent is dropped.
    assert_eq!(e.handle_event(Event::ExportErr { now: 22 }), Action::Done);
    assert_eq!(e.mode(), Mode::Finished);
    assert_eq!(e.exported(), 0);
    assert_eq!(e.dropped(), 2);
}

#[test]
fn draining_past_the_deadline_drops_and_finishes() {
    let mut e = exporter(4, 8, 3);
    e.push_span(span(1));
    assert_eq!(e.handle_event(Event::Shutdown { now: 0 }), Action::SendBatch);
    assert_eq!(e.handle_event(Event::ExportErr { now: 10 }), Action::Retry { delay: 7 });
    // At tick 50 the deadline has passed: no more retries, finish now.
    assert_eq!(e.handle_event(Event::Tick { now: 50 }), Action::Done);
    assert_eq!(e.mode(), Mode::Finished);
    assert_eq!(e.exported(), 0);
    assert_eq!(e.dropped(), 1);
}

#[test]
fn a_retry_is_never_scheduled_past_the_deadline() {
    let mut e = exporter(4, 8, 5);
    e.push_span(span(1));
    assert_eq!(e.handle_event(Event::Shutdown { now: 0 }), Action::SendBatch);
    // Attempts remain, but the failure arrives after the deadline of 50.
    assert_eq!(e.handle_event(Event::ExportErr { now: 60 }), Action::Done);
    assert_eq!(e.mode(), Mode::Finished);
    assert_eq!(e.exported(), 0);
}

#[test]
fn a_finished_machine_reacts_to_nothing() {
    let mut e = exporter(4, 8, 3);
    assert_eq!(e.handle_event(Event::Shutdown { now: 0 }), Action::Done);
    assert_eq!(e.handle_event(Event::Tick { now: 1 }), Action::Done);
    assert_eq!(e.handle_event(Event::ExportOk), Action::Done);
    assert_eq!(e.handle_event(Event::ExportErr { now: 2 }), Action::Done);
    assert_eq!(e.exported(), 0);
}
