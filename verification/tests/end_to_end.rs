use spanpipe::buffer::{BoundedBuffer, OverflowPolicy};
use spanpipe::exporter::{Action, BatchExporter, Event, ExporterConfig, Mode};
use spanpipe::recorder::Recorder;
use spanpipe::span::Attr;

// Three nested units of work — "biz_inner" inside "biz" inside "foo" — are
// recorded, finished, buffered, and shipped in one batch at shutdown, with
// parent-child linkage intact and every end timestamp after its start.
#[test]
fn three_nested_spans_leave_in_one_linked_batch() {
    let mut recorder = Recorder::new();
    let cfg = ExporterConfig {
        batch_max: 8,
        flush_interval: 100,
        size_threshold: 8,
        max_attempts: 3,
        backoff: 5,
        shutdown_timeout: 50,
    };
    let mut exporter = BatchExporter::new(cfg, BoundedBuffer::new(8, OverflowPolicy::DropNewest));

    let foo = recorder.start_span(String::from("foo"), Vec::new(), 1);
    let biz = recorder.start_span(String::from("biz"), Vec::new(), 2);
    let attrs = vec![
        Attr { key: String::from("x"), value: String::from("123") },
        Attr { key: String::from("y"), value: String::from("456") },
    ];
    let biz_inner = recorder.start_span(String::from("biz_inner"), attrs, 3);

    let s = recorder.end_span(biz_inner, 4).unwrap();
    assert!(exporter.push_span(s));
    let s = recorder.end_span(biz, 5).unwrap();
    assert!(exporter.push_span(s));
    let s = recorder.end_span(foo, 6).unwrap();
    assert!(exporter.push_span(s));
    assert_eq!(recorder.depth(), 0);

    assert_eq!(exporter.handle_event(Event::Shutdown { now: 7 }), Action::SendBatch);
    let batch = exporter.in_flight_spans();
    assert_eq!(batch.len(), 3);

    // Completion order: biz_inner first, foo last.
    assert_eq!(batch[0].name, "biz_inner");
    assert_eq!(batch[1].name, "biz");
    assert_eq!(batch[2].name, "foo");

    // Parent-child linkage follows the nesting.
    assert_eq!(batch[0].parent, Some(biz));
    assert_eq!(batch[1].parent, Some(foo));
    assert_eq!(batch[2].parent, None);

    // Every span ends after it starts.
    for s in batch.iter() {
        assert!(s.start < s.end);
    }
    assert_eq!(batch[0].attrs.len(), 2);
    assert_eq!(batch[0].attrs[0].key, "x");
    assert_eq!(batch[0].attrs[0].value, "123");

    assert_eq!(exporter.handle_event(Event::ExportOk), Action::Done);
    assert_eq!(exporter.mode(), Mode::Finished);
    assert_eq!(exporter.exported(), 3);
    assert_eq!(exporter.dropped(), 0);
    assert_eq!(exporter.buffer_dropped(), 0);
}
