use spanpipe::recorder::Recorder;

#[test]
fn nested_spans_link_to_their_parents() {
    let mut r = Recorder::new();
    let foo = r.start_span(String::from("foo"), Vec::new(), 1);
    let biz = r.start_span(String::from("biz"), Vec::new(), 2);
    let inner = r.start_span(String::from("biz_inner"), Vec::new(), 3);
    assert_eq!(r.depth(), 3);

    let s_inner = r.end_span(inner, 4).expect("innermost scope must close");
    assert_eq!(s_inner.parent, Some(biz));
    let s_biz = r.end_span(biz, 5).expect("middle scope must close");
    assert_eq!(s_biz.parent, Some(foo));
    let s_foo = r.end_span(foo, 6).expect("outermost scope must close");
    assert_eq!(s_foo.parent, None);
    assert_eq!(r.depth(), 0);
}

#[test]
fn scope_exit_restores_the_previous_context() {
    let mut r = Recorder::new();
    let outer = r.start_span(String::from("outer"), Vec::new(), 1);
    assert_eq!(r.current_span(), Some(outer));
    let inner = r.start_span(String::from("inner"), Vec::new(), 2);
    assert_eq!(r.current_span(), Some(inner));
    r.end_span(inner, 3).unwrap();
    assert_eq!(r.current_span(), Some(outer));
    r.end_span(outer, 4).unwrap();
    assert_eq!(r.current_span(), None);
}

#[test]
fn a_handle_that_is_not_innermost_is_refused() {
    let mut r = Recorder::new();
    let outer = r.start_span(String::from("outer"), Vec::new(), 1);
    let _inner = r.start_span(String::from("inner"), Vec::new(), 2);
    assert!(r.end_span(outer, 3).is_none());
    assert_eq!(r.depth(), 2);
    assert!(r.end_span(outer + 99, 3).is_none());
    assert_eq!(r.depth(), 2);
}

#[test]
fn span_ids_are_distinct_and_increasing() {
    let mut r = Recorder::new();
    let a = r.start_span(String::from("a"), Vec::new(), 1);
    let b = r.start_span(String::from("b"), Vec::new(), 1);
    r.end_span(b, 2);
    let c = r.start_span(String::from("c"), Vec::new(), 3);
    assert!(a < b && b < c);
}

#[test]
fn a_clock_that_goes_backwards_cannot_end_a_span_before_it_starts() {
    let mut r = Recorder::new();
    let h = r.start_span(String::from("late"), Vec::new(), 10);
    let s = r.end_span(h, 5).unwrap();
    assert_eq!(s.start, 10);
    assert_eq!(s.end, 10);
}

#[test]
fn timestamps_and_names_are_recorded() {
    let mut r = Recorder::new();
    let h = r.start_span(String::from("work"), Vec::new(), 7);
    let s = r.end_span(h, 9).unwrap();
    assert_eq!(s.name, "work");
    assert_eq!(s.start, 7);
    assert_eq!(s.end, 9);
    assert_eq!(s.id, h);
}
