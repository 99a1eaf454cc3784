use rustwright::error::AutomationError;
use rustwright::trace::TraceRecorder;

fn message(result: Result<(), AutomationError>) -> String {
    match result {
        Err(AutomationError::JavaScript(text)) => text,
        other => panic!("expected a JavaScript error, got {other:?}"),
    }
}

#[test]
fn a_stopped_trace_holds_the_chunks_in_order() {
    let mut trace: TraceRecorder<Vec<u32>, &str> = TraceRecorder::new();
    assert!(!trace.is_recording());
    trace.start().unwrap();
    assert!(trace.is_recording());
    trace.data_collected(vec![1, 2]);
    trace.data_collected(vec![3]);
    trace.begin_stop("waiter").unwrap();
    trace.data_collected(vec![4]);
    assert_eq!(trace.tracing_complete(), Some("waiter"));
    assert!(!trace.is_recording());
    assert_eq!(trace.finish_stop(), vec![vec![1, 2], vec![3], vec![4]]);
    assert!(!trace.is_recording());
    assert_eq!(trace.finish_stop(), Vec::<Vec<u32>>::new());
}

#[test]
fn starting_twice_is_refused() {
    let mut trace: TraceRecorder<u8, ()> = TraceRecorder::new();
    trace.start().unwrap();
    trace.data_collected(7);
    assert_eq!(message(trace.start()), "tracing is already active on this page");
    // the refused start kept the trace
    assert!(trace.is_recording());
    assert_eq!(trace.finish_stop(), vec![7]);
}

#[test]
fn stopping_without_a_trace_is_refused() {
    let mut trace: TraceRecorder<u8, ()> = TraceRecorder::new();
    assert_eq!(message(trace.begin_stop(())), "tracing is not active on this page");
    trace.start().unwrap();
    trace.start_failed();
    assert!(!trace.is_recording());
    assert_eq!(message(trace.begin_stop(())), "tracing is not active on this page");
}

#[test]
fn a_new_trace_forgets_the_last_one() {
    let mut trace: TraceRecorder<u8, ()> = TraceRecorder::new();
    trace.start().unwrap();
    trace.data_collected(1);
    trace.start_failed();
    trace.start().unwrap();
    trace.data_collected(2);
    assert_eq!(trace.finish_stop(), vec![2]);
}
