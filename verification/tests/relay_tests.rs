use assistant_core::ai_types::StreamChunk;
use assistant_core::registry::OperationRegistry;
use assistant_core::relay::{
    establish, on_input, open_stream, relay_feed, ConnectOutcome, ConnectStep, RelayEmit,
    RelayInput, RelayStep,
};

fn chunk(text: &str) -> StreamChunk {
    StreamChunk { content: text.to_string(), citations: None, usage: None }
}

fn streaming(reg: &mut OperationRegistry, id: &str) -> assistant_core::relay::ActiveStream {
    let pending = open_stream(reg, id);
    match establish(pending, reg, ConnectOutcome::Established) {
        ConnectStep::Streaming(a) => a,
        ConnectStep::Finished(_) => panic!("establishment should have entered streaming"),
    }
}

#[test]
fn decode_failure_after_fragments_emits_their_content_then_one_error() {
    let mut reg = OperationRegistry::new();
    let active = streaming(&mut reg, "s-1");
    let inputs = vec![
        RelayInput::Fragment(chunk("A")),
        RelayInput::Fragment(chunk("B")),
        RelayInput::DecodeFailure("Stream error: bad chunk".to_string()),
    ];
    let (rest, emits) = relay_feed(active, &mut reg, inputs);
    assert!(rest.is_none());
    assert_eq!(emits.len(), 3);
    assert!(matches!(&emits[0], RelayEmit::Chunk(c) if c.content == "A"));
    assert!(matches!(&emits[1], RelayEmit::Chunk(c) if c.content == "B"));
    assert!(matches!(&emits[2], RelayEmit::Error(m) if m == "Stream error: bad chunk"));
    let done_count = emits.iter().filter(|e| matches!(e, RelayEmit::Done)).count();
    let error_count = emits.iter().filter(|e| matches!(e, RelayEmit::Error(_))).count();
    assert_eq!(done_count, 0);
    assert_eq!(error_count, 1);
    assert!(!reg.has_operation("s-1"));
}

#[test]
fn exhaustion_emits_exactly_one_done() {
    let mut reg = OperationRegistry::new();
    let active = streaming(&mut reg, "s-2");
    let inputs = vec![
        RelayInput::Fragment(chunk("hello")),
        RelayInput::Fragment(chunk("")),
        RelayInput::Exhausted,
    ];
    let (rest, emits) = relay_feed(active, &mut reg, inputs);
    assert!(rest.is_none());
    assert_eq!(emits.len(), 3);
    assert!(matches!(&emits[2], RelayEmit::Done));
    let terminal_count = emits
        .iter()
        .filter(|e| !matches!(e, RelayEmit::Chunk(_)))
        .count();
    assert_eq!(terminal_count, 1);
    assert!(!reg.has_operation("s-2"));
}

#[test]
fn observed_abort_collapses_to_done_and_keeps_partial_content() {
    let mut reg = OperationRegistry::new();
    let active = streaming(&mut reg, "s-3");
    // one fragment is forwarded before the abort arrives
    let step = on_input(active, &mut reg, RelayInput::Fragment(chunk("partial")));
    let active = match step {
        RelayStep::Streaming(a, RelayEmit::Chunk(c)) => {
            assert_eq!(c.content, "partial");
            a
        }
        _ => panic!("expected the fragment to be forwarded"),
    };
    reg.signal("s-3");
    match on_input(active, &mut reg, RelayInput::AbortObserved) {
        RelayStep::Finished(RelayEmit::Done) => {}
        _ => panic!("an observed abort must finish with the done event"),
    }
    assert!(!reg.has_operation("s-3"));
}

#[test]
fn connect_failure_emits_one_error_and_unregisters() {
    let mut reg = OperationRegistry::new();
    let pending = open_stream(&mut reg, "s-4");
    assert!(reg.has_operation("s-4"));
    match establish(pending, &mut reg, ConnectOutcome::ConnectFailed(
        "Request timeout: failed to establish connection".to_string(),
    )) {
        ConnectStep::Finished(RelayEmit::Error(m)) => {
            assert_eq!(m, "Request timeout: failed to establish connection")
        }
        _ => panic!("expected the terminal error event"),
    }
    assert!(!reg.has_operation("s-4"));
}

#[test]
fn abort_before_connect_emits_done() {
    let mut reg = OperationRegistry::new();
    let pending = open_stream(&mut reg, "s-5");
    reg.signal("s-5");
    match establish(pending, &mut reg, ConnectOutcome::AbortedBeforeConnect) {
        ConnectStep::Finished(RelayEmit::Done) => {}
        _ => panic!("expected the terminal done event"),
    }
    assert!(!reg.has_operation("s-5"));
}

#[test]
fn fragments_alone_keep_the_stream_open() {
    let mut reg = OperationRegistry::new();
    let active = streaming(&mut reg, "s-6");
    let inputs = vec![RelayInput::Fragment(chunk("x")), RelayInput::Fragment(chunk("y"))];
    let (rest, emits) = relay_feed(active, &mut reg, inputs);
    assert!(rest.is_some());
    assert_eq!(emits.len(), 2);
    assert!(emits.iter().all(|e| matches!(e, RelayEmit::Chunk(_))));
    assert!(reg.has_operation("s-6"));
}
