use assistant_core::ops::{begin, step, OperationStep, RaceEvent};
use assistant_core::registry::OperationRegistry;
use std::time::{Duration, Instant};

#[test]
fn register_signal_unregister() {
    let mut reg = OperationRegistry::new();
    assert!(!reg.has_operation("op"));
    reg.register("op");
    assert!(reg.has_operation("op"));
    assert!(!reg.is_signaled("op"));
    reg.signal("op");
    assert!(reg.is_signaled("op"));
    // re-registering installs a fresh, unsignaled flag
    reg.register("op");
    assert!(!reg.is_signaled("op"));
    reg.unregister("op");
    assert!(!reg.has_operation("op"));
}

#[test]
fn abort_of_unknown_operation_never_errors() {
    let mut reg = OperationRegistry::new();
    reg.signal("nonexistent");
    assert!(!reg.has_operation("nonexistent"));
    // a signal aimed at one operation does not touch another
    reg.register("alive");
    reg.signal("nonexistent");
    assert!(reg.has_operation("alive"));
    assert!(!reg.is_signaled("alive"));
}

#[test]
fn deadline_yields_timeout_error_and_unregisters() {
    let mut reg = OperationRegistry::new();
    let op = begin(&mut reg, "op-1", "Request timeout: provider did not respond");
    assert!(reg.has_operation("op-1"));
    match step::<u32>(op, &mut reg, RaceEvent::DeadlineElapsed) {
        OperationStep::Finished(Err(m)) => {
            assert_eq!(m, "Request timeout: provider did not respond")
        }
        _ => panic!("expected the timeout error"),
    }
    assert!(!reg.has_operation("op-1"));
}

#[test]
fn signaled_poll_yields_abort_error_and_unregisters() {
    let mut reg = OperationRegistry::new();
    let op = begin(&mut reg, "op-2", "timeout");
    // an unsignaled poll decides nothing and keeps the registration
    let op = match step::<u32>(op, &mut reg, RaceEvent::PollTick) {
        OperationStep::Pending(op) => op,
        _ => panic!("expected the operation to stay pending"),
    };
    assert!(reg.has_operation("op-2"));
    reg.signal("op-2");
    match step::<u32>(op, &mut reg, RaceEvent::PollTick) {
        OperationStep::Finished(Err(m)) => assert_eq!(m, "Operation aborted by user"),
        _ => panic!("expected the abort error"),
    }
    assert!(!reg.has_operation("op-2"));
}

#[test]
fn work_result_passes_through_untouched() {
    let mut reg = OperationRegistry::new();
    let op = begin(&mut reg, "op-3", "timeout");
    match step(op, &mut reg, RaceEvent::WorkFinished(Ok(41u32))) {
        OperationStep::Finished(Ok(v)) => assert_eq!(v, 41),
        _ => panic!("expected the work's own result"),
    }
    assert!(!reg.has_operation("op-3"));

    let op = begin(&mut reg, "op-4", "timeout");
    match step::<u32>(op, &mut reg, RaceEvent::WorkFinished(Err("upstream failed".to_string()))) {
        OperationStep::Finished(Err(m)) => assert_eq!(m, "upstream failed"),
        _ => panic!("expected the work's own error"),
    }
    assert!(!reg.has_operation("op-4"));
}

/// Drive the race the way the runtime edge does: work, a deadline timer and
/// an abort-polling loop, whichever resolves first deciding the event.
async fn run_race(
    reg: &mut OperationRegistry,
    id: &str,
    timeout: Duration,
    timeout_message: &str,
    work: Duration,
) -> Result<u32, String> {
    let mut op = begin(reg, id, timeout_message);
    let started = Instant::now();
    loop {
        let ev: RaceEvent<u32> = if started.elapsed() >= work {
            RaceEvent::WorkFinished(Ok(7))
        } else if started.elapsed() >= timeout {
            RaceEvent::DeadlineElapsed
        } else {
            RaceEvent::PollTick
        };
        match step(op, reg, ev) {
            OperationStep::Finished(r) => return r,
            OperationStep::Pending(p) => op = p,
        }
        tokio::time::sleep(Duration::from_millis(20)).await;
    }
}

#[test]
fn slow_work_times_out_within_about_a_second() {
    let rt = tokio::runtime::Builder::new_multi_thread()
        .enable_time()
        .build()
        .unwrap();
    let mut reg = OperationRegistry::new();
    let started = Instant::now();
    let r = rt.block_on(run_race(
        &mut reg,
        "slow",
        Duration::from_secs(1),
        "deadline passed",
        Duration::from_secs(5),
    ));
    let elapsed = started.elapsed();
    assert_eq!(r, Err("deadline passed".to_string()));
    assert!(elapsed >= Duration::from_millis(900), "{:?}", elapsed);
    assert!(elapsed < Duration::from_millis(2500), "{:?}", elapsed);
    assert!(!reg.has_operation("slow"));
}

#[test]
fn abort_resolves_within_a_poll_interval() {
    let rt = tokio::runtime::Builder::new_multi_thread()
        .enable_time()
        .build()
        .unwrap();
    let rt_handle = rt.handle().clone();
    let mut reg = OperationRegistry::new();
    let mut op = begin(&mut reg, "aborted", "timeout");
    let started = Instant::now();
    let r: Result<u32, String> = rt_handle.block_on(async {
        loop {
            if started.elapsed() >= Duration::from_millis(50) {
                // the external abort request arrives about 50 ms in
                reg.signal("aborted");
            }
            match step(op, &mut reg, RaceEvent::PollTick) {
                OperationStep::Finished(r) => return r,
                OperationStep::Pending(p) => op = p,
            }
            tokio::time::sleep(Duration::from_millis(20)).await;
        }
    });
    let elapsed = started.elapsed();
    assert_eq!(r, Err("Operation aborted by user".to_string()));
    assert!(elapsed < Duration::from_millis(1000), "{:?}", elapsed);
    assert!(!reg.has_operation("aborted"));
}
