use groundcontrol::engine::{Action, Engine, Event};
use groundcontrol::model::{Phase, StartProcessError, StopProcessError, Trigger};

/// What a scripted run saw: the calls in order, and the result.
struct Seen {
    calls: Vec<String>,
    awaited: usize,
    drained: usize,
    result: Result<(), StartProcessError>,
}

/// Runs the engine against scripted processes. `starts[i]` is the outcome of
/// the start of process `names[i]`; `stops` gives the outcome of each stop by
/// the name of the process.
fn drive(
    names: &[&str],
    starts: &[Result<(), StartProcessError>],
    stops: &[(&str, StopProcessError)],
    trigger: Trigger,
) -> Seen {
    let mut calls = Vec::new();
    let mut awaited = 0;
    let mut drained = 0;
    let (mut engine, mut action) = Engine::<String>::new(names.len());
    loop {
        let event = match action {
            Action::Start(i) => {
                calls.push(format!("start {}", names[i]));
                match starts[i] {
                    Ok(()) => Event::Started(names[i].to_string()),
                    Err(err) => Event::StartFailed(err),
                }
            }
            Action::Stop(i, handle) => {
                assert_eq!(names[i], handle);
                calls.push(format!("stop {}", handle));
                match stops.iter().find(|(name, _)| *name == handle) {
                    Some((_, err)) => Event::Stopped(Err(*err)),
                    None => Event::Stopped(Ok(())),
                }
            }
            Action::Drain => {
                drained += 1;
                Event::Drained
            }
            Action::AwaitTrigger => {
                awaited += 1;
                Event::Triggered(trigger)
            }
            Action::Finish(result) => {
                assert_eq!(Phase::Done, engine.phase());
                assert_eq!(Some(result), engine.result());
                assert_eq!(0, engine.running());
                return Seen { calls, awaited, drained, result };
            }
            Action::Ignored(_) => panic!("the engine ignored the outcome of its own request"),
        };
        action = engine.step(event);
    }
}

fn all_ok(n: usize) -> Vec<Result<(), StartProcessError>> {
    vec![Ok(()); n]
}

#[test]
fn failed_pre_aborts_startup() {
    let seen = drive(
        &["a", "b", "c"],
        &[Ok(()), Err(StartProcessError::PreRunFailed), Ok(())],
        &[],
        Trigger::ShutdownRequested,
    );
    assert_eq!(Err(StartProcessError::PreRunFailed), seen.result);
    assert!(!seen.calls.contains(&"start c".to_string()));
}

#[test]
fn failed_pre_shuts_down_earlier_processes() {
    let seen = drive(
        &["a", "b", "c"],
        &[Ok(()), Err(StartProcessError::PreRunFailed), Ok(())],
        &[],
        Trigger::ShutdownRequested,
    );
    assert_eq!(Err(StartProcessError::PreRunFailed), seen.result);
    assert_eq!(vec!["start a", "start b", "stop a"], seen.calls);
}

#[test]
fn happy_path_stops_in_reverse() {
    let seen = drive(&["A", "B", "C"], &all_ok(3), &[], Trigger::ShutdownRequested);
    assert_eq!(
        vec!["start A", "start B", "start C", "stop C", "stop B", "stop A"],
        seen.calls
    );
    assert_eq!(Ok(()), seen.result);
    assert_eq!(1, seen.awaited);
    assert_eq!(0, seen.drained);
}

#[test]
fn first_start_failure_stops_nothing() {
    let seen = drive(
        &["A"],
        &[Err(StartProcessError::PreRunFailed)],
        &[],
        Trigger::ShutdownRequested,
    );
    assert_eq!(vec!["start A"], seen.calls);
    assert_eq!(Err(StartProcessError::PreRunFailed), seen.result);
    assert_eq!(0, seen.awaited);
    assert_eq!(1, seen.drained);
}

#[test]
fn mid_sequence_failure_rolls_back() {
    let seen = drive(
        &["A", "B", "C"],
        &[Ok(()), Err(StartProcessError::PreRunFailed), Ok(())],
        &[],
        Trigger::ShutdownRequested,
    );
    assert_eq!(vec!["start A", "start B", "stop A"], seen.calls);
    assert_eq!(Err(StartProcessError::PreRunFailed), seen.result);
}

#[test]
fn daemon_death_tears_down() {
    let seen = drive(&["A", "B"], &all_ok(2), &[], Trigger::ChildExited);
    assert_eq!(vec!["start A", "start B", "stop B", "stop A"], seen.calls);
    assert_eq!(Ok(()), seen.result);
}

#[test]
fn empty_list_waits_then_finishes() {
    let seen = drive(&[], &[], &[], Trigger::ShutdownClosed);
    assert!(seen.calls.is_empty());
    assert_eq!(Ok(()), seen.result);
    assert_eq!(1, seen.awaited);
}

#[test]
fn rollback_drains_before_finishing() {
    let (mut engine, first) = Engine::<&str>::new(2);
    assert!(matches!(first, Action::Start(0)));
    assert!(matches!(engine.step(Event::Started("A")), Action::Start(1)));
    let stop = engine.step(Event::StartFailed(StartProcessError::RunFailed));
    assert!(matches!(stop, Action::Stop(0, "A")));
    assert_eq!(Phase::Rollback, engine.phase());
    assert_eq!(None, engine.result());
    assert!(matches!(engine.step(Event::Stopped(Ok(()))), Action::Drain));
    assert_eq!(Phase::Draining, engine.phase());
    // A notification of the stopped child is not an outcome of the drain.
    assert!(matches!(
        engine.step(Event::Triggered(Trigger::ChildExited)),
        Action::Ignored(Event::Triggered(Trigger::ChildExited))
    ));
    assert_eq!(Phase::Draining, engine.phase());
    let last = engine.step(Event::Drained);
    assert!(matches!(last, Action::Finish(Err(StartProcessError::RunFailed))));
    assert_eq!(Some(Err(StartProcessError::RunFailed)), engine.result());
}

#[test]
fn all_started_means_n_stops_in_reverse() {
    for n in 0..6usize {
        let names: Vec<String> = (0..n).map(|i| format!("p{}", i)).collect();
        let names: Vec<&str> = names.iter().map(|s| s.as_str()).collect();
        let seen = drive(&names, &all_ok(n), &[], Trigger::ShutdownRequested);
        let mut expected: Vec<String> = names.iter().map(|s| format!("start {}", s)).collect();
        expected.extend(names.iter().rev().map(|s| format!("stop {}", s)));
        assert_eq!(expected, seen.calls);
        assert_eq!(Ok(()), seen.result);
    }
}

#[test]
fn failure_at_k_starts_up_to_k_and_stops_below_k() {
    let n = 5usize;
    let names = ["p0", "p1", "p2", "p3", "p4"];
    for k in 0..n {
        let mut starts = all_ok(n);
        starts[k] = Err(StartProcessError::PreRunAborted(3));
        let seen = drive(&names, &starts, &[], Trigger::ShutdownRequested);
        let mut expected: Vec<String> =
            names[..=k].iter().map(|s| format!("start {}", s)).collect();
        expected.extend(names[..k].iter().rev().map(|s| format!("stop {}", s)));
        assert_eq!(expected, seen.calls);
        assert_eq!(Err(StartProcessError::PreRunAborted(3)), seen.result);
        assert_eq!(0, seen.awaited);
        assert_eq!(1, seen.drained);
    }
}

#[test]
fn no_stop_before_start_and_none_twice() {
    let names = ["p0", "p1", "p2", "p3"];
    let mut scripts = vec![all_ok(4)];
    for k in 0..4 {
        let mut starts = all_ok(4);
        starts[k] = Err(StartProcessError::PreRunKilled);
        scripts.push(starts);
    }
    for starts in scripts {
        let seen = drive(&names, &starts, &[], Trigger::ChildExited);
        for name in names {
            let stop = format!("stop {}", name);
            let start = format!("start {}", name);
            let stopped: Vec<usize> =
                (0..seen.calls.len()).filter(|&p| seen.calls[p] == stop).collect();
            assert!(stopped.len() <= 1);
            if let Some(&p) = stopped.first() {
                let q = seen.calls.iter().position(|c| *c == start).unwrap();
                assert!(q < p);
            }
        }
    }
}

#[test]
fn success_exactly_when_every_start_succeeded() {
    let names = ["p0", "p1", "p2"];
    assert_eq!(Ok(()), drive(&names, &all_ok(3), &[], Trigger::ShutdownClosed).result);
    let errors = [
        StartProcessError::PreRunFailed,
        StartProcessError::PreRunAborted(-1),
        StartProcessError::PreRunKilled,
        StartProcessError::RunFailed,
    ];
    for err in errors {
        for k in 0..3 {
            let mut starts = all_ok(3);
            starts[k] = Err(err);
            assert_eq!(Err(err), drive(&names, &starts, &[], Trigger::ShutdownClosed).result);
        }
    }
}

#[test]
fn first_start_error_is_returned() {
    let seen = drive(
        &["a", "b", "c"],
        &[Ok(()), Err(StartProcessError::RunFailed), Err(StartProcessError::PreRunKilled)],
        &[],
        Trigger::ShutdownRequested,
    );
    assert_eq!(Err(StartProcessError::RunFailed), seen.result);
}

#[test]
fn closing_the_input_is_a_shutdown_request() {
    let names = ["A", "B", "C"];
    let closed = drive(&names, &all_ok(3), &[], Trigger::ShutdownClosed);
    let sent = drive(&names, &all_ok(3), &[], Trigger::ShutdownRequested);
    assert_eq!(sent.calls, closed.calls);
    assert_eq!(sent.result, closed.result);
    assert_eq!(vec!["start A", "start B", "start C", "stop C", "stop B", "stop A"], closed.calls);
}

#[test]
fn later_triggers_are_ignored() {
    let (mut engine, _) = Engine::<u32>::new(2);
    assert!(matches!(engine.step(Event::Started(10)), Action::Start(1)));
    assert!(matches!(engine.step(Event::Started(11)), Action::AwaitTrigger));
    assert_eq!(Phase::Running, engine.phase());
    assert_eq!(2, engine.running());
    assert!(matches!(engine.step(Event::Triggered(Trigger::ChildExited)), Action::Stop(1, 11)));
    assert_eq!(Phase::Teardown, engine.phase());
    assert!(matches!(
        engine.step(Event::Triggered(Trigger::ChildExited)),
        Action::Ignored(Event::Triggered(Trigger::ChildExited))
    ));
    assert!(matches!(
        engine.step(Event::Triggered(Trigger::ShutdownRequested)),
        Action::Ignored(Event::Triggered(Trigger::ShutdownRequested))
    ));
    assert_eq!(Phase::Teardown, engine.phase());
    assert_eq!(1, engine.running());
    assert!(matches!(engine.step(Event::Stopped(Ok(()))), Action::Stop(0, 10)));
    assert!(matches!(engine.step(Event::Stopped(Ok(()))), Action::Finish(Ok(()))));
    assert!(matches!(
        engine.step(Event::Triggered(Trigger::ChildExited)),
        Action::Ignored(_)
    ));
    assert_eq!(Phase::Done, engine.phase());
    assert_eq!(Some(Ok(())), engine.result());
}

#[test]
fn stop_errors_do_not_change_the_result() {
    let stops = [
        ("A", StopProcessError::StopFailed),
        ("B", StopProcessError::ProcessAborted(9)),
        ("C", StopProcessError::ProcessKilled),
        ("D", StopProcessError::PostRunFailed),
    ];
    let names = ["A", "B", "C", "D"];
    let seen = drive(&names, &all_ok(4), &stops, Trigger::ShutdownRequested);
    assert_eq!(Ok(()), seen.result);
    assert_eq!(8, seen.calls.len());
    assert_eq!("stop A", seen.calls[7]);

    let mut starts = all_ok(4);
    starts[3] = Err(StartProcessError::RunFailed);
    let seen = drive(&names, &starts, &stops, Trigger::ShutdownRequested);
    assert_eq!(Err(StartProcessError::RunFailed), seen.result);
    assert_eq!(
        vec!["start A", "start B", "start C", "start D", "stop C", "stop B", "stop A"],
        seen.calls
    );
}

#[test]
fn unawaited_events_come_back() {
    let (mut engine, first) = Engine::<&str>::new(1);
    assert!(matches!(first, Action::Start(0)));
    assert!(matches!(engine.step(Event::Drained), Action::Ignored(Event::Drained)));
    assert!(matches!(
        engine.step(Event::Stopped(Ok(()))),
        Action::Ignored(Event::Stopped(Ok(())))
    ));
    assert_eq!(Phase::Starting, engine.phase());
    assert!(matches!(engine.step(Event::Started("a")), Action::AwaitTrigger));
    // A handle that was not asked for is handed back, not kept.
    assert!(matches!(engine.step(Event::Started("b")), Action::Ignored(Event::Started("b"))));
    assert_eq!(1, engine.running());
    assert!(matches!(
        engine.step(Event::StartFailed(StartProcessError::RunFailed)),
        Action::Ignored(_)
    ));
    assert_eq!(Phase::Running, engine.phase());
}

#[test]
fn empty_engine_starts_in_steady_state() {
    let (mut engine, first) = Engine::<u8>::new(0);
    assert!(matches!(first, Action::AwaitTrigger));
    assert_eq!(Phase::Running, engine.phase());
    assert_eq!(None, engine.result());
    assert!(matches!(
        engine.step(Event::Triggered(Trigger::ShutdownClosed)),
        Action::Finish(Ok(()))
    ));
    assert_eq!(Some(Ok(())), engine.result());
}

#[test]
fn outside_input_gives_its_trigger() {
    assert_eq!(Trigger::ShutdownRequested, Trigger::external(Some(())));
    assert_eq!(Trigger::ShutdownClosed, Trigger::external(None));
    let names = ["A", "B"];
    let closed = drive(&names, &all_ok(2), &[], Trigger::external(None));
    let sent = drive(&names, &all_ok(2), &[], Trigger::external(Some(())));
    assert_eq!(vec!["start A", "start B", "stop B", "stop A"], closed.calls);
    assert_eq!(closed.calls, sent.calls);
    assert_eq!(Ok(()), closed.result);
    assert_eq!(Ok(()), sent.result);
}
