use starbase_process::child_signals::{ChildSignals, SignalAction};
use starbase_process::children::{ChildState, ChildTable, ProcessEvent, ProcessRegistryOptions};
use starbase_process::error::{IoError, IoErrorKind};
use starbase_process::lifecycle::{
    ensure_running, first_error, initial_shutdown_signal, shutdown_result, ShutdownStart, State,
};
use starbase_process::output::Output;
use starbase_process::output_cache::{output_size, CacheKey, OutputCache};
use starbase_process::registry_types::{RegistryEvent, RegistryOptions, RegistryState};
use starbase_process::shutdown::{
    after_grace, escalation, grace_wait, keep_waiting, next_shutdown_signal, remove_pids,
    repeated_signal, stops_output_when_idle, Escalation, GraceWait, Received, WaitOutcome,
};
use starbase_process::signal::{ChildExit, ExitStatus, SignalType};

fn key(program: &str) -> CacheKey {
    CacheKey {
        program: program.to_owned(),
        args: vec!["--version".to_owned()],
        cwd: "/work".to_owned(),
        env: vec![("A".to_owned(), "1".to_owned())],
        input: vec![],
    }
}

fn success(stdout: &[u8]) -> Output {
    Output {
        exit: ChildExit::Completed(ExitStatus {
            code: Some(0),
            signal: None,
            description: "exit status: 0".to_owned(),
        }),
        stderr: vec![],
        stdout: stdout.to_vec(),
    }
}

fn failure() -> Output {
    Output {
        exit: ChildExit::Completed(ExitStatus {
            code: Some(1),
            signal: None,
            description: "exit status: 1".to_owned(),
        }),
        stderr: b"bad".to_vec(),
        stdout: vec![],
    }
}

fn io_error(message: &str) -> IoError {
    IoError { kind: IoErrorKind::Other, raw_os_error: None, message: message.to_owned() }
}

#[test]
fn registry_options_defaults() {
    let options = RegistryOptions::default();
    assert_eq!(options.shutdown_grace, 5000);
    assert_eq!(options.output_drain_timeout, 1000);
    assert_eq!(options.max_output_bytes, 16 * 1024 * 1024);
    assert_eq!(options.cache_capacity, 128);
    assert_eq!(options.cache_max_bytes, 64 * 1024 * 1024);
    assert_eq!(options.cache_ttl, 300_000);

    let options = ProcessRegistryOptions::default();
    assert_eq!(options.shutdown_threshold, 2000);
    assert!(options.signal_descendants && options.handle_signals && options.kill_on_drop);
    assert_eq!(options.reap_interval, 500);
    assert_eq!(options.cache_capacity, 256);
    assert_eq!(options.channel_capacity, 64);
}

#[test]
fn cache_keys_compare_by_content() {
    assert!(key("rustc").same_as(&key("rustc")));
    assert!(!key("rustc").same_as(&key("cargo")));
    let mut other = key("rustc");
    other.input = vec![1];
    assert!(!key("rustc").same_as(&other));
}

#[test]
fn lookup_after_store_finds_the_output() {
    let mut cache = OutputCache::new();
    cache.store(key("rustc"), success(b"1.0"), 4, 100, 1000, 10);
    assert_eq!(cache.len(), 1);
    assert_eq!(cache.bytes(), 3);
    let found = cache.lookup(&key("rustc"), 1000, 10).unwrap();
    assert_eq!(found.stdout, b"1.0".to_vec());
    assert!(cache.lookup(&key("cargo"), 1000, 10).is_none());
}

#[test]
fn expired_entries_are_dropped() {
    let mut cache = OutputCache::new();
    cache.store(key("rustc"), success(b"1.0"), 4, 100, 1000, 10);
    assert!(cache.lookup(&key("rustc"), 1000, 1009).is_some());
    assert!(cache.lookup(&key("rustc"), 1000, 1010).is_none());
    assert_eq!(cache.len(), 0);
    assert_eq!(cache.bytes(), 0);
}

#[test]
fn least_recently_used_is_evicted_first() {
    let mut cache = OutputCache::new();
    cache.store(key("a"), success(b"a"), 2, 100, 1000, 1);
    cache.store(key("b"), success(b"b"), 2, 100, 1000, 2);
    // Touch `a`, so `b` is now the least recently used.
    assert!(cache.lookup(&key("a"), 1000, 3).is_some());
    cache.store(key("c"), success(b"c"), 2, 100, 1000, 4);
    assert_eq!(cache.len(), 2);
    assert!(cache.lookup(&key("b"), 1000, 5).is_none());
    assert!(cache.lookup(&key("a"), 1000, 5).is_some());
    assert!(cache.lookup(&key("c"), 1000, 5).is_some());
}

#[test]
fn byte_budget_evicts_until_the_output_fits() {
    let mut cache = OutputCache::new();
    cache.store(key("a"), success(b"aaaa"), 10, 8, 1000, 1);
    cache.store(key("b"), success(b"bbbb"), 10, 8, 1000, 2);
    assert_eq!(cache.bytes(), 8);
    cache.store(key("c"), success(b"cc"), 10, 8, 1000, 3);
    assert_eq!(cache.len(), 2);
    assert_eq!(cache.bytes(), 6);
    assert!(cache.lookup(&key("a"), 1000, 4).is_none());
}

#[test]
fn storing_a_key_again_replaces_it() {
    let mut cache = OutputCache::new();
    cache.store(key("a"), success(b"old"), 10, 100, 1000, 1);
    cache.store(key("a"), success(b"newer"), 10, 100, 1000, 2);
    assert_eq!(cache.len(), 1);
    assert_eq!(cache.bytes(), 5);
    assert!(cache.has_distinct_keys());
    assert_eq!(cache.lookup(&key("a"), 1000, 3).unwrap().stdout, b"newer".to_vec());
}

#[test]
fn output_size_counts_both_streams() {
    assert_eq!(output_size(&failure()), 3);
    assert_eq!(output_size(&success(b"12345")), 5);
}

#[test]
fn state_caches_only_successes_of_the_current_epoch() {
    let options = RegistryOptions::default();
    let mut state = State::new();
    state.cache(key("a"), 0, &failure(), &options, 1);
    assert!(state.cached(&key("a"), &options, 2).is_none());
    state.cache(key("a"), 0, &success(b"ok"), &options, 3);
    assert!(state.cached(&key("a"), &options, 4).is_some());

    let stale = state.cache_epoch;
    state.clear_cache();
    assert_eq!(state.cache.len(), 0);
    assert_eq!(state.cache_epoch, stale + 1);
    state.cache(key("b"), stale, &success(b"late"), &options, 5);
    assert!(state.cached(&key("b"), &options, 6).is_none());
}

#[test]
fn disabled_caching_stores_nothing() {
    let mut options = RegistryOptions::default();
    options.cache_capacity = 0;
    let mut state = State::new();
    state.cache(key("a"), 0, &success(b"ok"), &options, 1);
    assert_eq!(state.cache.len(), 0);

    let mut options = RegistryOptions::default();
    options.cache_ttl = 0;
    state.cache(key("a"), 0, &success(b"ok"), &options, 1);
    assert_eq!(state.cache.len(), 0);

    let mut options = RegistryOptions::default();
    options.cache_max_bytes = 1;
    state.cache(key("a"), 0, &success(b"ok"), &options, 1);
    assert_eq!(state.cache.len(), 0);
}

#[test]
fn admission_follows_the_phase() {
    let mut state = State::new();
    assert!(ensure_running(&state).is_ok());
    let first = state.take_next_id().unwrap();
    let second = state.take_next_id().unwrap();
    assert_ne!(first, second);
    assert_eq!(state.next_id, 3);

    assert!(matches!(state.set_state(RegistryState::Stopped), Ok(Some(RegistryEvent::StateChanged(RegistryState::Stopped)))));
    assert!(matches!(state.set_state(RegistryState::Stopped), Ok(None)));
    let error = state.take_next_id().unwrap_err();
    assert_eq!(error.message, "process registry is not accepting work");
    assert_eq!(state.next_id, 3);

    state.next_id = u64::MAX;
    state.set_state(RegistryState::Running).unwrap();
    assert_eq!(state.take_next_id().unwrap_err().message, "process identity space exhausted");
}

#[test]
fn shutdown_stops_admissions_and_ends_stopped() {
    let mut state = State::new();
    let id = state.take_next_id().unwrap();
    assert!(matches!(state.register(id, 42), RegistryEvent::Spawned { pid: 42, .. }));
    assert!(!state.is_idle());

    match state.begin_shutdown() {
        ShutdownStart::Started { processes, event } => {
            assert_eq!(processes, vec![id]);
            assert!(matches!(event, RegistryEvent::StateChanged(RegistryState::ShuttingDown)));
        }
        ShutdownStart::InProgress => panic!("shutdown should start"),
    }
    assert!(matches!(state.begin_shutdown(), ShutdownStart::InProgress));
    assert!(state.signal_forces_kill());
    assert_eq!(state.set_state(RegistryState::Running).unwrap_err().message, "registry shutdown is in progress");
    assert!(state.take_next_id().is_err());

    let event = state.finish(id, &Ok(success(b"")), None, &RegistryOptions::default(), 1);
    assert!(matches!(event, RegistryEvent::Completed { .. }));
    assert!(state.is_idle());
    assert!(matches!(state.finish_shutdown(), RegistryEvent::StateChanged(RegistryState::Stopped)));
    assert_eq!(state.phase, RegistryState::Stopped);
    assert!(state.set_state(RegistryState::Running).is_ok());
}

#[test]
fn finishing_a_failed_run_reports_it() {
    let mut state = State::new();
    let id = state.take_next_id().unwrap();
    state.register(id, 7);
    let event = state.finish(id, &Err(io_error("boom")), Some((key("a"), 0)), &RegistryOptions::default(), 1);
    match event {
        RegistryEvent::Failed { error, .. } => assert_eq!(error.message, "boom"),
        other => panic!("unexpected {other:?}"),
    }
    assert_eq!(state.cache.len(), 0);
}

#[test]
fn finishing_a_successful_cached_run_stores_it() {
    let options = RegistryOptions::default();
    let mut state = State::new();
    let id = state.take_next_id().unwrap();
    state.register(id, 7);
    state.finish(id, &Ok(success(b"hi")), Some((key("a"), 0)), &options, 1);
    assert_eq!(state.cached(&key("a"), &options, 2).unwrap().stdout, b"hi".to_vec());
}

#[test]
fn shutdown_results_report_the_first_error() {
    assert!(shutdown_result(Ok(()), &vec![None, None]).is_ok());
    assert_eq!(shutdown_result(Err(io_error("signal")), &vec![Some(io_error("p"))]).unwrap_err().message, "signal");
    assert_eq!(
        shutdown_result(Ok(()), &vec![None, Some(io_error("first")), Some(io_error("second"))]).unwrap_err().message,
        "first"
    );
    assert!(first_error(&vec![Ok(()), Ok(())]).is_ok());
    assert_eq!(first_error(&vec![Ok(()), Err(io_error("a")), Err(io_error("b"))]).unwrap_err().message, "a");
}

#[test]
fn windows_interrupts_become_terminates() {
    assert_eq!(initial_shutdown_signal(SignalType::Interrupt, true), SignalType::Terminate);
    assert_eq!(initial_shutdown_signal(SignalType::Interrupt, false), SignalType::Interrupt);
    assert_eq!(initial_shutdown_signal(SignalType::Quit, true), SignalType::Quit);
}

#[test]
fn grace_depends_on_signal_and_threshold() {
    assert_eq!(grace_wait(SignalType::Kill, 2000), GraceWait::Immediate);
    assert_eq!(grace_wait(SignalType::Terminate, 0), GraceWait::UntilSignal);
    assert_eq!(grace_wait(SignalType::Terminate, 2000), GraceWait::UntilSignalOrTimeout(2000));
}

#[test]
fn repeated_signal_escalates_only_while_children_run() {
    let first = vec![1, 2];
    assert_eq!(escalation(&first, None, &vec![3]), Escalation::Kill(vec![1, 2]));
    assert_eq!(escalation(&first, Some(SignalType::Interrupt), &vec![3]), Escalation::NewRequest(SignalType::Interrupt));
    assert_eq!(escalation(&first, Some(SignalType::Interrupt), &vec![2, 3, 1, 4]), Escalation::Kill(vec![1, 2, 3, 4]));
}

#[test]
fn force_kill_removes_only_its_children() {
    let mut running = vec![1, 2, 3, 4];
    remove_pids(&mut running, &vec![2, 4, 9]);
    assert_eq!(running, vec![1, 3]);
}

#[test]
fn listener_signals_and_waits() {
    assert_eq!(next_shutdown_signal(Some(SignalType::Quit), Received::Closed), Some(SignalType::Quit));
    assert_eq!(next_shutdown_signal(None, Received::Signal(SignalType::Terminate)), Some(SignalType::Terminate));
    assert_eq!(next_shutdown_signal(None, Received::Lagged), Some(SignalType::Kill));
    assert_eq!(next_shutdown_signal(None, Received::Closed), None);
    assert_eq!(repeated_signal(None), SignalType::Kill);
    assert_eq!(repeated_signal(Some(SignalType::Interrupt)), SignalType::Interrupt);

    assert!(keep_waiting(2000, 1950, 1));
    assert!(!keep_waiting(2000, 2000, 1));
    assert!(!keep_waiting(2000, 0, 0));
    assert!(keep_waiting(0, u32::MAX, 1));
}

#[test]
fn grace_outcomes() {
    assert_eq!(after_grace(SignalType::Kill, WaitOutcome::AllExited, false), (true, None));
    assert_eq!(after_grace(SignalType::Terminate, WaitOutcome::AllExited, false), (false, None));
    assert_eq!(after_grace(SignalType::Terminate, WaitOutcome::ThresholdElapsed, true), (true, None));
    assert_eq!(after_grace(SignalType::Terminate, WaitOutcome::Repeated(SignalType::Interrupt), true), (true, None));
    assert_eq!(
        after_grace(SignalType::Terminate, WaitOutcome::Repeated(SignalType::Interrupt), false),
        (false, Some(SignalType::Interrupt))
    );
    assert!(stops_output_when_idle(SignalType::Kill));
    assert!(!stops_output_when_idle(SignalType::Terminate));
}

#[test]
fn child_table_tracks_and_releases() {
    let mut table = ChildTable::new();
    assert!(matches!(table.track(10, Some("git status".to_owned()), 5), ProcessEvent::Tracking { pid: 10 }));
    table.track(11, None, 6);
    assert!(table.is_running(10));
    assert_eq!(table.running_count(), 2);
    assert!(table.kill_when_dropped(10, true));
    assert!(!table.kill_when_dropped(10, false));

    let exit = ChildExit::Terminated(15);
    assert!(matches!(table.mark_exited(10, exit.clone()), Some(ProcessEvent::Exited { pid: 10, .. })));
    assert!(table.mark_exited(99, exit).is_none());
    assert!(!table.is_running(10));
    assert_eq!(table.running_count(), 1);
    assert_eq!(table.list_running(), vec![11]);
    assert!(!table.all_exited(&vec![10, 11]));
    assert!(table.all_exited(&vec![10, 12]));

    let child = table.get(10).unwrap();
    assert_eq!(child.command.as_deref(), Some("git status"));
    assert_eq!(child.state, ChildState::Exited(ChildExit::Terminated(15)));

    let released = table.release(11).unwrap();
    assert_eq!(released.pid(), 11);
    assert!(table.release(11).is_none());
    assert!(table.get(11).is_none());
    assert!(table.none_running());
    let mut pids = table.list();
    pids.sort();
    assert_eq!(pids, vec![10]);
}

#[test]
fn tracking_a_pid_again_replaces_it() {
    let mut table = ChildTable::new();
    table.track(10, None, 1);
    table.mark_exited(10, ChildExit::Killed);
    table.track(10, None, 2);
    assert!(table.is_running(10));
    assert_eq!(table.list(), vec![10]);
}

#[test]
fn first_signal_decides_the_exit() {
    let status = ExitStatus { code: None, signal: None, description: "unknown".to_owned() };
    let mut signals = ChildSignals::new();
    assert!(matches!(signals.plan_signal(None, Some(5), SignalType::Terminate), SignalAction::Deliver(5)));
    signals.delivered(SignalType::Terminate);
    signals.delivered(SignalType::Kill);
    assert!(signals.output_stopped());
    assert_eq!(signals.exit_of(status.clone()), ChildExit::Terminated(15));

    let mut fresh = ChildSignals::new();
    assert!(matches!(fresh.plan_signal(None, None, SignalType::Kill), SignalAction::Gone));
    assert!(!fresh.output_stopped());
    assert!(matches!(fresh.plan_signal(Some(status.clone()), Some(5), SignalType::Kill), SignalAction::Exited(_)));
    assert!(fresh.output_stopped());
    assert_eq!(fresh.exit_of(status.clone()), ChildExit::Completed(status));
}

#[test]
fn only_the_original_handle_cleans_up_once() {
    let mut signals = ChildSignals::new();
    assert!(!signals.hand_to_cleanup(false));
    assert!(signals.hand_to_cleanup(true));
    assert!(!signals.hand_to_cleanup(true));
    let mut released = ChildSignals::new();
    released.stop_cleanup();
    assert!(!released.hand_to_cleanup(true));
}
