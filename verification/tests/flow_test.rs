use starbase_process::id::Id;
use starbase_process::lifecycle::run_registry_shutdown;
use starbase_process::registry_types::{RegistryEvent, RegistryState};
use starbase_process::shell::command_candidates;
use starbase_process::job_threads::{suspended_thread, thread_still_owned};
use starbase_process::cached_runs::{finish_cached, start_cached, CachedStart};
use starbase_process::lifecycle::{first_round, grace_round, State};
use starbase_process::children::{ChildTable, ProcessEvent};
use starbase_process::command::{Arg, Command, Env, Executable};
use starbase_process::error::{IoError, IoErrorKind, ProcessError};
use starbase_process::exec_flow::{finish_continuous_run, stream_capture_output};
use starbase_process::macro_syntax::{
    plan_listener_item, plan_resource_item, plan_state_item, plan_subscriber_item, plan_system_item,
};
use starbase_process::derive_plans::DerivedImpl;
use starbase_process::output::{output_to_string, output_to_trimmed_string};
use starbase_process::shutdown::{close_shutdown, end_shutdown, open_shutdown, shutdown_targets, WaitOutcome};
use starbase_process::signal::{ChildExit, SignalType};
use starbase_process::spawn::spawn_env;
use starbase_process::stream::StreamCapture;
use starbase_process::system_macro::Statement;

fn direct(bin: &str) -> Command {
    Command::with_executable(Executable::Binary(Arg::from_value(bin)), None)
}

fn failure(message: &str) -> IoError {
    IoError { kind: IoErrorKind::Other, raw_os_error: None, message: message.to_owned() }
}

#[test]
fn valid_output_decodes_exactly() {
    assert_eq!(output_to_string(b"a\xffb"), "a\u{FFFD}b");
    assert_eq!(output_to_trimmed_string(b"  hi \r\n"), "hi");
    let trimmed = output_to_trimmed_string(b"\n ok \n");
    assert_eq!(output_to_trimmed_string(trimmed.as_bytes()), trimmed);
}

#[test]
fn spawn_env_sets_pwd_and_skips_present_variables() {
    let mut command = direct("git");
    command
        .env("A", "1")
        .env_with_behavior("HOME", Env::SetIfMissing("/nowhere".to_owned()))
        .env_with_behavior("NEW", Env::SetIfMissing("x".to_owned()))
        .env_remove("B")
        .cwd("/tmp");
    let plan = command.spawn_plan();
    let env = spawn_env(&plan, &vec!["HOME".to_owned(), "PATH".to_owned()]);
    assert_eq!(
        env,
        vec![
            ("A".to_owned(), Some("1".to_owned())),
            ("NEW".to_owned(), Some("x".to_owned())),
            ("B".to_owned(), None),
            ("PWD".to_owned(), Some("/tmp".to_owned())),
        ]
    );
}

#[test]
fn shutdown_events_are_bracketed() {
    let mut table = ChildTable::new();
    let idle = open_shutdown(&table, SignalType::Kill);
    assert!(idle.finished && idle.stop_output && idle.targets.is_empty());
    assert!(matches!(idle.events.as_slice(), [ProcessEvent::ShutdownFinished]));

    table.track(10, None, 1);
    table.track(11, None, 1);
    let opening = open_shutdown(&table, SignalType::Terminate);
    assert!(!opening.finished && !opening.stop_output);
    let mut targets = opening.targets.clone();
    targets.sort();
    assert_eq!(targets, vec![10, 11]);
    assert!(matches!(&opening.events[0], ProcessEvent::ShutdownStarted { signal: SignalType::Terminate, pids } if pids == &opening.targets));

    let closing = close_shutdown(&table, &opening.targets, SignalType::Terminate, WaitOutcome::Repeated(SignalType::Interrupt));
    assert_eq!(closing.pending, None);
    assert!(closing.stop_output);
    assert!(matches!(closing.events[0], ProcessEvent::Signal(SignalType::Interrupt)));
    assert!(matches!(&closing.events[1], ProcessEvent::ShutdownForced { pids } if pids.len() == 2));
    assert!(matches!(closing.events[2], ProcessEvent::ShutdownFinished));

    let calm = close_shutdown(&table, &vec![], SignalType::Terminate, WaitOutcome::AllExited);
    assert!(calm.kill_targets.is_empty() && !calm.stop_output);
    assert!(matches!(calm.events.as_slice(), [ProcessEvent::ShutdownFinished]));
}

#[test]
fn registered_shutdown_stops_every_child() {
    assert_eq!(shutdown_targets(&vec![]), None);
    assert_eq!(shutdown_targets(&vec![3, 4]), Some(vec![3, 4]));

    let mut running = vec![3, 4, 9];
    let end = end_shutdown(&vec![3, 4], None, &mut running);
    assert_eq!(end.kill, vec![3, 4]);
    assert_eq!(end.stop_output, vec![3, 4]);
    assert_eq!(running, vec![9]);

    let mut running = vec![9];
    let end = end_shutdown(&vec![3, 4], Some(SignalType::Interrupt), &mut running);
    assert_eq!(end.pending, Some(SignalType::Interrupt));
    assert_eq!(end.stop_output, vec![3, 4]);
    assert!(end.kill.is_empty());
    assert_eq!(running, vec![9]);

    let mut running = vec![4, 9];
    let end = end_shutdown(&vec![3, 4], Some(SignalType::Kill), &mut running);
    assert_eq!(end.kill, vec![3, 4, 9]);
    assert!(running.is_empty());
}

#[test]
fn streamed_input_is_taken_and_concatenated() {
    let mut command = direct("cat");
    command.input(&vec!["ab".to_owned(), "c".to_owned()]).set_continuous_pipe(true);
    let chunks = command.take_stdin_items();
    assert_eq!(chunks, vec![b"ab".to_vec(), b"c".to_vec()]);
    assert!(command.input.is_empty());

    let mut running = vec![5, 6];
    let output = finish_continuous_run(&mut running, 5, "cat", Ok(ChildExit::Killed), Ok(()), b"o".to_vec(), vec![]).unwrap();
    assert_eq!(running, vec![6]);
    assert_eq!(output.stdout, b"o".to_vec());
    let error = finish_continuous_run(&mut running, 6, "cat", Err(failure("wait")), Ok(()), vec![], vec![]).unwrap_err();
    assert!(matches!(error, ProcessError::Capture { .. }));
    assert!(running.is_empty());
}

#[test]
fn streamed_capture_is_collapsed() {
    let mut out = StreamCapture::new(None);
    out.feed(b"10%\r50%\r100%\n");
    let err = StreamCapture::new(None);
    let output = stream_capture_output("git", Ok(ChildExit::Killed), out, err).unwrap();
    assert_eq!(output.stdout, b"100%\n".to_vec());
    let error = stream_capture_output("git", Err(failure("wait")), StreamCapture::new(None), StreamCapture::new(None)).unwrap_err();
    assert!(matches!(error, ProcessError::StreamCapture { bin, .. } if bin == "git"));
}

#[test]
fn system_items_are_parsed_and_planned() {
    let plan = plan_system_item("fn run(states: StatesMut, cfg: ResourceRef<Config>) { }").unwrap();
    assert_eq!(plan.state_param, "states");
    assert_eq!(
        plan.state_quotes,
        vec![Statement::Acquire { mutable: true, var: "states".to_owned(), manager: "states".to_owned() }]
    );
    assert_eq!(plan.resource_quotes.len(), 2);
    assert!(matches!(&plan.resource_quotes[1], Statement::Fetch { name, ty, mutable: false, .. } if name == "cfg" && ty == "Config"));
    assert_eq!(
        plan_system_item("fn run(&self) { }").unwrap_err(),
        "&self not permitted in system functions."
    );
    assert!(plan_system_item("struct NotAFunction;").is_err());
}

#[test]
fn derive_items_are_parsed_and_planned() {
    assert_eq!(
        plan_resource_item("struct Wrapper(String);").unwrap(),
        vec![DerivedImpl::Instance, DerivedImpl::AsRefSelf, DerivedImpl::Deref, DerivedImpl::DerefMut, DerivedImpl::AsRefInner]
    );
    assert_eq!(
        plan_state_item("struct Root(PathBuf);").unwrap(),
        vec![DerivedImpl::Instance, DerivedImpl::Deref, DerivedImpl::DerefMut, DerivedImpl::AsRefInner, DerivedImpl::AsRefPath]
    );
    assert_eq!(plan_state_item("union U { a: u8 }").unwrap_err(), "#[derive(State)] is not supported for unions.");
    assert!(plan_resource_item("fn nope() {}").is_err());
}

#[test]
fn listener_and_subscriber_items_are_parsed_and_planned() {
    let plan = plan_listener_item("fn on_start(event: &mut Started) { }", true).unwrap();
    assert_eq!(plan.listener_name, "OnStartListener");
    assert_eq!(plan.event_name, "Started");
    assert!(plan.is_once);
    assert_eq!(plan_listener_item("fn nothing() { }", false).unwrap_err(), "Macro #[listener] requires an event as the only argument.");

    let plan = plan_subscriber_item("fn on_run(mut data: RunEvent) { }").unwrap();
    assert_eq!(plan.data_name, "data");
    assert_eq!(plan.event_type, "RunEvent");
    assert!(plan.is_mutable && plan.add_continue);
    let plan = plan_subscriber_item("fn on_run(data: &Run) { Ok(EventState::Stop) }").unwrap();
    assert!(!plan.is_mutable && !plan.add_continue);
    assert_eq!(
        plan_subscriber_item("fn on_run(data: &Run) { a::b(1) }").unwrap_err(),
        "called `Option::unwrap()` on a `None` value"
    );
    assert_eq!(plan_subscriber_item("fn on_run() { }").unwrap_err(), "Requires an event as the only parameter.");
}

#[test]
fn prepared_runs_freeze_what_the_child_gets() {
    let mut command = direct("git");
    command.cwd("sub").input(&vec!["a".to_owned(), "b".to_owned()]);
    let host = vec![("HOME".to_owned(), "/home/me".to_owned())];
    let directives = vec![("A".to_owned(), Some("1".to_owned())), ("HOME".to_owned(), None)];
    let run = command.prepare_run("git".to_owned(), vec!["status".to_owned()], "/work", &host, &directives, false);
    assert_eq!(run.key.program, "git");
    assert_eq!(run.key.args, vec!["status"]);
    assert_eq!(run.key.cwd, "/work/sub");
    assert_eq!(run.cwd, "/work/sub");
    assert_eq!(run.key.env, vec![("A".to_owned(), "1".to_owned())]);
    assert_eq!(run.env, run.key.env);
    assert_eq!(run.key.input, b"a b".to_vec());
    assert_eq!(run.input, run.key.input);

    let mut absolute = direct("git");
    absolute.cwd("/elsewhere");
    let run = absolute.prepare_run("git".to_owned(), vec![], "/work", &vec![], &vec![], false);
    assert_eq!(run.key.cwd, "/elsewhere");
}

#[test]
fn cached_runs_are_shared() {
    let mut inflight: Vec<String> = vec![];
    assert_eq!(start_cached(true, &mut inflight, "k"), CachedStart::Hit);
    assert!(inflight.is_empty());
    assert_eq!(start_cached(false, &mut inflight, "k"), CachedStart::Run);
    assert_eq!(inflight, vec!["k"]);
    assert_eq!(start_cached(false, &mut inflight, "k"), CachedStart::Join);
    let waiter = finish_cached(&mut inflight, "k", false, true);
    assert!(waiter.cache && !waiter.publish);
    assert_eq!(inflight, vec!["k"]);
    let failed = finish_cached(&mut inflight, "k", true, false);
    assert!(!failed.cache && !failed.publish);
    assert!(inflight.is_empty());
}

#[test]
fn registry_shutdown_rounds() {
    let mut state = State::new();
    let start = state.begin_shutdown();
    let round = first_round(&start, SignalType::Interrupt, true).unwrap();
    assert_eq!(round.signal, SignalType::Terminate);
    assert!(round.processes.is_empty());
    assert!(grace_round(&round, true).is_none());
    let kill = grace_round(&round, false).unwrap();
    assert_eq!(kill.signal, SignalType::Kill);
    assert!(first_round(&state.begin_shutdown(), SignalType::Interrupt, false).is_none());
}

#[test]
fn suspended_threads_are_found_by_owner() {
    let entries = vec![(1, 7), (2, 9), (3, 9)];
    assert_eq!(suspended_thread(&entries, 9).unwrap(), 2);
    assert_eq!(suspended_thread(&entries, 4).unwrap_err().message, "suspended child thread was not found");
    assert!(thread_still_owned(9, 9).is_ok());
    assert_eq!(thread_still_owned(8, 9).unwrap_err().message, "suspended child thread identity changed");
}

#[test]
fn cleaning_errors_hold_the_cleaned_text() {
    assert_eq!(Id::clean("@@--").unwrap_err().0, "");
    assert_eq!(Id::clean("--a b--").unwrap().as_str(), "a-b");
}

#[test]
fn empty_angle_brackets_count_as_no_arguments() {
    let plan = plan_system_item("fn run(s: States<>, r: ResourcesRef) { }").unwrap();
    assert_eq!(plan.state_param, "s");
    assert!(plan.state_quotes.is_empty());
    assert_eq!(
        plan.resource_quotes,
        vec![Statement::Acquire { mutable: false, var: "r".to_owned(), manager: "resources".to_owned() }]
    );
}

#[test]
fn state_newtypes_of_pathbuf_are_paths() {
    assert!(plan_state_item("struct Root(std::path::PathBuf);").unwrap().len() == 4);
    assert_eq!(plan_state_item("struct Root(PathBuf);").unwrap().len(), 5);
}

#[test]
fn powershell_names_are_aliases() {
    assert_eq!(command_candidates("powershell"), vec!["pwsh", "powershell"]);
    assert_eq!(command_candidates("pwsh"), vec!["pwsh", "powershell"]);
    assert_eq!(command_candidates("git"), vec!["git"]);
}

#[test]
fn whole_registry_shutdowns() {
    let mut state = State::new();
    let run = run_registry_shutdown(&mut state, SignalType::Interrupt, false, Ok(()), false, Ok(()), &vec![None]);
    assert!(!run.joined);
    assert!(matches!(run.events.as_slice(), [
        RegistryEvent::StateChanged(RegistryState::ShuttingDown),
        RegistryEvent::StateChanged(RegistryState::Stopped)
    ]));
    assert_eq!(run.rounds.len(), 2);
    assert_eq!(run.rounds[0].signal, SignalType::Interrupt);
    assert_eq!(run.rounds[1].signal, SignalType::Kill);
    assert!(matches!(run.result, Some(Ok(()))));

    let mut state = State::new();
    let run = run_registry_shutdown(&mut state, SignalType::Terminate, false, Ok(()), false, Err(failure("kill")), &vec![]);
    assert!(matches!(run.result, Some(Err(ref e)) if e.message == "kill"));

    let mut state = State::new();
    let run = run_registry_shutdown(&mut state, SignalType::Terminate, false, Ok(()), true, Err(failure("kill")), &vec![Some(failure("exit"))]);
    assert_eq!(run.rounds.len(), 1);
    assert!(matches!(run.result, Some(Err(ref e)) if e.message == "exit"));

    let mut shutting = State::new();
    shutting.begin_shutdown();
    let joined = run_registry_shutdown(&mut shutting, SignalType::Terminate, false, Ok(()), true, Ok(()), &vec![]);
    assert!(joined.joined && joined.events.is_empty() && joined.result.is_none());
}
