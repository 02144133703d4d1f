use starbase_process::command::{Arg, Command, Env, EnvVars, Executable};
use starbase_process::exec_flow::{
    continuous_output, exec_error, input_item_written, input_written_to_child, read_step, CaptureRoute,
    ExecMode, ReadStep, WriteStep,
};
use starbase_process::error::{IoError, IoErrorKind, ProcessError};
use starbase_process::prelog::{format_command_line, starts_with, RootDirSource};
use starbase_process::prepared::{equal_ignoring_ascii_case, freeze_env};
use starbase_process::shell::ShellKind;
use starbase_process::signal::ChildExit;
use starbase_process::spawn::{EnvAction, SpawnProgram};

fn direct(bin: &str) -> Command {
    Command::with_executable(Executable::Binary(Arg::from_value(bin)), None)
}

fn pairs(items: &[(&str, &str)]) -> Vec<(String, String)> {
    items.iter().map(|(k, v)| (k.to_string(), v.to_string())).collect()
}

fn io_error(kind: IoErrorKind) -> IoError {
    IoError { kind, raw_os_error: None, message: "e".to_owned() }
}

#[test]
fn env_vars_keep_one_entry_per_name() {
    let mut env = EnvVars::new();
    env.insert("A", Env::SetAlways("1".to_owned()));
    env.insert("B", Env::Unset);
    env.insert("A", Env::SetIfMissing("2".to_owned()));
    assert_eq!(env.len(), 2);
    assert_eq!(env.get("A"), Some(&Env::SetIfMissing("2".to_owned())));
    assert!(env.contains_key("B"));
    assert!(!env.contains_key("C"));
}

#[test]
fn cache_key_ignores_env_order_and_other_settings() {
    let mut a = direct("git");
    a.arg(Arg::from_value("status")).env("A", "1").env("B", "2").cwd("/repo");
    let mut b = direct("git");
    b.env("B", "2").env("A", "1").arg(Arg::from_value("status")).cwd("/repo");
    b.set_print_command(true).set_error_on_nonzero(false).set_shell(ShellKind::Zsh);
    assert_eq!(a.get_cache_key(), b.get_cache_key());
    assert!(a.get_cache_key().chars().all(|c| c.is_ascii_digit()));
}

#[test]
fn cache_key_depends_on_what_the_command_runs() {
    let mut a = direct("git");
    a.arg(Arg::from_value("status"));
    let mut b = direct("git");
    b.arg(Arg::from_value("log"));
    assert_ne!(a.get_cache_key(), b.get_cache_key());

    let mut c = direct("git");
    c.arg(Arg::from_value("status")).env("A", "1");
    let mut d = direct("git");
    d.arg(Arg::from_value("status")).env_with_behavior("A", Env::SetIfMissing("1".to_owned()));
    assert_ne!(c.get_cache_key(), d.get_cache_key());
}

#[test]
fn cache_key_length_prefixes_values() {
    let mut a = direct("git");
    a.arg(Arg::from_value("ab")).arg(Arg::from_value("c"));
    let mut b = direct("git");
    b.arg(Arg::from_value("a")).arg(Arg::from_value("bc"));
    assert_ne!(a.get_cache_key(), b.get_cache_key());
}

#[test]
fn direct_spawn_plan() {
    let mut command = direct("git");
    command
        .arg(Arg::from_value("commit"))
        .arg(Arg::from_value("-m"))
        .arg(Arg::from_value("a b"))
        .env("A", "1")
        .env_remove("B")
        .env_with_behavior("C", Env::SetIfMissing("3".to_owned()))
        .cwd("/repo")
        .append_paths(&vec!["/opt/bin".to_owned()]);
    let plan = command.spawn_plan();
    match plan.program {
        SpawnProgram::Direct { program, args } => {
            assert_eq!(program, "git");
            assert_eq!(args, vec!["commit", "-m", "a b"]);
        }
        other => panic!("unexpected {other:?}"),
    }
    assert!(!plan.remove_bash_env);
    assert_eq!(plan.env.len(), 3);
    assert!(matches!(&plan.env[0], EnvAction::Assign { key, value } if key == "A" && value == "1"));
    assert!(matches!(&plan.env[1], EnvAction::Remove { key } if key == "B"));
    assert!(matches!(&plan.env[2], EnvAction::SetIfMissing { key, value } if key == "C" && value == "3"));
    assert_eq!(plan.cwd.as_deref(), Some("/repo"));
    assert_eq!(plan.prepend_paths, vec!["/opt/bin"]);
}

#[test]
fn shell_spawn_plan_removes_bash_env() {
    let mut command = direct("git");
    command.set_shell(ShellKind::Bash).arg(Arg::from_value("status"));
    let plan = command.spawn_plan();
    match &plan.program {
        SpawnProgram::Shell { shell, script } => {
            assert_eq!(*shell, ShellKind::Bash);
            assert_eq!(script, "git status");
        }
        other => panic!("unexpected {other:?}"),
    }
    assert!(plan.remove_bash_env);

    command.env("BASH_ENV", "/ci/env");
    assert!(!command.spawn_plan().remove_bash_env);

    let mut zsh = direct("git");
    zsh.set_shell(ShellKind::Zsh);
    assert!(!zsh.spawn_plan().remove_bash_env);
}

#[test]
fn explicit_path_wins_over_lookup_paths() {
    let mut command = direct("git");
    command.append_paths(&vec!["/opt/bin".to_owned()]).env("PATH", "/usr/bin");
    assert!(command.spawn_plan().prepend_paths.is_empty());
}

#[test]
fn root_dir_sources() {
    let mut command = direct("git");
    assert_eq!(command.root_dir_source(), RootDirSource::CurrentDir);
    command.debug.root_dir_env_key = Some("ROOT".to_owned());
    assert_eq!(command.root_dir_source(), RootDirSource::HostVar("ROOT".to_owned()));
    command.env("ROOT", "/workspace");
    assert_eq!(command.root_dir_source(), RootDirSource::Value("/workspace".to_owned()));
    command.env("ROOT", "");
    assert_eq!(command.root_dir_source(), RootDirSource::CurrentDir);
    command.env_remove("ROOT");
    assert_eq!(command.root_dir_source(), RootDirSource::HostVar("ROOT".to_owned()));
}

#[test]
fn working_dir_and_printing() {
    let mut command = direct("git");
    assert_eq!(command.working_dir("/root"), "/root");
    command.cwd("/root/app");
    assert_eq!(command.working_dir("/root"), "/root/app");
    assert!(!command.should_print_command_line(true, false));
    command.set_print_command(true);
    assert!(command.should_print_command_line(true, false));
    assert!(!command.should_print_command_line(true, true));
    assert!(!command.should_print_command_line(false, false));
}

#[test]
fn logged_env_filters_by_prefix() {
    let mut command = direct("git");
    command.env("MOON_A", "1").env("OTHER", "2").env_remove("MOON_B").env("MOON_C", "3");
    command.debug.env_key_prefixes = vec!["MOON_".to_owned()];
    assert_eq!(command.logged_env(), pairs(&[("MOON_A", "1"), ("MOON_C", "3")]));
    command.debug.print_env = true;
    assert_eq!(command.logged_env(), pairs(&[("MOON_A", "1"), ("OTHER", "2"), ("MOON_C", "3")]));
}

#[test]
fn prefixes_and_case() {
    assert!(starts_with("MOON_A", "MOON_"));
    assert!(!starts_with("MO", "MOON_"));
    assert!(equal_ignoring_ascii_case("Path", "PATH"));
    assert!(!equal_ignoring_ascii_case("Path", "PATHS"));
}

#[test]
fn command_line_is_labelled_with_its_directory() {
    let line = format_command_line(" git status ", "/root", "/root");
    assert!(line.contains("git status"));
    assert!(line.contains("(in workspace)"));
    let line = format_command_line("git", "/root", "/root/app/web");
    assert!(line.contains("(in ./app/web)") || line.contains("(in .\\app/web)"));
    let line = format_command_line("git", "/root", "/elsewhere");
    assert!(line.contains("(in .)"));
}

#[test]
fn frozen_env_applies_directives_in_order() {
    let host = pairs(&[("B", "host-b"), ("A", "host-a"), ("Path", "/bin")]);
    let directives = vec![
        ("A".to_owned(), None),
        ("C".to_owned(), Some("c".to_owned())),
        ("PATH".to_owned(), Some("/opt".to_owned())),
    ];
    assert_eq!(
        freeze_env(&host, &directives, false),
        pairs(&[("B", "host-b"), ("C", "c"), ("PATH", "/opt"), ("Path", "/bin")])
    );
    assert_eq!(freeze_env(&host, &directives, true), pairs(&[("B", "host-b"), ("C", "c"), ("PATH", "/opt")]));
}

#[test]
fn frozen_input_joins_or_concatenates() {
    let mut command = direct("cat");
    command.input(&vec!["ab".to_owned(), "c".to_owned()]);
    assert_eq!(command.frozen_input(), b"ab c".to_vec());
    command.set_continuous_pipe(true);
    assert_eq!(command.frozen_input(), b"abc".to_vec());
}

#[test]
fn capture_routes() {
    let mut command = direct("git");
    assert_eq!(command.capture_route(), CaptureRoute::Direct);
    command.set_cache(true);
    assert_eq!(command.capture_route(), CaptureRoute::Cached);
    command.debug.is_test_env = true;
    assert_eq!(command.capture_route(), CaptureRoute::Direct);
    command.set_continuous_pipe(true);
    assert_eq!(command.capture_route(), CaptureRoute::Continuous);
}

#[test]
fn exec_errors_by_mode() {
    assert!(matches!(exec_error(ExecMode::Capture, "git", io_error(IoErrorKind::Other)), ProcessError::Capture { .. }));
    assert!(matches!(exec_error(ExecMode::Stream, "git", io_error(IoErrorKind::Other)), ProcessError::Stream { .. }));
    assert!(matches!(
        exec_error(ExecMode::StreamCapture, "git", io_error(IoErrorKind::Other)),
        ProcessError::StreamCapture { .. }
    ));
}

#[test]
fn reads_and_writes_are_judged() {
    assert_eq!(read_step(Ok(0)), ReadStep::Stop);
    assert_eq!(read_step(Ok(7)), ReadStep::Append(7));
    assert_eq!(read_step(Err(io_error(IoErrorKind::Interrupted))), ReadStep::Retry);
    assert_eq!(read_step(Err(io_error(IoErrorKind::Other))), ReadStep::Stop);

    assert!(matches!(input_item_written("git", Ok(())), WriteStep::Next));
    assert!(matches!(input_item_written("git", Err(io_error(IoErrorKind::BrokenPipe))), WriteStep::Stop));
    assert!(matches!(
        input_item_written("git", Err(io_error(IoErrorKind::Other))),
        WriteStep::Fail(ProcessError::WriteInput { .. })
    ));
    assert!(input_written_to_child("git", Err(io_error(IoErrorKind::BrokenPipe))).is_ok());
    assert!(input_written_to_child("git", Err(io_error(IoErrorKind::Other))).is_err());
}

#[test]
fn continuous_output_reports_wait_then_input_failures() {
    let output = continuous_output("git", Ok(ChildExit::Killed), Ok(()), b"o".to_vec(), b"e".to_vec()).unwrap();
    assert_eq!(output.stdout, b"o".to_vec());
    assert_eq!(output.stderr, b"e".to_vec());
    let waited = continuous_output(
        "git",
        Err(io_error(IoErrorKind::Other)),
        Err(ProcessError::WriteInput { bin: "git".to_owned(), error: io_error(IoErrorKind::Other) }),
        vec![],
        vec![],
    );
    assert!(matches!(waited, Err(ProcessError::Capture { .. })));
    let input = continuous_output(
        "git",
        Ok(ChildExit::Killed),
        Err(ProcessError::WriteInput { bin: "git".to_owned(), error: io_error(IoErrorKind::Other) }),
        vec![],
        vec![],
    );
    assert!(matches!(input, Err(ProcessError::WriteInput { .. })));
}

#[test]
fn nonzero_status_handling() {
    let command = direct("git");
    let failed = starbase_process::output::Output {
        exit: ChildExit::Killed,
        stdout: vec![],
        stderr: vec![],
    };
    assert!(command.handle_nonzero_status(&failed, false).is_err());
    let mut lenient = direct("git");
    lenient.set_error_on_nonzero(false);
    assert!(lenient.handle_nonzero_status(&failed, false).is_ok());
}

#[test]
fn blocking_capture_refuses_unsupported_options() {
    let mut command = direct("git");
    assert!(command.validate_blocking_capture().is_ok());
    command.input(&vec!["x".to_owned()]);
    match command.validate_blocking_capture().unwrap_err() {
        ProcessError::UnsupportedCaptureOption { bin, option } => {
            assert_eq!(bin, "git");
            assert_eq!(option, "buffered input");
        }
        other => panic!("unexpected {other:?}"),
    }
}
