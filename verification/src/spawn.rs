//! How a command is spawned: the program and arguments (directly, or a
//! script wrapped in a shell), the environment directives, the working
//! directory and the lookup paths. The process is then built and started
//! from this plan.

use crate::command::{arg_values, exe_line, exe_text, string_views, Command, Env, Executable};
use crate::prepared::directive_views;
use crate::shell::{fallback_shell, ShellKind};
use crate::text::str_eq;
use vstd::prelude::*;

verus! {

/// What a command runs.
#[derive(Clone, Debug)]
pub enum SpawnProgram {
    /// A script run by a shell, as one argument: `bash -c "script"`.
    Shell { shell: ShellKind, script: String },
    /// A program run directly, with its raw arguments.
    Direct { program: String, args: Vec<String> },
}

/// One environment directive for the child.
#[derive(Clone, Debug)]
pub enum EnvAction {
    /// Set the variable.
    Assign { key: String, value: String },
    /// Set the variable unless the parent process has it.
    SetIfMissing { key: String, value: String },
    /// Remove the variable.
    Remove { key: String },
}

/// The mathematical view of an [`EnvAction`].
pub enum EnvActionView {
    Assign { key: Seq<char>, value: Seq<char> },
    SetIfMissing { key: Seq<char>, value: Seq<char> },
    Remove { key: Seq<char> },
}

impl View for EnvAction {
    type V = EnvActionView;

    open spec fn view(&self) -> EnvActionView {
        match self {
            EnvAction::Assign { key, value } => EnvActionView::Assign { key: key@, value: value@ },
            EnvAction::SetIfMissing { key, value } => EnvActionView::SetIfMissing { key: key@, value: value@ },
            EnvAction::Remove { key } => EnvActionView::Remove { key: key@ },
        }
    }
}

/// The directive for one environment entry of a command.
pub open spec fn action_of(entry: (String, Env)) -> EnvActionView {
    match entry.1 {
        Env::SetAlways(v) => EnvActionView::Assign { key: entry.0@, value: v@ },
        Env::SetIfMissing(v) => EnvActionView::SetIfMissing { key: entry.0@, value: v@ },
        Env::Unset => EnvActionView::Remove { key: entry.0@ },
    }
}

/// The views of directives.
pub open spec fn action_views(s: Seq<EnvAction>) -> Seq<EnvActionView> {
    s.map_values(|a: EnvAction| a@)
}

/// How to spawn a command.
#[derive(Clone, Debug)]
pub struct SpawnPlan {
    /// The program and its arguments.
    pub program: SpawnProgram,
    /// Remove `BASH_ENV` before the command's own variables apply: bash
    /// sources that file on startup, after the environment is applied, and
    /// CI providers persist `export PATH=...` lines in it that would
    /// overwrite the `PATH` set for this process.
    pub remove_bash_env: bool,
    /// The command's variables, applied in order after the removal.
    pub env: Vec<EnvAction>,
    /// The working directory, also set as `PWD`.
    pub cwd: Option<String>,
    /// Paths to put in front of the parent's `PATH`; none to leave it.
    pub prepend_paths: Vec<String>,
}

/// True when the command runs in a shell: one was chosen, or the
/// executable is a script.
pub open spec fn runs_in_shell(c: Command) -> bool {
    c.shell is Some || c.exe is Script
}

impl Command {
    /// Plan how to spawn this command. Without a chosen shell, a script is
    /// run by the platform's fallback shell.
    pub fn spawn_plan(&self) -> (r: SpawnPlan)
        ensures
            runs_in_shell(*self) ==> (r.program matches SpawnProgram::Shell { shell, script } && (
            self.shell matches Some(s) ==> shell == s) && (self.shell is None ==> (shell == ShellKind::Bash
                || shell == ShellKind::Sh || shell == ShellKind::Pwsh || shell == ShellKind::PowerShell))
                && script@ == exe_line(*self, shell) && r.remove_bash_env == (shell == ShellKind::Bash
                && !self.env@.dom().contains("BASH_ENV"@))),
            !runs_in_shell(*self) ==> (r.program matches SpawnProgram::Direct { program, args } && program@
                == exe_text(self.exe) && string_views(args@) == arg_values(self.args@) && !r.remove_bash_env),
            action_views(r.env@) == self.env.listing().map_values(|e: (String, Env)| action_of(e)),
            r.cwd == self.cwd,
            !self.env@.dom().contains("PATH"@) ==> r.prepend_paths@ == self.paths@,
            self.env@.dom().contains("PATH"@) ==> r.prepend_paths@.len() == 0,
    {
        let (program, remove_bash_env) = if self.shell.is_some() || self.exe.requires_shell() {
            let shell = match self.shell {
                Some(kind) => kind,
                None => fallback_shell(),
            };
            let script = self.render_exe_line(shell);
            let remove = shell == ShellKind::Bash && !self.env.contains_key("BASH_ENV");
            (SpawnProgram::Shell { shell, script }, remove)
        } else {
            let mut args: Vec<String> = Vec::new();
            let mut i: usize = 0;
            while i < self.args.len()
                invariant
                    i <= self.args@.len(),
                    args@.len() == i,
                    forall|k: int| 0 <= k < i ==> (#[trigger] args@[k])@ == self.args@[k].value@,
                decreases self.args@.len() - i,
            {
                args.push(self.args[i].value.clone());
                i = i + 1;
            }
            assert(string_views(args@) =~= arg_values(self.args@));
            (SpawnProgram::Direct { program: self.exe.as_os_str().to_owned(), args }, false)
        };
        let entries = self.env.entries();
        let mut env: Vec<EnvAction> = Vec::new();
        let mut i: usize = 0;
        while i < entries.len()
            invariant
                i <= entries@.len(),
                entries@ == self.env.listing(),
                action_views(env@) == entries@.take(i as int).map_values(|e: (String, Env)| action_of(e)),
            decreases entries@.len() - i,
        {
            let (key, value) = &entries[i];
            let action = match value {
                Env::SetAlways(v) => EnvAction::Assign { key: key.clone(), value: v.clone() },
                Env::SetIfMissing(v) => EnvAction::SetIfMissing { key: key.clone(), value: v.clone() },
                Env::Unset => EnvAction::Remove { key: key.clone() },
            };
            let ghost before = env@;
            env.push(action);
            proof {
                assert(action_views(env@) =~= action_views(before).push(action@));
                assert(entries@.take(i + 1) =~= entries@.take(i as int).push(entries@[i as int]));
                assert(action@ == action_of(entries@[i as int]));
                assert(action_views(env@) =~= entries@.take(i + 1).map_values(|e: (String, Env)| action_of(e)));
            }
            i = i + 1;
        }
        assert(entries@.take(entries@.len() as int) =~= entries@);
        let cwd = match &self.cwd {
            Some(dir) => Some(dir.clone()),
            None => None,
        };
        let prepend_paths = if !self.env.contains_key("PATH") {
            let p = self.paths.clone();
            assert(p@ =~= self.paths@);
            p
        } else {
            Vec::new()
        };
        SpawnPlan { program, remove_bash_env, env, cwd, prepend_paths }
    }
}

/// The directives the environment actions come to, in order, for a
/// parent process whose variables are named `parent`: a variable set only
/// if missing is set when the parent lacks it, and left alone otherwise.
pub open spec fn resolved_actions(actions: Seq<EnvActionView>, parent: Seq<Seq<char>>) -> Seq<(Seq<char>, Option<Seq<char>>)>
    decreases actions.len(),
{
    if actions.len() == 0 {
        Seq::empty()
    } else {
        resolved_actions(actions.drop_last(), parent) + match actions.last() {
            EnvActionView::Assign { key, value } => seq![(key, Some(value))],
            EnvActionView::SetIfMissing { key, value } => if parent.contains(key) {
                Seq::empty()
            } else {
                seq![(key, Some(value))]
            },
            EnvActionView::Remove { key } => seq![(key, None)],
        }
    }
}

fn has_name(names: &Vec<String>, key: &str) -> (r: bool)
    ensures
        r == string_views(names@).contains(key@),
{
    let mut i: usize = 0;
    while i < names.len()
        invariant
            i <= names@.len(),
            forall|k: int| 0 <= k < i ==> names@[k]@ != key@,
        decreases names@.len() - i,
    {
        if str_eq(names[i].as_str(), key) {
            assert(string_views(names@)[i as int] == key@);
            return true;
        }
        i = i + 1;
    }
    assert forall|k: int| 0 <= k < names@.len() implies string_views(names@)[k] != key@ by {}
    false
}

/// The environment directives a spawned child gets from a plan, in order
/// (a `None` value removes the variable), for a parent process whose
/// variables are named `parent`: `BASH_ENV` removed first when the plan
/// says so, then the command's own variables as
/// [`resolved_actions`] gives them, then `PWD` set to the working
/// directory, when there is one. (`PATH` with the lookup paths in front
/// is joined by the platform.)
pub fn spawn_env(plan: &SpawnPlan, parent: &Vec<String>) -> (r: Vec<(String, Option<String>)>)
    ensures
        directive_views(r@) == (if plan.remove_bash_env {
            seq![("BASH_ENV"@, None::<Seq<char>>)]
        } else {
            Seq::empty()
        }) + resolved_actions(action_views(plan.env@), string_views(parent@)) + match plan.cwd {
            Some(d) => seq![("PWD"@, Some(d@))],
            None => Seq::empty(),
        },
{
    let mut r: Vec<(String, Option<String>)> = Vec::new();
    if plan.remove_bash_env {
        r.push(("BASH_ENV".to_owned(), None));
    }
    let ghost head = directive_views(r@);
    assert(head =~= if plan.remove_bash_env {
        seq![("BASH_ENV"@, None::<Seq<char>>)]
    } else {
        Seq::empty()
    });
    let ghost actions = action_views(plan.env@);
    let ghost names = string_views(parent@);
    let mut i: usize = 0;
    assert(actions.take(0) =~= Seq::<EnvActionView>::empty());
    assert(directive_views(r@) =~= head + resolved_actions(actions.take(0), names));
    while i < plan.env.len()
        invariant
            i <= plan.env@.len(),
            actions == action_views(plan.env@),
            names == string_views(parent@),
            directive_views(r@) == head + resolved_actions(actions.take(i as int), names),
        decreases plan.env@.len() - i,
    {
        let ghost before = directive_views(r@);
        assert(actions.take(i + 1).drop_last() =~= actions.take(i as int));
        assert(actions.take(i + 1).last() == plan.env@[i as int]@);
        let ghost prev = resolved_actions(actions.take(i as int), names);
        match &plan.env[i] {
            EnvAction::Assign { key, value } => {
                r.push((key.clone(), Some(value.clone())));
                assert(resolved_actions(actions.take(i + 1), names) == prev + seq![(key@, Some(value@))]);
                assert(directive_views(r@) =~= before + seq![(key@, Some(value@))]);
            },
            EnvAction::SetIfMissing { key, value } => {
                if !has_name(parent, key.as_str()) {
                    r.push((key.clone(), Some(value.clone())));
                    assert(resolved_actions(actions.take(i + 1), names) == prev + seq![(key@, Some(value@))]);
                    assert(directive_views(r@) =~= before + seq![(key@, Some(value@))]);
                } else {
                    assert(resolved_actions(actions.take(i + 1), names) =~= prev);
                }
            },
            EnvAction::Remove { key } => {
                r.push((key.clone(), None));
                assert(resolved_actions(actions.take(i + 1), names) == prev + seq![(key@, None::<Seq<char>>)]);
                assert(directive_views(r@) =~= before + seq![(key@, None::<Seq<char>>)]);
            },
        }
        assert(directive_views(r@) =~= head + resolved_actions(actions.take(i + 1), names));
        i = i + 1;
    }
    assert(actions.take(plan.env@.len() as int) =~= actions);
    let ghost middle = directive_views(r@);
    match &plan.cwd {
        Some(dir) => r.push(("PWD".to_owned(), Some(dir.clone()))),
        None => {},
    }
    assert(directive_views(r@) =~= middle + match plan.cwd {
        Some(d) => seq![("PWD"@, Some(d@))],
        None => Seq::empty(),
    });
    r
}

} // verus!
