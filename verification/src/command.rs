//! A builder for child processes: the executable, its arguments, its
//! environment, and the options that decide how it runs.

use crate::error::ProcessError;
use crate::output::{exit_code, Output};
use crate::shell::{fallback_shell, detect_shell, join_exe_args, joined_exe_args, shell_name, supports_color, ShellKind};
use crate::text::{chars_of, decimal_digits, string_from_chars, str_eq, trim, trim_spec, u64_to_decimal};
use vstd::prelude::*;

verus! {

/// A command line argument: the raw value, and for shells, optionally a
/// quoted form of it.
#[derive(Clone, Debug)]
pub struct Arg {
    /// In shells: "value"
    pub quoted_value: Option<String>,
    /// Not in shells: value
    pub value: String,
}

/// The text an argument is rendered with: its quoted form when it has
/// one, its raw value otherwise.
pub open spec fn arg_text(arg: Arg) -> Seq<char> {
    match arg.quoted_value {
        Some(q) => q@,
        None => arg.value@,
    }
}

impl Arg {
    /// An argument with a raw value and no quoted form.
    pub fn from_value(value: &str) -> (r: Arg)
        ensures
            r.value@ == value@,
            r.quoted_value is None,
    {
        Arg { quoted_value: None, value: value.to_owned() }
    }

    /// Return the text this argument is rendered with: the quoted form
    /// when it has one, the raw value otherwise.
    pub fn as_os_str(&self) -> (r: &str)
        ensures
            r@ == arg_text(*self),
    {
        match &self.quoted_value {
            Some(q) => q.as_str(),
            None => self.value.as_str(),
        }
    }

    /// A copy of this argument.
    pub fn duplicate(&self) -> (r: Arg)
        ensures
            r == *self,
    {
        Arg {
            quoted_value: match &self.quoted_value {
                Some(q) => Some(q.clone()),
                None => None,
            },
            value: self.value.clone(),
        }
    }
}

/// How an environment variable should be applied to a spawned command.
#[derive(Clone, Debug, PartialEq, Eq)]
pub enum Env {
    /// Always set and overwrite the system variable.
    SetAlways(String),
    /// Only set if the system variable is not set.
    SetIfMissing(String),
    /// Unset the system variable and don't inherit it.
    Unset,
}

/// The mathematical view of an environment behavior.
pub enum EnvView {
    SetAlways(Seq<char>),
    SetIfMissing(Seq<char>),
    Unset,
}

impl View for Env {
    type V = EnvView;

    open spec fn view(&self) -> EnvView {
        match self {
            Env::SetAlways(v) => EnvView::SetAlways(v@),
            Env::SetIfMissing(v) => EnvView::SetIfMissing(v@),
            Env::Unset => EnvView::Unset,
        }
    }
}

/// The value an environment behavior sets, if it sets one.
pub open spec fn env_value(env: Env) -> Option<Seq<char>> {
    match env {
        Env::SetAlways(v) => Some(v@),
        Env::SetIfMissing(v) => Some(v@),
        Env::Unset => None,
    }
}

impl Env {
    /// Return the value to set, if this variant carries one.
    pub fn get_value(&self) -> (r: Option<&String>)
        ensures
            match r {
                Some(v) => env_value(*self) == Some(v@),
                None => env_value(*self) is None,
            },
    {
        match self {
            Env::SetAlways(value) => Some(value),
            Env::SetIfMissing(value) => Some(value),
            Env::Unset => None,
        }
    }

    /// Return the value to set, if this variant carries one.
    pub fn as_os_str(&self) -> (r: Option<&str>)
        ensures
            match r {
                Some(v) => env_value(*self) == Some(v@),
                None => env_value(*self) is None,
            },
    {
        match self {
            Env::SetAlways(value) => Some(value.as_str()),
            Env::SetIfMissing(value) => Some(value.as_str()),
            Env::Unset => None,
        }
    }

    /// A copy of this behavior.
    pub fn duplicate(&self) -> (r: Env)
        ensures
            r == *self,
    {
        match self {
            Env::SetAlways(value) => Env::SetAlways(value.clone()),
            Env::SetIfMissing(value) => Env::SetIfMissing(value.clone()),
            Env::Unset => Env::Unset,
        }
    }
}

/// What a command runs: a single binary, or a full shell script.
#[derive(Clone, Debug)]
pub enum Executable {
    /// Single file name: git
    Binary(Arg),
    /// Full script: git commit --allow-empty
    Script(String),
}

/// The raw binary name or script of an executable.
pub open spec fn exe_text(exe: Executable) -> Seq<char> {
    match exe {
        Executable::Binary(arg) => arg.value@,
        Executable::Script(script) => script@,
    }
}

impl Executable {
    /// Return the raw binary name or script contents.
    pub fn as_os_str(&self) -> (r: &str)
        ensures
            r@ == exe_text(*self),
    {
        match self {
            Executable::Binary(inner) => inner.value.as_str(),
            Executable::Script(inner) => inner.as_str(),
        }
    }

    /// Return true if this executable must be run inside a shell.
    pub fn requires_shell(&self) -> (r: bool)
        ensures
            r == (*self is Script),
    {
        match self {
            Executable::Binary(_) => false,
            Executable::Script(_) => true,
        }
    }
}

/// The variables an entry list sets, later entries winning.
pub open spec fn env_map(entries: Seq<(String, Env)>) -> Map<Seq<char>, EnvView>
    decreases entries.len(),
{
    if entries.len() == 0 {
        Map::empty()
    } else {
        env_map(entries.drop_last()).insert(entries.last().0@, entries.last().1@)
    }
}

/// True when no variable name occurs twice in an entry list.
pub open spec fn distinct_keys(entries: Seq<(String, Env)>) -> bool {
    forall|i: int, j: int|
        0 <= i < j < entries.len() ==> (#[trigger] entries[i]).0@ != (#[trigger] entries[j]).0@
}

pub(crate) proof fn lemma_env_map_dom(entries: Seq<(String, Env)>, k: Seq<char>)
    ensures
        env_map(entries).dom().contains(k) <==> exists|i: int|
            0 <= i < entries.len() && (#[trigger] entries[i]).0@ == k,
    decreases entries.len(),
{
    if entries.len() > 0 {
        let d = entries.drop_last();
        lemma_env_map_dom(d, k);
        if env_map(entries).dom().contains(k) {
            if k != entries.last().0@ {
                let i = choose|i: int| 0 <= i < d.len() && (#[trigger] d[i]).0@ == k;
                assert(entries[i] == d[i]);
            } else {
                assert(entries[entries.len() - 1] == entries.last());
            }
        }
        if exists|i: int| 0 <= i < entries.len() && (#[trigger] entries[i]).0@ == k {
            let i = choose|i: int| 0 <= i < entries.len() && (#[trigger] entries[i]).0@ == k;
            if i < d.len() {
                assert(d[i] == entries[i]);
            }
        }
    }
}

pub(crate) proof fn lemma_env_map_value(entries: Seq<(String, Env)>, i: int)
    requires
        distinct_keys(entries),
        0 <= i < entries.len(),
    ensures
        env_map(entries).dom().contains(entries[i].0@),
        env_map(entries)[entries[i].0@] == entries[i].1@,
    decreases entries.len(),
{
    let d = entries.drop_last();
    if i < entries.len() - 1 {
        assert(d[i] == entries[i]);
        assert(distinct_keys(d)) by {
            assert forall|a: int, b: int| 0 <= a < b < d.len() implies (#[trigger] d[a]).0@ != (
            #[trigger] d[b]).0@ by {
                assert(d[a] == entries[a] && d[b] == entries[b]);
            }
        }
        lemma_env_map_value(d, i);
        assert(entries[i].0@ != entries[entries.len() - 1].0@);
    }
}

proof fn lemma_env_map_replace(entries: Seq<(String, Env)>, i: int, key: String, value: Env)
    requires
        distinct_keys(entries),
        0 <= i < entries.len(),
        entries[i].0@ == key@,
    ensures
        env_map(entries.update(i, (key, value))) == env_map(entries).insert(key@, value@),
    decreases entries.len(),
{
    let u = entries.update(i, (key, value));
    let d = entries.drop_last();
    if i == entries.len() - 1 {
        assert(u.drop_last() =~= d);
        assert(!env_map(d).dom().contains(key@)) by {
            lemma_env_map_dom(d, key@);
            if env_map(d).dom().contains(key@) {
                let j = choose|j: int| 0 <= j < d.len() && (#[trigger] d[j]).0@ == key@;
                assert(entries[j] == d[j]);
            }
        }
        assert(env_map(u) =~= env_map(entries).insert(key@, value@));
    } else {
        assert(u.drop_last() =~= d.update(i, (key, value)));
        assert(d[i] == entries[i]);
        assert(distinct_keys(d)) by {
            assert forall|a: int, b: int| 0 <= a < b < d.len() implies (#[trigger] d[a]).0@ != (
            #[trigger] d[b]).0@ by {
                assert(d[a] == entries[a] && d[b] == entries[b]);
            }
        }
        lemma_env_map_replace(d, i, key, value);
        assert(u.last() == entries.last());
        assert(entries.last().0@ != key@) by {
            assert(entries[entries.len() - 1] == entries.last());
        }
        assert(env_map(u) =~= env_map(entries).insert(key@, value@));
    }
}

/// Environment variables to apply to a child process, each with its
/// behavior. A variable occurs once.
#[derive(Debug)]
pub struct EnvVars {
    entries: Vec<(String, Env)>,
}

impl View for EnvVars {
    type V = Map<Seq<char>, EnvView>;

    closed spec fn view(&self) -> Map<Seq<char>, EnvView> {
        env_map(self.entries@)
    }
}

impl Clone for EnvVars {
    fn clone(&self) -> (r: EnvVars)
        ensures
            r@ == self@,
    {
        self.duplicate()
    }
}

impl EnvVars {
    /// The entries in the order they were first set.
    pub closed spec fn listing(&self) -> Seq<(String, Env)> {
        self.entries@
    }

    #[verifier::type_invariant]
    closed spec fn keys_distinct(&self) -> bool {
        distinct_keys(self.entries@)
    }

    /// No variables.
    pub fn new() -> (r: EnvVars)
        ensures
            r@ == Map::<Seq<char>, EnvView>::empty(),
            r.listing().len() == 0,
    {
        EnvVars { entries: Vec::new() }
    }

    /// The entries, each variable once, in the order first set.
    pub fn entries(&self) -> (r: &Vec<(String, Env)>)
        ensures
            r@ == self.listing(),
            distinct_keys(r@),
            env_map(r@) == self@,
    {
        proof {
            use_type_invariant(self);
        }
        &self.entries
    }

    /// A copy of these variables, in the same order.
    pub fn duplicate(&self) -> (r: EnvVars)
        ensures
            r.listing() == self.listing(),
            r@ == self@,
    {
        proof {
            use_type_invariant(self);
        }
        let mut entries: Vec<(String, Env)> = Vec::new();
        let mut i: usize = 0;
        while i < self.entries.len()
            invariant
                i <= self.entries@.len(),
                entries@ == self.entries@.take(i as int),
            decreases self.entries@.len() - i,
        {
            let (k, v) = &self.entries[i];
            entries.push((k.clone(), v.duplicate()));
            assert(self.entries@.take(i + 1) =~= self.entries@.take(i as int).push(self.entries@[i as int]));
            i = i + 1;
        }
        assert(self.entries@.take(self.entries@.len() as int) =~= self.entries@);
        EnvVars { entries }
    }

    /// The number of variables.
    pub fn len(&self) -> (r: usize)
        ensures
            r == self.listing().len(),
    {
        self.entries.len()
    }

    fn position(&self, key: &str) -> (r: Option<usize>)
        ensures
            match r {
                Some(i) => i < self.entries@.len() && self.entries@[i as int].0@ == key@,
                None => forall|i: int| 0 <= i < self.entries@.len() ==> (#[trigger] self.entries@[i]).0@ != key@,
            },
    {
        let mut i: usize = 0;
        while i < self.entries.len()
            invariant
                i <= self.entries@.len(),
                forall|k: int| 0 <= k < i ==> (#[trigger] self.entries@[k]).0@ != key@,
            decreases self.entries@.len() - i,
        {
            if str_eq(self.entries[i].0.as_str(), key) {
                return Some(i);
            }
            i = i + 1;
        }
        None
    }

    /// Return true if the variable has a behavior set.
    pub fn contains_key(&self, key: &str) -> (r: bool)
        ensures
            r == self@.dom().contains(key@),
    {
        proof {
            lemma_env_map_dom(self.entries@, key@);
        }
        self.position(key).is_some()
    }

    /// Return the behavior set for the variable, if any.
    pub fn get(&self, key: &str) -> (r: Option<&Env>)
        ensures
            match r {
                Some(v) => self@.dom().contains(key@) && self@[key@] == v@,
                None => !self@.dom().contains(key@),
            },
    {
        proof {
            use_type_invariant(self);
            lemma_env_map_dom(self.entries@, key@);
        }
        match self.position(key) {
            Some(i) => {
                proof {
                    lemma_env_map_value(self.entries@, i as int);
                }
                Some(&self.entries[i].1)
            },
            None => None,
        }
    }

    /// Set the behavior of a variable, replacing an earlier one.
    pub fn insert(&mut self, key: &str, value: Env)
        ensures
            final(self)@ == old(self)@.insert(key@, value@),
    {
        proof {
            use_type_invariant(&*self);
        }
        match self.position(key) {
            Some(i) => {
                let ghost before = self.entries@;
                let k = self.entries[i].0.clone();
                let mut entries: Vec<(String, Env)> = Vec::new();
                std::mem::swap(&mut entries, &mut self.entries);
                entries.set(i, (k, value));
                self.entries = entries;
                proof {
                    lemma_env_map_replace(before, i as int, k, value);
                    assert(self.entries@ =~= before.update(i as int, (k, value)));
                    assert(distinct_keys(self.entries@)) by {
                        assert forall|a: int, b: int| 0 <= a < b < self.entries@.len() implies (
                        #[trigger] self.entries@[a]).0@ != (#[trigger] self.entries@[b]).0@ by {
                            assert(before[a].0@ != before[b].0@);
                        }
                    }
                }
            },
            None => {
                let ghost before = self.entries@;
                let mut entries: Vec<(String, Env)> = Vec::new();
                std::mem::swap(&mut entries, &mut self.entries);
                entries.push((key.to_owned(), value));
                self.entries = entries;
                proof {
                    assert(self.entries@.drop_last() =~= before);
                    assert(distinct_keys(self.entries@)) by {
                        assert forall|a: int, b: int| 0 <= a < b < self.entries@.len() implies (
                        #[trigger] self.entries@[a]).0@ != (#[trigger] self.entries@[b]).0@ by {
                            if b < before.len() {
                                assert(before[a].0@ != before[b].0@);
                            } else {
                                assert(self.entries@[a] == before[a]);
                            }
                        }
                    }
                }
            },
        }
    }
}

/// Debugging and environment-detection flags for a [`Command`], typically
/// set by the host application rather than by end users.
#[derive(Clone, Debug)]
pub struct CommandDebug {
    /// Only log environment variables whose key starts with one of these
    /// prefixes, unless `print_env` is enabled.
    pub env_key_prefixes: Vec<String>,
    /// Whether this command is running inside a long-lived daemon
    /// process. Disables output caching.
    pub is_daemon_env: bool,
    /// Whether this command is running inside a test. Disables output
    /// caching and color inheritance.
    pub is_test_env: bool,
    /// Log every environment variable, ignoring `env_key_prefixes`.
    pub print_env: bool,
    /// Log the full stdin input, rather than truncating a large payload.
    pub print_input: bool,
    /// The environment variable holding the workspace root.
    pub root_dir_env_key: Option<String>,
}

impl Default for CommandDebug {
    fn default() -> (r: CommandDebug)
        ensures
            r.env_key_prefixes@.len() == 0,
            !r.is_daemon_env,
            !r.is_test_env,
            !r.print_env,
            !r.print_input,
            r.root_dir_env_key is None,
    {
        CommandDebug {
            env_key_prefixes: Vec::new(),
            is_daemon_env: false,
            is_test_env: false,
            print_env: false,
            print_input: false,
            root_dir_env_key: None,
        }
    }
}

/// The fields of a [`Command`].
#[derive(Clone, Copy, Debug, PartialEq, Eq, Structural)]
pub enum CommandField {
    Args,
    Cache,
    ContinuousPipe,
    Cwd,
    Debug,
    Env,
    Exe,
    ErrorOnNonzero,
    Input,
    Paths,
    Prefix,
    PrintCommand,
    Shell,
}

/// True when `a` and `b` agree on every field but `f`.
pub open spec fn same_but(a: Command, b: Command, f: CommandField) -> bool {
    &&& f != CommandField::Args ==> a.args == b.args
    &&& f != CommandField::Cache ==> a.cache == b.cache
    &&& f != CommandField::ContinuousPipe ==> a.continuous_pipe == b.continuous_pipe
    &&& f != CommandField::Cwd ==> a.cwd == b.cwd
    &&& f != CommandField::Debug ==> a.debug == b.debug
    &&& f != CommandField::Env ==> a.env == b.env
    &&& f != CommandField::Exe ==> a.exe == b.exe
    &&& f != CommandField::ErrorOnNonzero ==> a.error_on_nonzero == b.error_on_nonzero
    &&& f != CommandField::Input ==> a.input == b.input
    &&& f != CommandField::Paths ==> a.paths == b.paths
    &&& f != CommandField::Prefix ==> a.prefix == b.prefix
    &&& f != CommandField::PrintCommand ==> a.print_command == b.print_command
    &&& f != CommandField::Shell ==> a.shell == b.shell
}

/// True when some argument has `text` as its raw or quoted value.
pub open spec fn has_arg(args: Seq<Arg>, text: Seq<char>) -> bool {
    exists|i: int| 0 <= i < args.len() && arg_matches(#[trigger] args[i], text)
}

/// True when `text` is the raw or quoted value of `arg`.
pub open spec fn arg_matches(arg: Arg, text: Seq<char>) -> bool {
    arg.value@ == text || match arg.quoted_value {
        Some(q) => q@ == text,
        None => false,
    }
}

/// The raw values of arguments.
pub open spec fn arg_values(args: Seq<Arg>) -> Seq<Seq<char>> {
    args.map_values(|a: Arg| a.value@)
}

/// The rendered texts of arguments.
pub open spec fn arg_texts(args: Seq<Arg>) -> Seq<Seq<char>> {
    args.map_values(|a: Arg| arg_text(a))
}

/// The views of strings.
pub open spec fn string_views(items: Seq<String>) -> Seq<Seq<char>> {
    items.map_values(|s: String| s@)
}

/// The total byte length of buffered input.
pub open spec fn input_bytes(input: Seq<String>) -> nat
    decreases input.len(),
{
    if input.len() == 0 {
        0
    } else {
        input_bytes(input.drop_last()) + vstd::utf8::encode_utf8(input.last()@).len()
    }
}

/// The characters of `s` before its first space (all of it when it has
/// none).
pub open spec fn before_space(s: Seq<char>) -> Seq<char>
    decreases s.len(),
{
    if s.len() == 0 || s[0] == ' ' {
        Seq::empty()
    } else {
        seq![s[0]] + before_space(s.drop_first())
    }
}

/// The binary name of an executable: the binary, or the first word of a
/// script.
pub open spec fn bin_name(exe: Executable) -> Seq<char> {
    match exe {
        Executable::Binary(arg) => arg.value@,
        Executable::Script(script) => before_space(script@),
    }
}

/// A builder for a child process: its executable and arguments, its
/// environment variable behaviors, buffered input, output caching, and
/// how a non-zero exit is treated.
#[derive(Clone, Debug)]
pub struct Command {
    /// Arguments to pass to the executable.
    pub args: Vec<Arg>,
    /// Reuse a prior identical run's output instead of spawning again.
    pub cache: bool,
    /// Continuously write to stdin and read from stdout.
    pub continuous_pipe: bool,
    /// The working directory to spawn the process in.
    pub cwd: Option<String>,
    /// Debugging and environment-detection flags.
    pub debug: CommandDebug,
    /// Environment variables to apply to the child process.
    pub env: EnvVars,
    /// The binary or script to execute.
    pub exe: Executable,
    /// Convert non-zero exits to errors.
    pub error_on_nonzero: bool,
    /// Values to pass to stdin.
    pub input: Vec<String>,
    /// Paths to prepend to `PATH`.
    pub paths: Vec<String>,
    /// Prefix to prepend to all log lines.
    pub prefix: Option<String>,
    /// Log the command to the terminal before running.
    pub print_command: bool,
    /// Shell to wrap executing commands in.
    pub shell: Option<ShellKind>,
}

/// True when `c` is a fresh command for `exe` with the given shell.
pub open spec fn fresh_command(c: Command, exe: Executable, shell: Option<ShellKind>) -> bool {
    &&& c.args@.len() == 0
    &&& !c.cache
    &&& !c.continuous_pipe
    &&& c.cwd is None
    &&& c.debug.env_key_prefixes@.len() == 0
    &&& !c.debug.is_daemon_env
    &&& !c.debug.is_test_env
    &&& !c.debug.print_env
    &&& !c.debug.print_input
    &&& c.debug.root_dir_env_key is None
    &&& c.env@ == Map::<Seq<char>, EnvView>::empty()
    &&& c.exe == exe
    &&& c.error_on_nonzero
    &&& c.input@.len() == 0
    &&& c.paths@.len() == 0
    &&& c.prefix is None
    &&& !c.print_command
    &&& c.shell == shell
}

impl Command {
    /// A command for `exe` with the given shell and defaults otherwise.
    pub fn with_executable(exe: Executable, shell: Option<ShellKind>) -> (r: Command)
        ensures
            fresh_command(r, exe, shell),
    {
        Command {
            args: Vec::new(),
            cache: false,
            continuous_pipe: false,
            cwd: None,
            debug: CommandDebug::default(),
            env: EnvVars::new(),
            exe,
            error_on_nonzero: true,
            input: Vec::new(),
            paths: Vec::new(),
            prefix: None,
            print_command: false,
            shell,
        }
    }

    /// Create a command that runs `bin` with the detected default shell.
    pub fn new(bin: &str) -> (r: Command)
        ensures
            r.shell is Some,
            fresh_command(r, Executable::Binary(Arg { quoted_value: None, value: r.exe->Binary_0.value }), r.shell),
            r.exe is Binary && r.exe->Binary_0.value@ == bin@ && r.exe->Binary_0.quoted_value is None,
    {
        Self::with_executable(Executable::Binary(Arg::from_value(bin)), Some(detect_shell()))
    }

    /// Create a command that runs `bin`, accepting a pre-built [`Arg`]
    /// (e.g. one with a quoted value) rather than a plain string.
    pub fn new_bin(bin: Arg) -> (r: Command)
        ensures
            r.shell is Some,
            fresh_command(r, Executable::Binary(bin), r.shell),
    {
        Self::with_executable(Executable::Binary(bin), Some(detect_shell()))
    }

    /// Create a command that runs a full shell script, e.g.
    /// `"git commit --allow-empty"`, rather than a single binary.
    pub fn new_script(script: &str) -> (r: Command)
        ensures
            r.shell is Some,
            r.exe is Script && r.exe->Script_0@ == script@,
            fresh_command(r, r.exe, r.shell),
    {
        Self::with_executable(Executable::Script(script.to_owned()), Some(detect_shell()))
    }

    /// Append a single argument.
    pub fn arg(&mut self, arg: Arg) -> (r: &mut Self)
        ensures
            r.args@ == old(self).args@.push(arg),
            same_but(*r, *old(self), CommandField::Args),
            *final(self) == *final(r),
    {
        self.args.push(arg);
        self
    }

    /// Return true if an argument with this raw or quoted value has
    /// already been added.
    pub fn contains_arg(&self, arg: &str) -> (r: bool)
        ensures
            r == has_arg(self.args@, arg@),
    {
        let mut i: usize = 0;
        while i < self.args.len()
            invariant
                i <= self.args@.len(),
                forall|k: int| 0 <= k < i ==> !arg_matches(#[trigger] self.args@[k], arg@),
            decreases self.args@.len() - i,
        {
            let a = &self.args[i];
            if str_eq(a.value.as_str(), arg) {
                return true;
            }
            match &a.quoted_value {
                Some(q) => {
                    if str_eq(q.as_str(), arg) {
                        return true;
                    }
                },
                None => {},
            }
            i = i + 1;
        }
        false
    }

    /// Append a single argument, unless one with an identical raw value
    /// is already present (see [`Self::contains_arg`]).
    pub fn arg_if_missing(&mut self, arg: Arg) -> (r: &mut Self)
        ensures
            has_arg(old(self).args@, arg.value@) ==> r.args@ == old(self).args@,
            !has_arg(old(self).args@, arg.value@) ==> r.args@ == old(self).args@.push(arg),
            same_but(*r, *old(self), CommandField::Args),
            *final(self) == *final(r),
    {
        if !self.contains_arg(arg.value.as_str()) {
            self.args.push(arg);
        }
        self
    }

    /// Append many arguments, in order.
    pub fn args(&mut self, args: Vec<Arg>) -> (r: &mut Self)
        ensures
            r.args@ == old(self).args@ + args@,
            same_but(*r, *old(self), CommandField::Args),
            *final(self) == *final(r),
    {
        let mut i: usize = 0;
        while i < args.len()
            invariant
                i <= args@.len(),
                self.args@ == old(self).args@ + args@.take(i as int),
                same_but(*self, *old(self), CommandField::Args),
            decreases args@.len() - i,
        {
            self.args.push(args[i].duplicate());
            assert(args@.take(i + 1) =~= args@.take(i as int).push(args@[i as int]));
            i = i + 1;
        }
        assert(args@.take(args@.len() as int) =~= args@);
        self
    }

    /// Return true if this key has an explicit [`Env`] behavior set,
    /// including [`Env::Unset`].
    pub fn contains_env(&self, key: &str) -> (r: bool)
        ensures
            r == self.env@.dom().contains(key@),
    {
        self.env.contains_key(key)
    }

    /// Set the working directory to spawn the process in.
    pub fn cwd(&mut self, dir: &str) -> (r: &mut Self)
        ensures
            r.cwd matches Some(d) && d@ == dir@,
            same_but(*r, *old(self), CommandField::Cwd),
            *final(self) == *final(r),
    {
        self.cwd = Some(dir.to_owned());
        self
    }

    /// Set this environment variable with an explicit [`Env`] behavior.
    pub fn env_with_behavior(&mut self, key: &str, value: Env) -> (r: &mut Self)
        ensures
            r.env@ == old(self).env@.insert(key@, value@),
            same_but(*r, *old(self), CommandField::Env),
            *final(self) == *final(r),
    {
        self.env.insert(key, value);
        self
    }

    /// Always set and overwrite this environment variable.
    pub fn env(&mut self, key: &str, value: &str) -> (r: &mut Self)
        ensures
            r.env@ == old(self).env@.insert(key@, EnvView::SetAlways(value@)),
            same_but(*r, *old(self), CommandField::Env),
            *final(self) == *final(r),
    {
        self.env_with_behavior(key, Env::SetAlways(value.to_owned()))
    }

    /// Set this environment variable, or unset it if `value` is `None`.
    pub fn env_opt(&mut self, key: &str, value: Option<&str>) -> (r: &mut Self)
        ensures
            r.env@ == old(self).env@.insert(
                key@,
                match value {
                    Some(v) => EnvView::SetAlways(v@),
                    None => EnvView::Unset,
                },
            ),
            same_but(*r, *old(self), CommandField::Env),
            *final(self) == *final(r),
    {
        match value {
            Some(v) => self.env_with_behavior(key, Env::SetAlways(v.to_owned())),
            None => self.env_with_behavior(key, Env::Unset),
        }
    }

    /// Unset this environment variable and don't inherit it from the
    /// parent process.
    pub fn env_remove(&mut self, key: &str) -> (r: &mut Self)
        ensures
            r.env@ == old(self).env@.insert(key@, EnvView::Unset),
            same_but(*r, *old(self), CommandField::Env),
            *final(self) == *final(r),
    {
        self.env_with_behavior(key, Env::Unset)
    }

    /// Always set and overwrite many environment variables, in order.
    pub fn envs(&mut self, vars: &Vec<(String, String)>) -> (r: &mut Self)
        ensures
            same_but(*r, *old(self), CommandField::Env),
            r.env@ == set_all(old(self).env@, vars@),
            *final(self) == *final(r),
    {
        let mut i: usize = 0;
        while i < vars.len()
            invariant
                i <= vars@.len(),
                self.env@ == set_all(old(self).env@, vars@.take(i as int)),
                same_but(*self, *old(self), CommandField::Env),
            decreases vars@.len() - i,
        {
            let (k, v) = &vars[i];
            self.env_with_behavior(k.as_str(), Env::SetAlways(v.clone()));
            assert(vars@.take(i + 1).drop_last() =~= vars@.take(i as int));
            i = i + 1;
        }
        assert(vars@.take(vars@.len() as int) =~= vars@);
        self
    }

    /// Set or unset many environment variables, in order. See
    /// [`Self::env_opt`].
    pub fn envs_opt(&mut self, vars: &Vec<(String, Option<String>)>) -> (r: &mut Self)
        ensures
            same_but(*r, *old(self), CommandField::Env),
            r.env@ == set_all_opt(old(self).env@, vars@),
            *final(self) == *final(r),
    {
        let mut i: usize = 0;
        while i < vars.len()
            invariant
                i <= vars@.len(),
                self.env@ == set_all_opt(old(self).env@, vars@.take(i as int)),
                same_but(*self, *old(self), CommandField::Env),
            decreases vars@.len() - i,
        {
            let (k, v) = &vars[i];
            match v {
                Some(v) => {
                    self.env_with_behavior(k.as_str(), Env::SetAlways(v.clone()));
                },
                None => {
                    self.env_with_behavior(k.as_str(), Env::Unset);
                },
            }
            assert(vars@.take(i + 1).drop_last() =~= vars@.take(i as int));
            i = i + 1;
        }
        assert(vars@.take(vars@.len() as int) =~= vars@);
        self
    }

    /// Unset many environment variables. See [`Self::env_remove`].
    pub fn envs_remove(&mut self, vars: &Vec<String>) -> (r: &mut Self)
        ensures
            same_but(*r, *old(self), CommandField::Env),
            r.env@ == unset_all(old(self).env@, vars@),
            *final(self) == *final(r),
    {
        let mut i: usize = 0;
        while i < vars.len()
            invariant
                i <= vars@.len(),
                self.env@ == unset_all(old(self).env@, vars@.take(i as int)),
                same_but(*self, *old(self), CommandField::Env),
            decreases vars@.len() - i,
        {
            self.env_with_behavior(vars[i].as_str(), Env::Unset);
            assert(vars@.take(i + 1).drop_last() =~= vars@.take(i as int));
            i = i + 1;
        }
        assert(vars@.take(vars@.len() as int) =~= vars@);
        self
    }
}

/// Variables after setting each pair, in order.
pub open spec fn set_all(env: Map<Seq<char>, EnvView>, vars: Seq<(String, String)>) -> Map<Seq<char>, EnvView>
    decreases vars.len(),
{
    if vars.len() == 0 {
        env
    } else {
        set_all(env, vars.drop_last()).insert(vars.last().0@, EnvView::SetAlways(vars.last().1@))
    }
}

/// Variables after setting, or unsetting, each pair in order.
pub open spec fn set_all_opt(env: Map<Seq<char>, EnvView>, vars: Seq<(String, Option<String>)>) -> Map<Seq<char>, EnvView>
    decreases vars.len(),
{
    if vars.len() == 0 {
        env
    } else {
        set_all_opt(env, vars.drop_last()).insert(
            vars.last().0@,
            match vars.last().1 {
                Some(v) => EnvView::SetAlways(v@),
                None => EnvView::Unset,
            },
        )
    }
}

/// Variables after unsetting each name.
pub open spec fn unset_all(env: Map<Seq<char>, EnvView>, vars: Seq<String>) -> Map<Seq<char>, EnvView>
    decreases vars.len(),
{
    if vars.len() == 0 {
        env
    } else {
        unset_all(env, vars.drop_last()).insert(vars.last()@, EnvView::Unset)
    }
}

/// Items joined with single spaces between them.
pub open spec fn joined_with_spaces(items: Seq<Seq<char>>) -> Seq<char>
    decreases items.len(),
{
    if items.len() == 0 {
        Seq::empty()
    } else if items.len() == 1 {
        items[0]
    } else {
        joined_with_spaces(items.drop_last()) + seq![' '] + items.last()
    }
}

/// `s` with every newline replaced by a space.
pub open spec fn newlines_to_spaces(s: Seq<char>) -> Seq<char> {
    s.map_values(|c: char| if c == '\n' { ' ' } else { c })
}

/// The command line rendered for the executable part: the binary and its
/// arguments joined by the shell, or the script.
pub open spec fn exe_line(c: Command, kind: ShellKind) -> Seq<char> {
    match c.exe {
        Executable::Binary(bin) => joined_exe_args(kind, arg_text(bin), arg_texts(c.args@)),
        Executable::Script(script) => script@,
    }
}

/// Whether a rendered command line shows its shell wrapper.
pub open spec fn uses_shell(c: Command, with_shell: bool) -> bool {
    with_shell && (c.shell is Some || c.exe is Script)
}

/// The input part of a rendered command line: ` - ` then the input joined
/// by spaces, or a note of its size when it exceeds 200 bytes and full
/// input printing is off; nothing without input.
pub open spec fn input_part(c: Command, with_input: bool) -> Seq<char> {
    let joined = joined_with_spaces(string_views(c.input@));
    if with_input && c.input@.len() > 0 {
        " - "@ + if vstd::utf8::encode_utf8(joined).len() > 200 && !c.debug.print_input {
            "(truncated input, "@ + decimal_digits(input_bytes(c.input@)) + " total bytes)"@
        } else {
            joined
        }
    } else {
        Seq::empty()
    }
}

/// A command rendered on one line for display, given the rendering of its
/// executable part under the shell `kind`. Shell wrapping is marked with
/// curly quotes, as this is never executed.
pub open spec fn command_line_text(
    c: Command,
    kind: ShellKind,
    exe_part: Seq<char>,
    with_shell: bool,
    with_input: bool,
) -> Seq<char> {
    let line = (if uses_shell(c, with_shell) {
        shell_name(kind) + " -c \u{201c}"@
    } else {
        Seq::empty()
    }) + exe_part + (if uses_shell(c, with_shell) {
        "\u{201d}"@
    } else {
        Seq::empty()
    }) + input_part(c, with_input);
    newlines_to_spaces(trim_spec(line))
}

/// Append the characters of `piece` to `s`.
fn push_str(s: &mut String, piece: &str)
    ensures
        final(s)@ == old(s)@ + piece@,
{
    s.append(piece);
}

fn join_strings(items: &Vec<String>) -> (r: String)
    ensures
        r@ == joined_with_spaces(string_views(items@)),
{
    let mut r = String::new();
    let mut i: usize = 0;
    while i < items.len()
        invariant
            i <= items@.len(),
            r@ == joined_with_spaces(string_views(items@.take(i as int))),
        decreases items@.len() - i,
    {
        proof {
            assert(string_views(items@.take(i + 1)).drop_last() =~= string_views(items@.take(i as int)));
            assert(string_views(items@.take(i + 1)).last() == items@[i as int]@);
            if i == 0 {
                assert(string_views(items@.take(0)) =~= Seq::<Seq<char>>::empty());
            }
        }
        if i > 0 {
            r.push(' ');
        }
        r.append(items[i].as_str());
        proof {
            if i == 0 {
                assert(r@ =~= items@[0]@);
                assert(string_views(items@.take(1))[0] == items@[0]@);
            } else {
                assert(r@ =~= joined_with_spaces(string_views(items@.take(i as int))) + seq![' '] + items@[i as int]@);
            }
        }
        i = i + 1;
    }
    assert(items@.take(items@.len() as int) =~= items@);
    r
}

fn replace_newlines(s: &str) -> (r: String)
    ensures
        r@ == newlines_to_spaces(s@),
{
    let chars = chars_of(s);
    let mut r = String::new();
    let mut i: usize = 0;
    while i < chars.len()
        invariant
            chars@ == s@,
            i <= chars@.len(),
            r@ == newlines_to_spaces(chars@.take(i as int)),
        decreases chars@.len() - i,
    {
        let c = chars[i];
        if c == '\n' {
            r.push(' ');
        } else {
            r.push(c);
        }
        assert(newlines_to_spaces(chars@.take(i + 1)) =~= newlines_to_spaces(chars@.take(i as int)).push(
            if c == '\n' { ' ' } else { c },
        ));
        i = i + 1;
    }
    assert(chars@.take(chars@.len() as int) =~= chars@);
    r
}

/// How a color-inheriting command's environment changes: colors forced to
/// the level when nothing overrides them, and a fixed terminal size.
pub open spec fn colored_env(
    env: Map<Seq<char>, EnvView>,
    force: bool,
    level: Seq<char>,
) -> Map<Seq<char>, EnvView> {
    if force {
        env.insert("NO_COLOR"@, EnvView::Unset).insert("FORCE_COLOR"@, EnvView::SetAlways(level)).insert(
            "CLICOLOR_FORCE"@,
            EnvView::SetAlways(level),
        )
    } else {
        env
    }
}

impl Command {
    /// Return the total byte length of the buffered stdin input.
    pub fn get_input_size(&self) -> (r: usize)
        requires
            input_bytes(self.input@) <= usize::MAX,
        ensures
            r == input_bytes(self.input@),
    {
        let mut total: usize = 0;
        let mut i: usize = 0;
        while i < self.input.len()
            invariant
                i <= self.input@.len(),
                input_bytes(self.input@) <= usize::MAX,
                total == input_bytes(self.input@.take(i as int)),
            decreases self.input@.len() - i,
        {
            proof {
                assert(self.input@.take(i + 1).drop_last() =~= self.input@.take(i as int));
                lemma_input_bytes_prefix(self.input@, i + 1);
            }
            total = total + self.input[i].as_str().len();
            i = i + 1;
        }
        assert(self.input@.take(self.input@.len() as int) =~= self.input@);
        total
    }

    /// Render this command on one line for display, given the shell it is
    /// rendered under and the rendering of its executable part.
    pub fn command_line_with(
        &self,
        kind: ShellKind,
        exe_part: &str,
        with_shell: bool,
        with_input: bool,
    ) -> (r: String)
        requires
            input_bytes(self.input@) <= usize::MAX,
            vstd::utf8::encode_utf8(joined_with_spaces(string_views(self.input@))).len() <= usize::MAX,
        ensures
            r@ == command_line_text(*self, kind, exe_part@, with_shell, with_input),
    {
        let use_shell = with_shell && (self.shell.is_some() || self.exe.requires_shell());
        assert(use_shell == uses_shell(*self, with_shell));
        let mut line = String::new();
        if use_shell {
            push_str(&mut line, kind.name());
            push_str(&mut line, " -c \u{201c}");
        }
        let ghost head = line@;
        assert(head == (if uses_shell(*self, with_shell) {
            shell_name(kind) + " -c \u{201c}"@
        } else {
            Seq::<char>::empty()
        }));
        push_str(&mut line, exe_part);
        if use_shell {
            push_str(&mut line, "\u{201d}");
        }
        let ghost middle = line@;
        assert(middle == head + exe_part@ + (if uses_shell(*self, with_shell) {
            "\u{201d}"@
        } else {
            Seq::<char>::empty()
        }));
        let mut tail = String::new();
        if with_input && self.input.len() > 0 {
            let input = join_strings(&self.input);
            push_str(&mut tail, " - ");
            if input.as_str().len() > 200 && !self.debug.print_input {
                push_str(&mut tail, "(truncated input, ");
                let size = u64_to_decimal(self.get_input_size() as u64);
                push_str(&mut tail, size.as_str());
                push_str(&mut tail, " total bytes)");
            } else {
                push_str(&mut tail, input.as_str());
            }
        }
        assert(tail@ =~= input_part(*self, with_input));
        push_str(&mut line, tail.as_str());
        let trimmed = trim(line.as_str());
        replace_newlines(trimmed.as_str())
    }

    /// The executable part of the command line under the shell `kind`:
    /// the binary and its arguments joined by the shell, or the script.
    pub(crate) fn render_exe_line(&self, kind: ShellKind) -> (r: String)
        ensures
            r@ == exe_line(*self, kind),
    {
        match &self.exe {
            Executable::Binary(bin) => {
                let mut texts: Vec<String> = Vec::new();
                let mut i: usize = 0;
                while i < self.args.len()
                    invariant
                        i <= self.args@.len(),
                        texts@.len() == i,
                        forall|k: int| 0 <= k < i ==> (#[trigger] texts@[k])@ == arg_text(self.args@[k]),
                    decreases self.args@.len() - i,
                {
                    let t = self.args[i].as_os_str().to_owned();
                    texts.push(t);
                    i = i + 1;
                }
                assert(texts@.map_values(|a: String| a@) =~= arg_texts(self.args@));
                join_exe_args(kind, bin.as_os_str(), &texts)
            },
            Executable::Script(script) => script.clone(),
        }
    }

    /// Render this command as a single line for display, e.g. in logs.
    /// This is for humans only and is never executed: shell wrapping is
    /// marked with curly quotes, and large input is truncated unless
    /// `debug.print_input` is set. Without an explicit shell, the
    /// platform's fallback shell renders the executable part.
    pub fn get_command_line(&self, with_shell: bool, with_input: bool) -> (r: String)
        requires
            input_bytes(self.input@) <= usize::MAX,
            vstd::utf8::encode_utf8(joined_with_spaces(string_views(self.input@))).len() <= usize::MAX,
        ensures
            exists|kind: ShellKind|
                (self.shell matches Some(s) ==> kind == s) && (self.shell is None ==> (kind == ShellKind::Bash || kind
                    == ShellKind::Sh || kind == ShellKind::Pwsh || kind == ShellKind::PowerShell)) && r@ == command_line_text(
                    *self,
                    kind,
                    exe_line(*self, kind),
                    with_shell,
                    with_input,
                ),
    {
        let kind = match self.shell {
            Some(kind) => kind,
            None => fallback_shell(),
        };
        let exe_part = self.render_exe_line(kind);
        assert(exe_part@ == exe_line(*self, kind));
        let r = self.command_line_with(kind, exe_part.as_str(), with_shell, with_input);
        assert((self.shell matches Some(s) ==> kind == s) && (self.shell is None ==> (kind == ShellKind::Bash || kind
            == ShellKind::Sh || kind == ShellKind::Pwsh || kind == ShellKind::PowerShell)) && r@ == command_line_text(
            *self,
            kind,
            exe_line(*self, kind),
            with_shell,
            with_input,
        ));
        r
    }

    /// Append values to write to the child's stdin, joined with spaces
    /// when written.
    pub fn input(&mut self, items: &Vec<String>) -> (r: &mut Self)
        ensures
            r.input@ == old(self).input@ + items@,
            same_but(*r, *old(self), CommandField::Input),
            *final(self) == *final(r),
    {
        let mut i: usize = 0;
        while i < items.len()
            invariant
                i <= items@.len(),
                self.input@ == old(self).input@ + items@.take(i as int),
                same_but(*self, *old(self), CommandField::Input),
            decreases items@.len() - i,
        {
            self.input.push(items[i].clone());
            assert(items@.take(i + 1) =~= items@.take(i as int).push(items@[i as int]));
            i = i + 1;
        }
        assert(items@.take(items@.len() as int) =~= items@);
        self
    }

    /// Append paths to the end of the child's `PATH`.
    pub fn append_paths(&mut self, list: &Vec<String>) -> (r: &mut Self)
        ensures
            r.paths@ == old(self).paths@ + list@,
            same_but(*r, *old(self), CommandField::Paths),
            *final(self) == *final(r),
    {
        let mut i: usize = 0;
        while i < list.len()
            invariant
                i <= list@.len(),
                self.paths@ == old(self).paths@ + list@.take(i as int),
                same_but(*self, *old(self), CommandField::Paths),
            decreases list@.len() - i,
        {
            self.paths.push(list[i].clone());
            assert(list@.take(i + 1) =~= list@.take(i as int).push(list@[i as int]));
            i = i + 1;
        }
        assert(list@.take(list@.len() as int) =~= list@);
        self
    }

    /// Prepend paths to the front of the child's `PATH`, in the order
    /// given.
    pub fn prepend_paths(&mut self, list: &Vec<String>) -> (r: &mut Self)
        ensures
            r.paths@ == list@ + old(self).paths@,
            same_but(*r, *old(self), CommandField::Paths),
            *final(self) == *final(r),
    {
        let mut paths: Vec<String> = Vec::new();
        let mut i: usize = 0;
        while i < list.len()
            invariant
                i <= list@.len(),
                paths@ == list@.take(i as int),
            decreases list@.len() - i,
        {
            paths.push(list[i].clone());
            assert(list@.take(i + 1) =~= list@.take(i as int).push(list@[i as int]));
            i = i + 1;
        }
        let mut j: usize = 0;
        while j < self.paths.len()
            invariant
                j <= old(self).paths@.len(),
                self.paths@ == old(self).paths@,
                paths@ == list@.take(list@.len() as int) + old(self).paths@.take(j as int),
                same_but(*self, *old(self), CommandField::Paths),
            decreases old(self).paths@.len() - j,
        {
            paths.push(self.paths[j].clone());
            assert(old(self).paths@.take(j + 1) =~= old(self).paths@.take(j as int).push(old(self).paths@[j as int]));
            j = j + 1;
        }
        assert(list@.take(list@.len() as int) =~= list@);
        assert(old(self).paths@.take(old(self).paths@.len() as int) =~= old(self).paths@);
        self.paths = paths;
        self
    }

    /// Return the raw (unquoted) arguments as strings.
    pub fn get_args_list(&self) -> (r: Vec<String>)
        ensures
            string_views(r@) == arg_values(self.args@),
    {
        let mut r: Vec<String> = Vec::new();
        let mut i: usize = 0;
        while i < self.args.len()
            invariant
                i <= self.args@.len(),
                r@.len() == i,
                forall|k: int| 0 <= k < i ==> (#[trigger] r@[k])@ == self.args@[k].value@,
            decreases self.args@.len() - i,
        {
            r.push(self.args[i].value.clone());
            i = i + 1;
        }
        assert(string_views(r@) =~= arg_values(self.args@));
        r
    }

    /// Return the binary name, or the first word of the script if this
    /// command runs a script.
    pub fn get_bin_name(&self) -> (r: String)
        ensures
            r@ == bin_name(self.exe),
    {
        match &self.exe {
            Executable::Binary(bin) => bin.value.clone(),
            Executable::Script(script) => {
                let chars = chars_of(script.as_str());
                let mut i: usize = 0;
                assert(chars@.skip(0) =~= chars@);
                assert(chars@.take(0) + chars@ =~= chars@);
                while i < chars.len() && chars[i] != ' '
                    invariant
                        chars@ == script@,
                        i <= chars@.len(),
                        before_space(chars@) == chars@.take(i as int) + before_space(chars@.skip(i as int)),
                    decreases chars@.len() - i,
                {
                    proof {
                        let rest = chars@.skip(i as int);
                        assert(rest.drop_first() =~= chars@.skip(i + 1));
                        assert(chars@.take(i + 1) =~= chars@.take(i as int) + seq![chars@[i as int]]);
                    }
                    i = i + 1;
                }
                proof {
                    if i < chars@.len() {
                        assert(chars@.skip(i as int)[0] == ' ');
                    }
                    assert(before_space(chars@.skip(i as int)) =~= Seq::<char>::empty());
                    assert(chars@.subrange(0, i as int) =~= chars@.take(i as int));
                }
                let mut r = String::new();
                let mut k: usize = 0;
                while k < i
                    invariant
                        k <= i <= chars@.len(),
                        r@ == chars@.take(k as int),
                    decreases i - k,
                {
                    r.push(chars[k]);
                    assert(chars@.take(k + 1) =~= chars@.take(k as int).push(chars@[k as int]));
                    k = k + 1;
                }
                assert(chars@.take(i as int) + Seq::<char>::empty() =~= chars@.take(i as int));
                r
            },
        }
    }

    /// Return the prefix to prepend to log lines, if set.
    pub fn get_prefix(&self) -> (r: Option<&str>)
        ensures
            match r {
                Some(p) => self.prefix matches Some(q) && p@ == q@,
                None => self.prefix is None,
            },
    {
        match &self.prefix {
            Some(p) => Some(p.as_str()),
            None => None,
        }
    }

    /// Return the binary name, or the full script if this command runs a
    /// script.
    pub fn get_script(&self) -> (r: String)
        ensures
            r@ == exe_text(self.exe),
    {
        self.exe.as_os_str().to_owned()
    }

    /// Run the executable directly, without wrapping it in a shell. A
    /// command that runs a script still requires a shell.
    pub fn no_shell(&mut self) -> (r: &mut Self)
        ensures
            r.shell is None,
            same_but(*r, *old(self), CommandField::Shell),
            *final(self) == *final(r),
    {
        self.shell = None;
        self
    }

    /// Replace the executable with a binary.
    pub fn set_bin(&mut self, bin: Arg) -> (r: &mut Self)
        ensures
            r.exe == Executable::Binary(bin),
            same_but(*r, *old(self), CommandField::Exe),
            *final(self) == *final(r),
    {
        self.exe = Executable::Binary(bin);
        self
    }

    /// Set whether to reuse a prior identical run's output.
    pub fn set_cache(&mut self, state: bool) -> (r: &mut Self)
        ensures
            r.cache == state,
            same_but(*r, *old(self), CommandField::Cache),
            *final(self) == *final(r),
    {
        self.cache = state;
        self
    }

    /// Set whether to continuously write to stdin and read from stdout.
    pub fn set_continuous_pipe(&mut self, state: bool) -> (r: &mut Self)
        ensures
            r.continuous_pipe == state,
            same_but(*r, *old(self), CommandField::ContinuousPipe),
            *final(self) == *final(r),
    {
        self.continuous_pipe = state;
        self
    }

    /// Set whether a non-zero exit should be converted into an error.
    pub fn set_error_on_nonzero(&mut self, state: bool) -> (r: &mut Self)
        ensures
            r.error_on_nonzero == state,
            same_but(*r, *old(self), CommandField::ErrorOnNonzero),
            *final(self) == *final(r),
    {
        self.error_on_nonzero = state;
        self
    }

    /// Set the prefix to prepend to all log lines.
    pub fn set_prefix(&mut self, prefix: &str) -> (r: &mut Self)
        ensures
            r.prefix matches Some(p) && p@ == prefix@,
            same_but(*r, *old(self), CommandField::Prefix),
            *final(self) == *final(r),
    {
        self.prefix = Some(prefix.to_owned());
        self
    }

    /// Set whether to log the command line before running it.
    pub fn set_print_command(&mut self, state: bool) -> (r: &mut Self)
        ensures
            r.print_command == state,
            same_but(*r, *old(self), CommandField::PrintCommand),
            *final(self) == *final(r),
    {
        self.print_command = state;
        self
    }

    /// Replace the executable with a full shell script. Enables the
    /// detected default shell if none is set, as scripts always require
    /// one.
    pub fn set_script(&mut self, script: &str) -> (r: &mut Self)
        ensures
            r.exe is Script && r.exe->Script_0@ == script@,
            r.shell is Some,
            old(self).shell is Some ==> r.shell == old(self).shell,
            same_but(*r, *old(self), CommandField::Exe) || same_but(*r, *old(self), CommandField::Shell) || (
                r.args == old(self).args && r.cache == old(self).cache && r.continuous_pipe == old(self).continuous_pipe
                && r.cwd == old(self).cwd && r.debug == old(self).debug && r.env == old(self).env
                && r.error_on_nonzero == old(self).error_on_nonzero && r.input == old(self).input
                && r.paths == old(self).paths && r.prefix == old(self).prefix
                && r.print_command == old(self).print_command),
            *final(self) == *final(r),
    {
        if self.shell.is_none() {
            self.shell = Some(detect_shell());
        }
        self.exe = Executable::Script(script.to_owned());
        self
    }

    /// Set the shell to wrap the executable in.
    pub fn set_shell(&mut self, shell: ShellKind) -> (r: &mut Self)
        ensures
            r.shell == Some(shell),
            same_but(*r, *old(self), CommandField::Shell),
            *final(self) == *final(r),
    {
        self.shell = Some(shell);
        self
    }

    /// Return true if output caching is enabled and not suppressed by a
    /// test or daemon environment.
    pub fn should_cache_output(&self) -> (r: bool)
        ensures
            r == (self.cache && !self.debug.is_test_env && !self.debug.is_daemon_env),
    {
        self.cache && !self.debug.is_test_env && !self.debug.is_daemon_env
    }

    /// Return true if a non-zero exit should be converted into an error.
    pub fn should_error_nonzero(&self) -> (r: bool)
        ensures
            r == self.error_on_nonzero,
    {
        self.error_on_nonzero
    }

    /// Return true if there's buffered input to write to stdin.
    pub fn should_pass_stdin(&self) -> (r: bool)
        ensures
            r == (self.input@.len() > 0),
    {
        self.input.len() > 0
    }

    /// Convert a failed run into an error when non-zero exits should be
    /// errors; see [`Output::to_error`].
    pub fn handle_nonzero_status(&self, output: &Output, with_message: bool) -> (r: Result<(), ProcessError>)
        ensures
            r is Err <==> (self.error_on_nonzero && exit_code(output.exit) != Some(0i32)),
            r matches Err(e) ==> match e {
                ProcessError::ExitNonZero { bin, .. } => !with_message && bin@ == bin_name(self.exe),
                ProcessError::ExitNonZeroWithOutput { bin, .. } => with_message && bin@ == bin_name(self.exe),
                _ => false,
            },
    {
        if self.should_error_nonzero() && !output.success() {
            let bin = self.get_bin_name();
            return Err(output.to_error(bin.as_str(), with_message));
        }
        Ok(())
    }

    /// Reject options that the blocking capture does not support:
    /// buffered input, output caching, and continuous pipes, checked in
    /// that order.
    pub fn validate_blocking_capture(&self) -> (r: Result<(), ProcessError>)
        ensures
            r is Ok <==> (self.input@.len() == 0 && !(self.cache && !self.debug.is_test_env
                && !self.debug.is_daemon_env) && !self.continuous_pipe),
            r matches Err(e) ==> e matches ProcessError::UnsupportedCaptureOption { bin, option }
                && bin@ == bin_name(self.exe) && option@ == (if self.input@.len() > 0 {
                "buffered input"@
            } else if self.cache && !self.debug.is_test_env && !self.debug.is_daemon_env {
                "output caching"@
            } else {
                "continuous pipes"@
            }),
    {
        let option = if self.should_pass_stdin() {
            Some("buffered input")
        } else if self.should_cache_output() {
            Some("output caching")
        } else if self.continuous_pipe {
            Some("continuous pipes")
        } else {
            None
        };
        match option {
            Some(option) => Err(
                ProcessError::UnsupportedCaptureOption {
                    bin: self.get_bin_name(),
                    option: option.to_owned(),
                },
            ),
            None => Ok(()),
        }
    }

    /// Force colors to the terminal's level when neither this command nor
    /// the current environment (`NO_COLOR`, `FORCE_COLOR`) configures
    /// them and this is not a test, and pin the terminal size to 80 by
    /// 24 for consistent cached output. `host_no_color` and
    /// `host_force_color` tell whether the current process has those
    /// variables set.
    pub fn inherit_colors(&mut self, host_no_color: bool, host_force_color: bool) -> (r: &mut Self)
        ensures
            same_but(*r, *old(self), CommandField::Env),
            exists|level: u8|
                level <= 3 && r.env@ == colored_env(
                    old(self).env@,
                    !old(self).debug.is_test_env && !old(self).env@.dom().contains("NO_COLOR"@)
                        && !old(self).env@.dom().contains("FORCE_COLOR"@) && !host_no_color
                        && !host_force_color,
                    decimal_digits(level as nat),
                ).insert("COLUMNS"@, EnvView::SetAlways("80"@)).insert(
                    "LINES"@,
                    EnvView::SetAlways("24"@),
                ),
            *final(self) == *final(r),
    {
        let force = !self.debug.is_test_env && !self.contains_env("NO_COLOR") && !self.contains_env(
            "FORCE_COLOR",
        ) && !host_no_color && !host_force_color;
        let level = supports_color();
        let text = u64_to_decimal(level as u64);
        if force {
            self.env_remove("NO_COLOR");
            self.env_with_behavior("FORCE_COLOR", Env::SetAlways(text.clone()));
            self.env_with_behavior("CLICOLOR_FORCE", Env::SetAlways(text.clone()));
        }
        self.env_with_behavior("COLUMNS", Env::SetAlways(String::from_str("80")));
        self.env_with_behavior("LINES", Env::SetAlways(String::from_str("24")));
        self
    }
}

proof fn lemma_input_bytes_prefix(input: Seq<String>, i: int)
    requires
        0 <= i <= input.len(),
    ensures
        input_bytes(input.take(i)) <= input_bytes(input),
    decreases input.len() - i,
{
    if i < input.len() {
        lemma_input_bytes_prefix(input, i + 1);
        assert(input.take(i + 1).drop_last() =~= input.take(i));
    } else {
        assert(input.take(i) =~= input);
    }
}

/// Buffered input of at most 200 bytes (joined with spaces), or any
/// input when `debug.print_input` is set, is shown whole after ` - `.
pub proof fn law_short_input_shown_whole(c: Command)
    requires
        c.input@.len() > 0,
        vstd::utf8::encode_utf8(joined_with_spaces(string_views(c.input@))).len() <= 200 || c.debug.print_input,
    ensures
        input_part(c, true) == " - "@ + joined_with_spaces(string_views(c.input@)),
{
}

/// Buffered input of more than 200 bytes is replaced by a note of its
/// size, unless `debug.print_input` is set; no input shows nothing.
pub proof fn law_long_input_truncated(c: Command)
    ensures
        c.input@.len() > 0 && vstd::utf8::encode_utf8(joined_with_spaces(string_views(c.input@))).len() > 200
            && !c.debug.print_input ==> input_part(c, true) == " - "@ + "(truncated input, "@ + decimal_digits(
            input_bytes(c.input@),
        ) + " total bytes)"@,
        c.input@.len() == 0 ==> input_part(c, true).len() == 0,
        input_part(c, false).len() == 0,
{
}

} // verus!
