//! The shells a command can be wrapped in, and the shell-aware pieces of
//! `starbase_shell` that command building relies on.

use crate::command::string_views;
use crate::text::str_eq;
use starbase_shell::ShellType;
use vstd::prelude::*;

verus! {

/// `starbase_shell::ShellType`, held opaquely where a value of it passes
/// through.
#[verifier::external_type_specification]
#[verifier::external_body]
pub struct ExShellType(ShellType);

/// A shell that commands can be wrapped in.
#[derive(Clone, Copy, Debug, PartialEq, Eq, Structural)]
pub enum ShellKind {
    Ash,
    Bash,
    Dash,
    Elvish,
    Fish,
    Ion,
    Murex,
    Nu,
    PowerShell,
    Pwsh,
    Sh,
    Xonsh,
    Zsh,
}

/// The executable name of each shell, as the shells render themselves.
pub open spec fn shell_name(kind: ShellKind) -> Seq<char> {
    match kind {
        ShellKind::Ash => "ash"@,
        ShellKind::Bash => "bash"@,
        ShellKind::Dash => "dash"@,
        ShellKind::Elvish => "elvish"@,
        ShellKind::Fish => "fish"@,
        ShellKind::Ion => "ion"@,
        ShellKind::Murex => "murex"@,
        ShellKind::Nu => "nu"@,
        ShellKind::PowerShell => "powershell"@,
        ShellKind::Pwsh => "pwsh"@,
        ShellKind::Sh => "sh"@,
        ShellKind::Xonsh => "xonsh"@,
        ShellKind::Zsh => "zsh"@,
    }
}

impl ShellKind {
    /// The executable name of the shell, e.g. `bash`.
    pub fn name(&self) -> (r: &'static str)
        ensures
            r@ == shell_name(*self),
    {
        match self {
            ShellKind::Ash => "ash",
            ShellKind::Bash => "bash",
            ShellKind::Dash => "dash",
            ShellKind::Elvish => "elvish",
            ShellKind::Fish => "fish",
            ShellKind::Ion => "ion",
            ShellKind::Murex => "murex",
            ShellKind::Nu => "nu",
            ShellKind::PowerShell => "powershell",
            ShellKind::Pwsh => "pwsh",
            ShellKind::Sh => "sh",
            ShellKind::Xonsh => "xonsh",
            ShellKind::Zsh => "zsh",
        }
    }

    /// The `starbase_shell` shell type of this kind.
    #[verifier::external_body]
    pub(crate) fn to_shell_type(&self) -> ShellType {
        match self {
            ShellKind::Ash => ShellType::Ash,
            ShellKind::Bash => ShellType::Bash,
            ShellKind::Dash => ShellType::Dash,
            ShellKind::Elvish => ShellType::Elvish,
            ShellKind::Fish => ShellType::Fish,
            ShellKind::Ion => ShellType::Ion,
            ShellKind::Murex => ShellType::Murex,
            ShellKind::Nu => ShellType::Nu,
            ShellKind::PowerShell => ShellType::PowerShell,
            ShellKind::Pwsh => ShellType::Pwsh,
            ShellKind::Sh => ShellType::Sh,
            ShellKind::Xonsh => ShellType::Xonsh,
            ShellKind::Zsh => ShellType::Zsh,
        }
    }

    /// The kind of a `starbase_shell` shell type.
    #[verifier::external_body]
    pub(crate) fn from_shell_type(shell: ShellType) -> ShellKind {
        match shell {
            ShellType::Ash => ShellKind::Ash,
            ShellType::Bash => ShellKind::Bash,
            ShellType::Dash => ShellKind::Dash,
            ShellType::Elvish => ShellKind::Elvish,
            ShellType::Fish => ShellKind::Fish,
            ShellType::Ion => ShellKind::Ion,
            ShellType::Murex => ShellKind::Murex,
            ShellType::Nu => ShellKind::Nu,
            ShellType::PowerShell => ShellKind::PowerShell,
            ShellType::Pwsh => ShellKind::Pwsh,
            ShellType::Sh => ShellKind::Sh,
            ShellType::Xonsh => ShellKind::Xonsh,
            ShellType::Zsh => ShellKind::Zsh,
        }
    }
}

/// The platform's fallback shell (`ShellType::default`): `bash` when it is
/// on `PATH`, else `sh`, on Unix; `pwsh` when on `PATH`, else
/// `powershell`, on Windows. Which one depends on the machine.
#[verifier::external_body]
pub(crate) fn fallback_shell() -> (r: ShellKind)
    ensures
        r == ShellKind::Bash || r == ShellKind::Sh || r == ShellKind::Pwsh || r
            == ShellKind::PowerShell,
{
    ShellKind::from_shell_type(ShellType::default())
}

/// The current shell as `ShellType::detect_with_fallback` finds it, from
/// `$SHELL` and the parent process hierarchy. It depends on the
/// environment, so nothing is stated of it.
#[verifier::external_body]
pub(crate) fn detect_shell() -> ShellKind {
    ShellKind::from_shell_type(ShellType::detect_with_fallback())
}

/// What `starbase_shell::join_exe_args` renders for an executable and its
/// arguments under a shell, without forced quoting: each value quoted by
/// the shell when it holds a space (or, for the executable, a slash or
/// backslash), joined with spaces.
pub uninterp spec fn joined_exe_args(kind: ShellKind, exe: Seq<char>, args: Seq<Seq<char>>) -> Seq<char>;

/// Joins `exe` and `args` into one command line for the shell `kind`
/// with `starbase_shell::join_exe_args` (no forced quoting). The contract
/// names the result.
#[verifier::external_body]
pub(crate) fn join_exe_args(kind: ShellKind, exe: &str, args: &Vec<String>) -> (r: String)
    ensures
        r@ == joined_exe_args(kind, exe@, args@.map_values(|a: String| a@)),
{
    let shell = kind.to_shell_type().build();
    starbase_shell::join_exe_args(&shell, exe, args, false).to_string_lossy().into_owned()
}

/// The color level the current terminal supports on `stderr`
/// (`starbase_styles::color::supports_color`): 0 for none, 1 for basic,
/// 2 for 256 colors, 3 for 16 million colors. It depends on the terminal.
#[verifier::external_body]
pub(crate) fn supports_color() -> (r: u8)
    ensures
        r <= 3,
{
    starbase_styles::color::supports_color()
}

/// True when `name` is one of the two names of PowerShell.
pub open spec fn is_powershell_alias(name: Seq<char>) -> bool {
    name == "pwsh"@ || name == "powershell"@
}

/// The commands to look up on `PATH`, in order, for `name`: `pwsh` and
/// `powershell` are aliases of each other, the former tried first;
/// any other name is looked up as is.
pub fn command_candidates(name: &str) -> (r: Vec<String>)
    ensures
        is_powershell_alias(name@) ==> string_views(r@) == seq!["pwsh"@, "powershell"@],
        !is_powershell_alias(name@) ==> string_views(r@) == seq![name@],
{
    let mut r: Vec<String> = Vec::new();
    if str_eq(name, "pwsh") || str_eq(name, "powershell") {
        r.push("pwsh".to_owned());
        r.push("powershell".to_owned());
        assert(string_views(r@) =~= seq!["pwsh"@, "powershell"@]);
    } else {
        r.push(name.to_owned());
        assert(string_views(r@) =~= seq![name@]);
    }
    r
}

} // verus!
