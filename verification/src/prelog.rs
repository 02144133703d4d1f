//! What is shown and logged before a command runs: where the workspace
//! root comes from, the working directory, the directory label of the
//! printed command line, and which environment variables are logged.

use crate::command::{Command, Env, EnvView};
use crate::text::{chars_of, trim, trim_spec};
use vstd::prelude::*;

verus! {

/// Whether `path` and `base` name the same path, as `Path`'s equality
/// compares them (component by component).
pub uninterp spec fn same_path(path: Seq<char>, base: Seq<char>) -> bool;

/// What `Path::strip_prefix` leaves of `path` below `base`, rendered
/// lossily, or `None` when `base` is not a prefix of it.
pub uninterp spec fn path_below(path: Seq<char>, base: Seq<char>) -> Option<Seq<char>>;

/// Compares two paths with `Path`'s `==`.
#[verifier::external_body]
fn paths_equal(path: &str, base: &str) -> (r: bool)
    ensures
        r == same_path(path@, base@),
{
    std::path::Path::new(path) == std::path::Path::new(base)
}

/// Calls `Path::strip_prefix`, rendering what is left lossily.
#[verifier::external_body]
fn strip_path_prefix(path: &str, base: &str) -> (r: Option<String>)
    ensures
        match r {
            Some(rest) => path_below(path@, base@) == Some(rest@),
            None => path_below(path@, base@) is None,
        },
{
    match std::path::Path::new(path).strip_prefix(base) {
        Ok(rest) => Some(rest.to_string_lossy().into_owned()),
        Err(_) => None,
    }
}

/// The platform's path separator, `std::path::MAIN_SEPARATOR`.
#[verifier::external_body]
fn main_separator() -> (r: char)
    ensures
        r == '/' || r == '\\',
{
    std::path::MAIN_SEPARATOR
}

/// Calls `starbase_styles::color::muted_light`. Whether it colors
/// depends on the terminal and `NO_COLOR`; either way the text is kept,
/// between style codes or none.
#[verifier::external_body]
fn paint_muted_light(text: &str) -> (r: String)
    ensures
        exists|pre: Seq<char>, post: Seq<char>| r@ == pre + text@ + post,
{
    starbase_styles::color::muted_light(text)
}

/// Calls `starbase_styles::color::muted`. Whether it colors depends on the
/// terminal and `NO_COLOR`; either way the text is kept, between style
/// codes or none.
#[verifier::external_body]
fn paint_muted(text: &str) -> (r: String)
    ensures
        exists|pre: Seq<char>, post: Seq<char>| r@ == pre + text@ + post,
{
    starbase_styles::color::muted(text)
}

/// The label of the directory a command ran in, relative to the
/// workspace root: `workspace` at the root, `./sub/dir` below it, `.`
/// elsewhere.
pub open spec fn dir_label(root_dir: Seq<char>, working_dir: Seq<char>, separator: char) -> Seq<char> {
    if same_path(working_dir, root_dir) {
        "workspace"@
    } else {
        match path_below(working_dir, root_dir) {
            Some(rest) => seq!['.', separator] + rest,
            None => "."@,
        }
    }
}

/// The label of the directory a command ran in, relative to the
/// workspace root, with the platform's separator.
pub fn command_dir_label(root_dir: &str, working_dir: &str) -> (r: String)
    ensures
        exists|sep: char| (sep == '/' || sep == '\\') && r@ == dir_label(root_dir@, working_dir@, sep),
{
    let sep = main_separator();
    if paths_equal(working_dir, root_dir) {
        let r = "workspace".to_owned();
        assert(r@ == dir_label(root_dir@, working_dir@, sep));
        return r;
    }
    match strip_path_prefix(working_dir, root_dir) {
        Some(rest) => {
            let mut r = String::new();
            r.push('.');
            r.push(sep);
            r.append(rest.as_str());
            assert(r@ =~= seq!['.', sep] + rest@);
            assert(r@ == dir_label(root_dir@, working_dir@, sep));
            r
        },
        None => {
            let r = ".".to_owned();
            assert(r@ == dir_label(root_dir@, working_dir@, sep));
            r
        },
    }
}

/// Format a command line for display: the trimmed command, then the
/// directory it ran in relative to the workspace root, as `(in label)`,
/// each styled when the terminal takes colors.
pub fn format_command_line(command: &str, root_dir: &str, working_dir: &str) -> (r: String)
    ensures
        exists|sep: char, p1: Seq<char>, s1: Seq<char>, p2: Seq<char>, s2: Seq<char>|
            (sep == '/' || sep == '\\') && r@ == p1 + trim_spec(command@) + s1 + " "@ + p2 + "(in "@
                + dir_label(root_dir@, working_dir@, sep) + ")"@ + s2,
{
    let dir = command_dir_label(root_dir, working_dir);
    let trimmed = trim(command);
    let first = paint_muted_light(trimmed.as_str());
    let mut note = "(in ".to_owned();
    note.append(dir.as_str());
    note.append(")");
    let second = paint_muted(note.as_str());
    let mut r = first.clone();
    r.append(" ");
    r.append(second.as_str());
    proof {
        let sep = choose|sep: char| (sep == '/' || sep == '\\') && dir@ == dir_label(root_dir@, working_dir@, sep);
        let (p1, s1) = choose|pre: Seq<char>, post: Seq<char>| first@ == pre + trimmed@ + post;
        let (p2, s2) = choose|pre: Seq<char>, post: Seq<char>| second@ == pre + note@ + post;
        assert(r@ =~= p1 + trim_spec(command@) + s1 + " "@ + p2 + "(in "@ + dir_label(root_dir@, working_dir@, sep)
            + ")"@ + s2);
    }
    r
}

/// The value a command's variables set for `key`, if they set one.
pub open spec fn set_value(m: Map<Seq<char>, EnvView>, key: Seq<char>) -> Option<Seq<char>> {
    if m.dom().contains(key) {
        match m[key] {
            EnvView::SetAlways(v) => Some(v),
            EnvView::SetIfMissing(v) => Some(v),
            EnvView::Unset => None,
        }
    } else {
        None
    }
}

/// Where the workspace root of a command's log line comes from.
#[derive(Clone, Debug, PartialEq, Eq)]
pub enum RootDirSource {
    /// The value the command itself sets for the root variable.
    Value(String),
    /// The parent process's value of this variable, when set and not empty.
    HostVar(String),
    /// The current directory.
    CurrentDir,
}

/// True when `s` begins with `prefix`.
pub open spec fn has_prefix(s: Seq<char>, prefix: Seq<char>) -> bool {
    prefix.len() <= s.len() && s.take(prefix.len() as int) == prefix
}

/// Returns true if `s` begins with `prefix`.
pub fn starts_with(s: &str, prefix: &str) -> (r: bool)
    ensures
        r == has_prefix(s@, prefix@),
{
    let a = chars_of(s);
    let b = chars_of(prefix);
    if b.len() > a.len() {
        return false;
    }
    let mut i: usize = 0;
    while i < b.len()
        invariant
            a@ == s@,
            b@ == prefix@,
            b@.len() <= a@.len(),
            i <= b@.len(),
            forall|k: int| 0 <= k < i ==> a@[k] == b@[k],
        decreases b@.len() - i,
    {
        if a[i] != b[i] {
            assert(s@.take(prefix@.len() as int)[i as int] != prefix@[i as int]);
            return false;
        }
        i = i + 1;
    }
    assert(s@.take(prefix@.len() as int) =~= prefix@);
    true
}

/// True when some prefix of `prefixes` begins `key`.
pub open spec fn key_selected(key: Seq<char>, prefixes: Seq<String>) -> bool {
    exists|i: int| 0 <= i < prefixes.len() && has_prefix(key, (#[trigger] prefixes[i])@)
}

/// The variables a command's debug log shows, in the order set: those it
/// sets (not those it unsets), all of them when printing every variable,
/// else those whose name has a logged prefix.
pub open spec fn logged_entries(entries: Seq<(String, Env)>, print_env: bool, prefixes: Seq<String>) -> Seq<(Seq<char>, Seq<char>)>
    decreases entries.len(),
{
    if entries.len() == 0 {
        Seq::empty()
    } else {
        let rest = logged_entries(entries.drop_last(), print_env, prefixes);
        let (k, v) = entries.last();
        match v {
            Env::Unset => rest,
            Env::SetAlways(value) | Env::SetIfMissing(value) => if print_env || key_selected(k@, prefixes) {
                rest.push((k@, value@))
            } else {
                rest
            },
        }
    }
}

fn any_prefix(key: &str, prefixes: &Vec<String>) -> (r: bool)
    ensures
        r == key_selected(key@, prefixes@),
{
    let mut i: usize = 0;
    while i < prefixes.len()
        invariant
            i <= prefixes@.len(),
            forall|k: int| 0 <= k < i ==> !has_prefix(key@, (#[trigger] prefixes@[k])@),
        decreases prefixes@.len() - i,
    {
        if starts_with(key, prefixes[i].as_str()) {
            return true;
        }
        i = i + 1;
    }
    false
}

impl Command {
    /// Where the workspace root for this command's log line comes from:
    /// the variable named by `debug.root_dir_env_key`, as the command sets
    /// it or else as the parent has it; the current directory when there
    /// is no such variable or its value is empty.
    pub fn root_dir_source(&self) -> (r: RootDirSource)
        ensures
            self.debug.root_dir_env_key is None ==> r == RootDirSource::CurrentDir,
            self.debug.root_dir_env_key matches Some(key) ==> match set_value(self.env@, key@) {
                Some(v) => if v.len() == 0 {
                    r == RootDirSource::CurrentDir
                } else {
                    r matches RootDirSource::Value(s) && s@ == v
                },
                None => r matches RootDirSource::HostVar(k) && k@ == key@,
            },
    {
        match &self.debug.root_dir_env_key {
            None => RootDirSource::CurrentDir,
            Some(key) => match self.env.get(key.as_str()) {
                Some(env) => match env.get_value() {
                    Some(value) => if value.as_str().is_empty() {
                        RootDirSource::CurrentDir
                    } else {
                        RootDirSource::Value(value.clone())
                    },
                    None => RootDirSource::HostVar(key.clone()),
                },
                None => RootDirSource::HostVar(key.clone()),
            },
        }
    }

    /// The directory the command runs in: its own, else the root.
    pub fn working_dir(&self, root_dir: &str) -> (r: String)
        ensures
            r@ == match self.cwd {
                Some(d) => d@,
                None => root_dir@,
            },
    {
        match &self.cwd {
            Some(dir) => dir.clone(),
            None => root_dir.to_owned(),
        }
    }

    /// Whether the command line is printed before running: only with a
    /// console that is not quiet, when the command asks for it.
    pub fn should_print_command_line(&self, has_console: bool, quiet: bool) -> (r: bool)
        ensures
            r == (has_console && self.print_command && !quiet),
    {
        has_console && self.print_command && !quiet
    }

    /// The variables the debug log shows, with their values.
    pub fn logged_env(&self) -> (r: Vec<(String, String)>)
        ensures
            r@.map_values(|p: (String, String)| (p.0@, p.1@)) == logged_entries(
                self.env.listing(),
                self.debug.print_env,
                self.debug.env_key_prefixes@,
            ),
    {
        let entries = self.env.entries();
        let mut r: Vec<(String, String)> = Vec::new();
        let mut i: usize = 0;
        while i < entries.len()
            invariant
                i <= entries@.len(),
                entries@ == self.env.listing(),
                r@.map_values(|p: (String, String)| (p.0@, p.1@)) == logged_entries(
                    entries@.take(i as int),
                    self.debug.print_env,
                    self.debug.env_key_prefixes@,
                ),
            decreases entries@.len() - i,
        {
            let ghost before = r@;
            assert(entries@.take(i + 1).drop_last() =~= entries@.take(i as int));
            assert(entries@.take(i + 1).last() == entries@[i as int]);
            let (key, value) = &entries[i];
            match value {
                Env::Unset => {},
                Env::SetAlways(v) | Env::SetIfMissing(v) => {
                    if self.debug.print_env || any_prefix(key.as_str(), &self.debug.env_key_prefixes) {
                        r.push((key.clone(), v.clone()));
                        assert(r@.map_values(|p: (String, String)| (p.0@, p.1@)) =~= before.map_values(
                            |p: (String, String)| (p.0@, p.1@),
                        ).push((key@, v@)));
                    }
                },
            }
            i = i + 1;
        }
        assert(entries@.take(entries@.len() as int) =~= entries@);
        r
    }
}

} // verus!
