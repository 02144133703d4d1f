//! Generic identifiers, validated against a Unicode-aware pattern.

use crate::text::{chars_of, str_eq, trim_by, trim_matching, trim_pred, TrimSet};
use vstd::prelude::*;

verus! {

/// Unicode alphanumeric character classes an identifier may contain.
pub const ALNUM: &'static str = "\\p{Alphabetic}\\p{M}\\p{Join_Control}\\d";

/// Symbols an identifier may contain.
pub const SYMBOLS: &'static str = "/\\._-";

/// Pattern that all identifiers are matched against: an optional leading
/// `@`, then Unicode alphanumeric characters, `/`, `.`, `_` and `-`.
pub const ID_PATTERN: &'static str = "^(@?[\\p{Alphabetic}\\p{M}\\p{Join_Control}\\d/\\._-]*)$";

/// Pattern of the runs of unsupported characters that cleaning replaces.
pub const ID_CLEAN_PATTERN: &'static str = "[^\\p{Alphabetic}\\p{M}\\p{Join_Control}\\d/\\._-]+";

/// Whether `regex::Regex::new` accepts the pattern.
pub uninterp spec fn regex_compiles(pattern: Seq<char>) -> bool;

/// What `regex::Regex::is_match` reports for the compiled pattern.
pub uninterp spec fn regex_is_match(pattern: Seq<char>, haystack: Seq<char>) -> bool;

/// What `regex::Regex::replace_all` produces for the compiled pattern
/// and a literal replacement.
pub uninterp spec fn regex_replace_all(
    pattern: Seq<char>,
    haystack: Seq<char>,
    replacement: Seq<char>,
) -> Seq<char>;

/// Compiles `pattern` with `regex::Regex::new`; when it compiles, reports
/// `Regex::is_match` on `haystack`. The contract ties both outcomes to
/// the names above, which the regex crate's documentation defines.
#[verifier::external_body]
fn pattern_is_match(pattern: &str, haystack: &str) -> (r: Option<bool>)
    ensures
        r is Some <==> regex_compiles(pattern@),
        r matches Some(m) ==> m == regex_is_match(pattern@, haystack@),
{
    match regex::Regex::new(pattern) {
        Ok(re) => Some(re.is_match(haystack)),
        Err(_) => None,
    }
}

/// Compiles `pattern` with `regex::Regex::new`; when it compiles, returns
/// `Regex::replace_all` of `haystack` with `replacement` (in which `$`
/// would name a capture group).
#[verifier::external_body]
fn pattern_replace_all(pattern: &str, haystack: &str, replacement: &str) -> (r: Option<String>)
    ensures
        r is Some <==> regex_compiles(pattern@),
        r matches Some(s) ==> s@ == regex_replace_all(pattern@, haystack@, replacement@),
{
    match regex::Regex::new(pattern) {
        Ok(re) => Some(re.replace_all(haystack, replacement).into_owned()),
        Err(_) => None,
    }
}

/// Error for a string that is not a valid identifier; holds the string.
#[derive(Clone, Debug, PartialEq, Eq)]
pub struct IdError(pub String);

impl IdError {
    /// The human readable description of this error.
    pub fn message(&self) -> (r: String)
        ensures
            r@ == "Invalid identifier format for `"@ + self.0@
                + "`. May only contain alpha-numeric characters, dashes (-), slashes (/), underscores (_), and periods (.)."@,
    {
        let mut r = String::from_str("Invalid identifier format for `");
        r.append(self.0.as_str());
        r.append(
            "`. May only contain alpha-numeric characters, dashes (-), slashes (/), underscores (_), and periods (.).",
        );
        r
    }
}

/// True when `s` is a valid identifier: not empty, and matched by
/// [`ID_PATTERN`] (which must compile).
pub open spec fn id_accepted(s: Seq<char>) -> bool {
    &&& s.len() > 0
    &&& regex_compiles(ID_PATTERN@)
    &&& regex_is_match(ID_PATTERN@, s)
}

/// What cleaning leaves of `s` before validation: runs of unsupported
/// characters replaced by `-`, then leading and trailing symbols removed.
pub open spec fn cleaned(s: Seq<char>) -> Seq<char> {
    trim_by(regex_replace_all(ID_CLEAN_PATTERN@, s, "-"@), trim_pred(TrimSet::IdSymbols))
}

/// The character an environment variable name keeps for `c`: ASCII
/// letters upper-cased, digits and `_` kept, `-` turned into `_`, and
/// anything else dropped.
pub open spec fn env_var_chars(c: char) -> Seq<char> {
    if 'a' <= c && c <= 'z' {
        seq![((c as u32) - 32) as char]
    } else if ('A' <= c && c <= 'Z') || ('0' <= c && c <= '9') || c == '_' {
        seq![c]
    } else if c == '-' {
        seq!['_']
    } else {
        seq![]
    }
}

/// The environment variable name derived from an identifier.
pub open spec fn env_var_name(s: Seq<char>) -> Seq<char>
    decreases s.len(),
{
    if s.len() == 0 {
        seq![]
    } else {
        env_var_name(s.drop_last()) + env_var_chars(s.last())
    }
}

/// A generic identifier.
#[derive(Clone, Debug, Default, PartialEq, Eq, Hash, PartialOrd, Ord)]
pub struct Id {
    inner: String,
}

impl View for Id {
    type V = Seq<char>;

    closed spec fn view(&self) -> Seq<char> {
        self.inner@
    }
}

impl Id {
    /// Create a new identifier with the provided string and validate its
    /// characters using [`ID_PATTERN`]. An empty string is rejected.
    pub fn new(id: &str) -> (r: Result<Id, IdError>)
        ensures
            r is Ok <==> id_accepted(id@),
            r matches Ok(v) ==> v@ == id@,
            r matches Err(e) ==> e.0@ == id@,
    {
        let matched = pattern_is_match(ID_PATTERN, id);
        Self::from_match(id, matched)
    }

    /// Build an identifier from `id` given the outcome of matching it
    /// against [`ID_PATTERN`]: `None` when the pattern did not compile,
    /// else whether it matched.
    pub fn from_match(id: &str, matched: Option<bool>) -> (r: Result<Id, IdError>)
        ensures
            r is Ok <==> (id@.len() > 0 && matched == Some(true)),
            r matches Ok(v) ==> v@ == id@,
            r matches Err(e) ==> e.0@ == id@,
    {
        if id.is_empty() {
            return Err(IdError(id.to_owned()));
        }
        match matched {
            Some(true) => Ok(Id::raw(id)),
            _ => Err(IdError(id.to_owned())),
        }
    }

    /// Clean the provided string to remove unwanted characters and return
    /// a valid identifier: runs of unsupported characters become `-`, and
    /// leading or trailing `@`, `-`, `_`, `/` and `.` are removed.
    pub fn clean(id: &str) -> (r: Result<Id, IdError>)
        ensures
            regex_compiles(ID_CLEAN_PATTERN@) ==> (r is Ok <==> id_accepted(cleaned(id@))),
            !regex_compiles(ID_CLEAN_PATTERN@) ==> (r matches Err(e) && e.0@ == id@),
            r matches Ok(v) ==> v@ == cleaned(id@),
            regex_compiles(ID_CLEAN_PATTERN@) ==> (r matches Err(e) ==> e.0@ == cleaned(id@)),
    {
        match pattern_replace_all(ID_CLEAN_PATTERN, id, "-") {
            Some(replaced) => Self::from_replaced(replaced.as_str()),
            None => Err(IdError(id.to_owned())),
        }
    }

    /// Finish cleaning from the string in which unsupported characters
    /// were already replaced: trim the symbols, then validate.
    pub fn from_replaced(replaced: &str) -> (r: Result<Id, IdError>)
        ensures
            r is Ok <==> id_accepted(trim_by(replaced@, trim_pred(TrimSet::IdSymbols))),
            r matches Ok(v) ==> v@ == trim_by(replaced@, trim_pred(TrimSet::IdSymbols)),
            r matches Err(e) ==> e.0@ == trim_by(replaced@, trim_pred(TrimSet::IdSymbols)),
    {
        let trimmed = trim_matching(replaced, TrimSet::IdSymbols);
        Self::new(trimmed.as_str())
    }

    /// Create a new identifier with the provided string as-is.
    pub fn raw(id: &str) -> (r: Id)
        ensures
            r@ == id@,
    {
        Id { inner: id.to_owned() }
    }

    /// Convert the identifier into an environment variable name, by
    /// keeping alphanumeric characters and underscores, converting dashes
    /// to underscores, removing everything else, and upper-casing.
    pub fn into_env_var(self) -> (r: String)
        ensures
            r@ == env_var_name(self@),
    {
        self.to_env_var()
    }

    /// Convert the identifier to an environment variable name, by keeping
    /// alphanumeric characters and underscores, converting dashes to
    /// underscores, removing everything else, and upper-casing.
    pub fn to_env_var(&self) -> (r: String)
        ensures
            r@ == env_var_name(self@),
    {
        let chars = chars_of(self.inner.as_str());
        let mut var = String::new();
        let mut i: usize = 0;
        while i < chars.len()
            invariant
                chars@ == self@,
                i <= chars.len(),
                var@ == env_var_name(chars@.take(i as int)),
            decreases chars.len() - i,
        {
            let ch = chars[i];
            proof {
                assert(chars@.take(i + 1).drop_last() =~= chars@.take(i as int));
            }
            if 'a' <= ch && ch <= 'z' {
                let b: u8 = (ch as u8) - 32;
                var.push(b as char);
            } else if ('A' <= ch && ch <= 'Z') || ('0' <= ch && ch <= '9') || ch == '_' {
                var.push(ch);
            } else if ch == '-' {
                var.push('_');
            }
            proof {
                assert(var@ =~= env_var_name(chars@.take(i as int)) + env_var_chars(ch));
            }
            i = i + 1;
        }
        assert(chars@.take(chars.len() as int) =~= chars@);
        var
    }

    /// Return the identifier as a [`str`] reference.
    pub fn as_str(&self) -> (r: &str)
        ensures
            r@ == self@,
    {
        self.inner.as_str()
    }

    /// Return the identifier as a `String`.
    pub fn to_string(&self) -> (r: String)
        ensures
            r@ == self@,
    {
        self.inner.clone()
    }

    /// Convert the identifier into a `String`.
    pub fn into_string(self) -> (r: String)
        ensures
            r@ == self@,
    {
        self.inner
    }

    /// Return true if the identifier equals the string.
    pub fn eq_str(&self, other: &str) -> (r: bool)
        ensures
            r == (self@ == other@),
    {
        str_eq(self.inner.as_str(), other)
    }
}


/// A character an environment variable name may hold: an upper-case
/// ASCII letter, a digit, or `_`.
pub open spec fn env_var_char(c: char) -> bool {
    ('A' <= c && c <= 'Z') || ('0' <= c && c <= '9') || c == '_'
}

/// The environment variable name of any identifier holds only upper-case
/// ASCII letters, digits and underscores, and is never longer than it.
pub proof fn law_env_var_name_is_portable(s: Seq<char>)
    ensures
        forall|i: int| 0 <= i < env_var_name(s).len() ==> env_var_char(#[trigger] env_var_name(s)[i]),
        env_var_name(s).len() <= s.len(),
    decreases s.len(),
{
    if s.len() > 0 {
        law_env_var_name_is_portable(s.drop_last());
        let prev = env_var_name(s.drop_last());
        let c = s.last();
        let add = env_var_chars(c);
        assert(env_var_name(s) == prev + add);
        if 'a' <= c && c <= 'z' {
            assert(add[0] == ((c as u32) - 32) as char);
            assert(env_var_char(add[0])) by {
                assert(65 <= (c as u32) - 32 <= 90);
            }
        }
        assert forall|i: int| 0 <= i < env_var_name(s).len() implies env_var_char(#[trigger] env_var_name(s)[i]) by {
            if i >= prev.len() {
                assert(env_var_name(s)[i] == add[i - prev.len()]);
            } else {
                assert(env_var_name(s)[i] == prev[i]);
            }
        }
    }
}

/// The ASCII upper-case form of a character; other characters are
/// unchanged.
pub open spec fn ascii_upper(c: char) -> char {
    if 'a' <= c && c <= 'z' {
        ((c as u32) - 32) as char
    } else {
        c
    }
}

/// Appending a character to an identifier appends to its environment
/// variable name: an ASCII letter (of either case), a digit or `_` adds
/// its upper-case form, `-` adds `_`, and anything else adds nothing.
pub proof fn law_env_var_name_appends(s: Seq<char>, c: char)
    ensures
        ('a' <= c && c <= 'z') || ('A' <= c && c <= 'Z') || ('0' <= c && c <= '9') || c == '_' ==> env_var_name(
            s.push(c),
        ) == env_var_name(s).push(ascii_upper(c)),
        c == '-' ==> env_var_name(s.push(c)) == env_var_name(s).push('_'),
        !(('a' <= c && c <= 'z') || ('A' <= c && c <= 'Z') || ('0' <= c && c <= '9') || c == '_' || c == '-')
            ==> env_var_name(s.push(c)) == env_var_name(s),
{
    assert(s.push(c).drop_last() =~= s);
    assert(s.push(c).last() == c);
    let add = env_var_chars(c);
    assert(env_var_name(s.push(c)) == env_var_name(s) + add);
    if ('a' <= c && c <= 'z') || ('A' <= c && c <= 'Z') || ('0' <= c && c <= '9') || c == '_' || c == '-' {
        assert(env_var_name(s) + add =~= env_var_name(s).push(add[0]));
    } else {
        assert(env_var_name(s) + add =~= env_var_name(s));
    }
}

/// An identifier of ASCII letters, digits and `_` keeps every character
/// in its environment variable name, upper-cased, in order.
pub proof fn law_env_var_name_keeps_word_chars(s: Seq<char>)
    requires
        forall|i: int|
            0 <= i < s.len() ==> ('a' <= #[trigger] s[i] && s[i] <= 'z') || ('A' <= s[i] && s[i] <= 'Z') || (
            '0' <= s[i] && s[i] <= '9') || s[i] == '_',
    ensures
        env_var_name(s).len() == s.len(),
        forall|i: int| 0 <= i < s.len() ==> #[trigger] env_var_name(s)[i] == ascii_upper(s[i]),
    decreases s.len(),
{
    if s.len() > 0 {
        let p = s.drop_last();
        assert forall|i: int| 0 <= i < p.len() implies ('a' <= #[trigger] p[i] && p[i] <= 'z') || ('A' <= p[i] && p[i]
            <= 'Z') || ('0' <= p[i] && p[i] <= '9') || p[i] == '_' by {
            assert(p[i] == s[i]);
        }
        law_env_var_name_keeps_word_chars(p);
        assert(p.push(s.last()) =~= s);
        law_env_var_name_appends(p, s.last());
    }
}

} // verus!
