//! Guards against SQL injection: plain identifiers, and the patterns an
//! injected text shows.
use vstd::prelude::*;
use crate::error::Error;
use crate::text::{chars_of, lower_chars, spec_lower, occurs_at, occurs_at_exec, push_str};

verus! {

/// A letter or digit of ASCII, or `_`.
pub open spec fn is_identifier_char(c: char) -> bool {
    ('a' <= c && c <= 'z') || ('A' <= c && c <= 'Z') || ('0' <= c && c <= '9') || c == '_'
}

/// A plain identifier: not empty, and made of ASCII letters, digits and `_`.
pub open spec fn is_identifier(s: Seq<char>) -> bool {
    s.len() > 0 && forall|i: int| 0 <= i < s.len() ==> is_identifier_char(#[trigger] s[i])
}

/// The message with which an identifier that is not plain is refused.
pub open spec fn identifier_message(name: Seq<char>) -> Seq<char> {
    "invalid identifier: "@ + name
}

/// `r` is the injection error with message `m`.
pub open spec fn refused<T>(m: Seq<char>, r: Result<T, Error>) -> bool {
    r matches Err(Error::SqlInjection(t)) && t@ == m
}

fn is_identifier_char_exec(c: char) -> (r: bool)
    ensures
        r == is_identifier_char(c),
{
    ('a' <= c && c <= 'z') || ('A' <= c && c <= 'Z') || ('0' <= c && c <= '9') || c == '_'
}

/// Checks that `name` is a plain identifier (ASCII letters, digits and
/// `_`, at least one); any other name is refused as an injection.
pub fn validate_identifier(name: &str) -> (r: Result<(), Error>)
    ensures
        is_identifier(name@) ==> r is Ok,
        !is_identifier(name@) ==> refused(identifier_message(name@), r),
{
    let cs = chars_of(name);
    let mut ok = cs.len() > 0;
    let mut i: usize = 0;
    while i < cs.len()
        invariant
            i <= cs.len(),
            cs@ == name@,
            ok == (cs.len() > 0 && forall|k: int| 0 <= k < i ==> is_identifier_char(#[trigger] cs@[k])),
        decreases cs.len() - i,
    {
        if !is_identifier_char_exec(cs[i]) {
            ok = false;
        }
        i += 1;
    }
    if ok {
        Ok(())
    } else {
        let mut m = String::from_str("invalid identifier: ");
        push_str(&mut m, name);
        Err(Error::SqlInjection(m))
    }
}

/// A character that may stand between two statements.
pub open spec fn is_blank(c: char) -> bool {
    c == ' ' || c == '\t' || c == '\n' || c == '\r'
}

/// The first position at or after `j` whose character is not blank; the
/// length of `t` when there is none.
pub open spec fn skip_blanks(t: Seq<char>, j: int) -> int
    decreases t.len() - j,
{
    if j < 0 || j >= t.len() {
        j
    } else if is_blank(t[j]) {
        skip_blanks(t, j + 1)
    } else {
        j
    }
}

/// A statement keyword, in lower case, starts at `j` of `t`.
pub open spec fn keyword_at(t: Seq<char>, j: int) -> bool {
    occurs_at(t, "drop"@, j) || occurs_at(t, "delete"@, j) || occurs_at(t, "insert"@, j) || occurs_at(t, "update"@, j)
        || occurs_at(t, "select"@, j) || occurs_at(t, "alter"@, j) || occurs_at(t, "create"@, j) || occurs_at(
        t,
        "truncate"@,
        j,
    ) || occurs_at(t, "exec"@, j)
}

/// An injection pattern starts at `i` of the lower-cased text `t`: a
/// comment (`--`, `/*`, `#`), an always-true condition (`or 1=1`,
/// `and 1=1`), or a `;` followed, after blanks, by a statement keyword.
pub open spec fn pattern_at(t: Seq<char>, i: int) -> bool {
    occurs_at(t, "--"@, i) || occurs_at(t, "/*"@, i) || occurs_at(t, "#"@, i) || occurs_at(t, "or 1=1"@, i)
        || occurs_at(t, "and 1=1"@, i) || (occurs_at(t, ";"@, i) && keyword_at(t, skip_blanks(t, i + 1)))
}

/// Some injection pattern occurs in `s`, letters compared without case.
pub open spec fn has_injection(s: Seq<char>) -> bool {
    exists|i: int| 0 <= i < s.len() && #[trigger] pattern_at(spec_lower(s), i)
}

/// The message with which a text showing an injection pattern is refused.
pub open spec fn injection_message(s: Seq<char>) -> Seq<char> {
    "suspicious pattern in: "@ + s
}

fn occurs(t: &Vec<char>, pat: &str, i: usize) -> (r: bool)
    ensures
        r == occurs_at(t@, pat@, i as int),
{
    let p = chars_of(pat);
    if i > t.len() || p.len() > t.len() - i {
        false
    } else {
        occurs_at_exec(t.as_slice(), p.as_slice(), i)
    }
}

fn skip_blanks_exec(t: &Vec<char>, j: usize) -> (r: usize)
    requires
        j <= t.len(),
    ensures
        r as int == skip_blanks(t@, j as int),
        r <= t.len(),
{
    let mut k: usize = j;
    while k < t.len() && (t[k] == ' ' || t[k] == '\t' || t[k] == '\n' || t[k] == '\r')
        invariant
            j <= k <= t.len(),
            skip_blanks(t@, k as int) == skip_blanks(t@, j as int),
        decreases t.len() - k,
    {
        k += 1;
    }
    k
}

fn keyword_at_exec(t: &Vec<char>, j: usize) -> (r: bool)
    ensures
        r == keyword_at(t@, j as int),
{
    occurs(t, "drop", j) || occurs(t, "delete", j) || occurs(t, "insert", j) || occurs(t, "update", j) || occurs(
        t,
        "select",
        j,
    ) || occurs(t, "alter", j) || occurs(t, "create", j) || occurs(t, "truncate", j) || occurs(t, "exec", j)
}

fn pattern_at_exec(t: &Vec<char>, i: usize) -> (r: bool)
    requires
        i < t.len(),
    ensures
        r == pattern_at(t@, i as int),
{
    occurs(t, "--", i) || occurs(t, "/*", i) || occurs(t, "#", i) || occurs(t, "or 1=1", i) || occurs(t, "and 1=1", i)
        || (occurs(t, ";", i) && keyword_at_exec(t, skip_blanks_exec(t, i + 1)))
}

/// Checks `input` for the patterns of an injected text: a comment (`--`,
/// `/*`, `#`), an always-true condition (`OR 1=1`, `AND 1=1`) or a `;`
/// followed by another statement (`DROP`, `DELETE`, `INSERT`, `UPDATE`,
/// `SELECT`, `ALTER`, `CREATE`, `TRUNCATE`, `EXEC`), letters compared
/// without case. A text that shows one is refused as an injection.
pub fn check_sql_injection(input: &str) -> (r: Result<(), Error>)
    ensures
        !has_injection(input@) ==> r is Ok,
        has_injection(input@) ==> refused(injection_message(input@), r),
{
    let cs = chars_of(input);
    let t = lower_chars(cs.as_slice());
    assert(t@.len() == input@.len());
    let mut i: usize = 0;
    while i < t.len()
        invariant
            i <= t.len(),
            t@ == spec_lower(input@),
            t@.len() == input@.len(),
            forall|k: int| 0 <= k < i ==> !#[trigger] pattern_at(t@, k),
        decreases t.len() - i,
    {
        if pattern_at_exec(&t, i) {
            assert(pattern_at(spec_lower(input@), i as int));
            let mut m = String::from_str("suspicious pattern in: ");
            push_str(&mut m, input);
            return Err(Error::SqlInjection(m));
        }
        i += 1;
    }
    Ok(())
}

} // verus!
