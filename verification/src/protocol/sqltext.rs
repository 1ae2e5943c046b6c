//! Reading the parts of an SQL statement that the embedded engine needs:
//! table names, column lists, value lists and lines of stored text.
//!
//! Keywords are searched in the ASCII upper-case copy of a statement, which
//! has the same length as the statement, so a position found in the copy is
//! a position in the statement.
use vstd::prelude::*;
use crate::error::Error;
use crate::text::{
    chars_of, string_of, slice_chars, upper_chars, trim_chars, trim_set, find_chars, find_char,
    rfind_chars, split_chars, starts_with_chars, chars_eq, spec_upper, spec_trim, spec_find, spec_find_char,
    spec_rfind, spec_split, starts_with, lead_count, trim_by, set_pred, is_ws, is_ws_exec, lemma_find_bounds,
    lemma_rfind_bounds, contains_char_exec, char_is_alphanumeric, is_alphanumeric,
};

verus! {

// ---------------------------------------------------------------------------
// Positions and tokens
// ---------------------------------------------------------------------------

/// `s` from position `k` on; empty when `k` lies past the end.
pub open spec fn after(s: Seq<char>, k: int) -> Seq<char> {
    if 0 <= k <= s.len() {
        s.skip(k)
    } else {
        Seq::empty()
    }
}

/// `s[a..b]`, or empty when the range is not within `s`.
pub open spec fn range_of(s: Seq<char>, a: int, b: int) -> Seq<char> {
    if 0 <= a <= b <= s.len() {
        s.subrange(a, b)
    } else {
        Seq::empty()
    }
}

/// The characters that end a token: white space and the `stops`.
pub open spec fn token_pred(stops: Seq<char>) -> spec_fn(char) -> bool {
    |c: char| !(is_ws(c) || stops.contains(c))
}

/// The text before the first white space or stop character.
pub open spec fn first_token(s: Seq<char>, stops: Seq<char>) -> Seq<char> {
    s.take(lead_count(s, token_pred(stops)) as int)
}

/// The quotes stripped from names.
pub open spec fn name_quotes() -> Seq<char> {
    seq!['"', '`', '\'']
}

/// The quotes stripped from values.
pub open spec fn value_quotes() -> Seq<char> {
    seq!['\'', '"']
}

/// `s` without surrounding name quotes.
pub open spec fn unquote(s: Seq<char>) -> Seq<char> {
    trim_by(s, set_pred(name_quotes()))
}

/// `s` without surrounding value quotes.
pub open spec fn unquote_value(s: Seq<char>) -> Seq<char> {
    trim_by(s, set_pred(value_quotes()))
}

proof fn lemma_lead_count_at(s: Seq<char>, p: spec_fn(char) -> bool, i: int)
    requires
        0 <= i <= s.len(),
        forall|j: int| 0 <= j < i ==> p(s[j]),
        i < s.len() ==> !p(s[i]),
    ensures
        lead_count(s, p) == i,
    decreases i,
{
    if i > 0 {
        let t = s.drop_first();
        assert forall|j: int| 0 <= j < i - 1 implies p(t[j]) by {
            assert(t[j] == s[j + 1]);
        }
        if i - 1 < t.len() {
            assert(t[i - 1] == s[i]);
        }
        lemma_lead_count_at(t, p, i - 1);
    }
}

/// `s[k..]`, empty when `k` lies past the end.
pub fn after_chars(s: &[char], p: usize, width: usize) -> (r: Vec<char>)
    requires
        p <= s.len(),
    ensures
        r@ == after(s@, p + width),
{
    if width <= s.len() - p {
        slice_chars(s, p + width, s.len())
    } else {
        Vec::new()
    }
}

/// `s[a..b]`, empty when the range is not within `s`.
pub fn range_chars(s: &[char], a: usize, b: usize) -> (r: Vec<char>)
    ensures
        r@ == range_of(s@, a as int, b as int),
{
    if a <= b && b <= s.len() {
        slice_chars(s, a, b)
    } else {
        Vec::new()
    }
}

/// `s.split(|c| c.is_whitespace() || stops.contains(&c)).next()`.
pub fn first_token_chars(s: &[char], stops: &[char]) -> (r: Vec<char>)
    ensures
        r@ == first_token(s@, stops@),
{
    let ghost p = token_pred(stops@);
    let mut i: usize = 0;
    while i < s.len()
        invariant
            i <= s.len(),
            p == token_pred(stops@),
            forall|j: int| 0 <= j < i ==> p(s@[j]),
        decreases s.len() - i,
    {
        assert(p(s@[i as int]) == !(is_ws(s@[i as int]) || stops@.contains(s@[i as int])));
        if is_ws_exec(s[i]) || contains_char_exec(stops, s[i]) {
            proof {
                lemma_lead_count_at(s@, p, i as int);
            }
            return slice_chars(s, 0, i);
        }
        i += 1;
    }
    proof {
        lemma_lead_count_at(s@, p, i as int);
    }
    slice_chars(s, 0, i)
}

/// `s` without surrounding name quotes.
pub fn unquote_chars(s: &[char]) -> (r: Vec<char>)
    ensures
        r@ == unquote(s@),
{
    let q = vec!['"', '`', '\''];
    assert(q@ =~= name_quotes());
    trim_set(s, &q)
}

/// `s` without surrounding value quotes.
pub fn unquote_value_chars(s: &[char]) -> (r: Vec<char>)
    ensures
        r@ == unquote_value(s@),
{
    let q = vec!['\'', '"'];
    assert(q@ =~= value_quotes());
    trim_set(s, &q)
}

// ---------------------------------------------------------------------------
// Table names
// ---------------------------------------------------------------------------

/// The name that follows keyword `kw`: from `width` characters past the
/// keyword, trimmed, up to white space or a stop character, without quotes.
/// None when the keyword does not occur.
pub open spec fn name_after(sql: Seq<char>, kw: Seq<char>, width: int, stops: Seq<char>) -> Option<Seq<char>> {
    match spec_find(spec_upper(sql), kw) {
        Some(p) => Some(unquote(first_token(spec_trim(after(sql, p + width)), stops))),
        None => None,
    }
}

/// The table named by `CREATE TABLE [IF NOT EXISTS] <name>`.
pub open spec fn create_table_name(sql: Seq<char>) -> Option<Seq<char>> {
    match spec_find(spec_upper(sql), "CREATE TABLE"@) {
        Some(p) => {
            let rest = spec_trim(after(sql, p + 13));
            let rest = if starts_with(rest, "IF NOT EXISTS"@) {
                spec_trim(after(rest, 14))
            } else {
                rest
            };
            Some(unquote(first_token(rest, seq!['('])))
        },
        None => None,
    }
}

/// The error for a statement without a table name.
pub open spec fn no_table_name(e: Error) -> bool {
    e matches Error::Protocol(m) && m@ == "Cannot extract table name"@
}

fn no_table_name_error() -> (e: Error)
    ensures
        no_table_name(e),
{
    Error::Protocol(String::from_str("Cannot extract table name"))
}

fn name_after_exec(sql: &str, kw: &str, width: usize, stops: &[char]) -> (r: Result<String, Error>)
    ensures
        match name_after(sql@, kw@, width as int, stops@) {
            Some(n) => r matches Ok(s) && s@ == n,
            None => r matches Err(e) && no_table_name(e),
        },
{
    let cs = chars_of(sql);
    let up = upper_chars(&cs);
    let k = chars_of(kw);
    proof {
        lemma_find_bounds(up@, k@);
    }
    match find_chars(&up, &k) {
        Some(p) => {
            let rest = after_chars(&cs, p, width);
            let t = trim_chars(&rest);
            let tok = first_token_chars(&t, stops);
            let n = unquote_chars(&tok);
            Ok(string_of(&n))
        },
        None => Err(no_table_name_error()),
    }
}

/// The table of `INSERT INTO <name> ...`.
pub fn insert_table_name(sql: &str) -> (r: Result<String, Error>)
    ensures
        match name_after(sql@, "INTO"@, 4, seq!['(']) {
            Some(n) => r matches Ok(s) && s@ == n,
            None => r matches Err(e) && no_table_name(e),
        },
{
    let stops = vec!['('];
    assert(stops@ =~= seq!['(']);
    name_after_exec(sql, "INTO", 4, &stops)
}

/// The table of `DELETE FROM <name> ...`.
pub fn delete_table_name(sql: &str) -> (r: Result<String, Error>)
    ensures
        match name_after(sql@, "FROM"@, 4, seq![';']) {
            Some(n) => r matches Ok(s) && s@ == n,
            None => r matches Err(e) && no_table_name(e),
        },
{
    let stops = vec![';'];
    assert(stops@ =~= seq![';']);
    name_after_exec(sql, "FROM", 4, &stops)
}

/// The table of `UPDATE <name> ...`.
pub fn update_table_name(sql: &str) -> (r: Result<String, Error>)
    ensures
        match name_after(sql@, "UPDATE"@, 6, Seq::empty()) {
            Some(n) => r matches Ok(s) && s@ == n,
            None => r matches Err(e) && no_table_name(e),
        },
{
    let stops: Vec<char> = Vec::new();
    assert(stops@ =~= Seq::<char>::empty());
    name_after_exec(sql, "UPDATE", 6, &stops)
}

/// The table of `SELECT ... FROM <name> ...`.
pub fn select_table_name(sql: &str) -> (r: Result<String, Error>)
    ensures
        match name_after(sql@, "FROM"@, 4, seq![';', ',']) {
            Some(n) => r matches Ok(s) && s@ == n,
            None => r matches Err(e) && no_table_name(e),
        },
{
    let stops = vec![';', ','];
    assert(stops@ =~= seq![';', ',']);
    name_after_exec(sql, "FROM", 4, &stops)
}

/// The table of `CREATE TABLE [IF NOT EXISTS] <name> ...`.
pub fn create_table_name_of(sql: &str) -> (r: Result<String, Error>)
    ensures
        match create_table_name(sql@) {
            Some(n) => r matches Ok(s) && s@ == n,
            None => r matches Err(e) && no_table_name(e),
        },
{
    let cs = chars_of(sql);
    let up = upper_chars(&cs);
    let k = chars_of("CREATE TABLE");
    proof {
        lemma_find_bounds(up@, k@);
    }
    match find_chars(&up, &k) {
        Some(p) => {
            let a = after_chars(&cs, p, 13);
            let rest = trim_chars(&a);
            let ine = chars_of("IF NOT EXISTS");
            let rest2 = if starts_with_chars(&rest, &ine) {
                let b = after_chars(&rest, 0, 14);
                trim_chars(&b)
            } else {
                rest
            };
            let stops = vec!['('];
            assert(stops@ =~= seq!['(']);
            let tok = first_token_chars(&rest2, &stops);
            let n = unquote_chars(&tok);
            Ok(string_of(&n))
        },
        None => Err(no_table_name_error()),
    }
}

// ---------------------------------------------------------------------------
// Lines
// ---------------------------------------------------------------------------

/// A line without one trailing carriage return.
pub open spec fn strip_cr(l: Seq<char>) -> Seq<char> {
    if l.len() > 0 && l.last() == '\r' {
        l.drop_last()
    } else {
        l
    }
}

/// `str::lines`: the text split at `\n`, each line ended by `\n` losing one
/// trailing `\r`, and no empty line after a final `\n`.
pub open spec fn spec_lines(s: Seq<char>) -> Seq<Seq<char>> {
    if s.len() == 0 {
        Seq::empty()
    } else {
        let p = spec_split(s, seq!['\n']);
        let ended = p.drop_last().map_values(|l: Seq<char>| strip_cr(l));
        if s.last() == '\n' {
            ended
        } else {
            ended.push(p.last())
        }
    }
}

fn strip_cr_chars(l: Vec<char>) -> (r: Vec<char>)
    ensures
        r@ == strip_cr(l@),
{
    if l.len() > 0 && l[l.len() - 1] == '\r' {
        slice_chars(&l, 0, l.len() - 1)
    } else {
        l
    }
}

pub proof fn lemma_split_nonempty(s: Seq<char>, pat: Seq<char>)
    requires
        pat.len() > 0,
    ensures
        spec_split(s, pat).len() >= 1,
    decreases s.len(),
{
    lemma_find_bounds(s, pat);
    match spec_find(s, pat) {
        Some(i) => {
            lemma_split_nonempty(s.skip(i + pat.len()), pat);
        },
        None => {},
    }
}

/// `s.lines()`, each line as characters.
pub fn lines_of(s: &[char]) -> (r: Vec<Vec<char>>)
    ensures
        r@.map_values(|v: Vec<char>| v@) == spec_lines(s@),
{
    if s.len() == 0 {
        let r: Vec<Vec<char>> = Vec::new();
        assert(r@.map_values(|v: Vec<char>| v@) =~= Seq::<Seq<char>>::empty());
        return r;
    }
    let nl = vec!['\n'];
    assert(nl@ =~= seq!['\n']);
    let mut parts = split_chars(s, &nl);
    let ghost p = spec_split(s@, seq!['\n']);
    proof {
        lemma_split_nonempty(s@, seq!['\n']);
    }
    let last = parts.pop().unwrap();
    let mut r: Vec<Vec<char>> = Vec::new();
    let mut i: usize = 0;
    while i < parts.len()
        invariant
            i <= parts.len(),
            parts@.map_values(|v: Vec<char>| v@) == p.drop_last(),
            r@.map_values(|v: Vec<char>| v@) == p.drop_last().take(i as int).map_values(|l: Seq<char>| strip_cr(l)),
        decreases parts.len() - i,
    {
        let ghost before = r@.map_values(|v: Vec<char>| v@);
        let line = slice_chars(&parts[i], 0, parts[i].len());
        assert(line@ =~= p.drop_last()[i as int]);
        let l = strip_cr_chars(line);
        r.push(l);
        assert(r@.map_values(|v: Vec<char>| v@) =~= before.push(l@));
        assert(p.drop_last().take(i + 1).map_values(|l: Seq<char>| strip_cr(l)) =~= p.drop_last().take(
            i as int,
        ).map_values(|l: Seq<char>| strip_cr(l)).push(strip_cr(p.drop_last()[i as int])));
        i += 1;
    }
    assert(p.drop_last().take(parts.len() as int) =~= p.drop_last());
    if s[s.len() - 1] != '\n' {
        let ghost before = r@.map_values(|v: Vec<char>| v@);
        r.push(last);
        assert(r@.map_values(|v: Vec<char>| v@) =~= before.push(p.last()));
    }
    r
}

// ---------------------------------------------------------------------------
// Column and value lists
// ---------------------------------------------------------------------------

/// One item of a value list: trimmed, without surrounding single quotes.
pub open spec fn clean_value(cur: Seq<char>) -> Seq<char> {
    trim_by(spec_trim(cur), set_pred(seq!['\'']))
}

/// The items of a value list read from position `i` on, in quotes when
/// `in_q`, with the current item `cur` and the items `acc` already read.
/// A comma outside quotes ends an item; inside quotes a doubled single quote
/// stays as it is; a last item is kept when it is not empty.
pub open spec fn values_from(s: Seq<char>, i: int, in_q: bool, cur: Seq<char>, acc: Seq<Seq<char>>) -> Seq<
    Seq<char>,
>
    decreases s.len() - i,
{
    if i < 0 || i >= s.len() {
        if cur.len() > 0 {
            acc.push(clean_value(cur))
        } else {
            acc
        }
    } else {
        let c = s[i];
        if c == '\'' {
            if in_q {
                if i + 1 < s.len() && s[i + 1] == '\'' {
                    values_from(s, i + 2, true, cur.push('\'').push('\''), acc)
                } else {
                    values_from(s, i + 1, false, cur.push('\''), acc)
                }
            } else {
                values_from(s, i + 1, true, cur.push('\''), acc)
            }
        } else if c == ',' && !in_q {
            values_from(s, i + 1, in_q, Seq::empty(), acc.push(clean_value(cur)))
        } else {
            values_from(s, i + 1, in_q, cur.push(c), acc)
        }
    }
}

/// The items of an SQL value list.
pub open spec fn sql_values(s: Seq<char>) -> Seq<Seq<char>> {
    values_from(s, 0, false, Seq::empty(), Seq::empty())
}

fn clean_value_chars(cur: &[char]) -> (r: Vec<char>)
    ensures
        r@ == clean_value(cur@),
{
    let t = trim_chars(cur);
    let q = vec!['\''];
    assert(q@ =~= seq!['\'']);
    trim_set(&t, &q)
}

/// Splits an SQL value list at the commas outside single quotes.
pub fn split_sql_values(input: &[char]) -> (r: Vec<Vec<char>>)
    ensures
        r@.map_values(|v: Vec<char>| v@) == sql_values(input@),
{
    let mut values: Vec<Vec<char>> = Vec::new();
    let mut current: Vec<char> = Vec::new();
    let mut in_quotes = false;
    let mut i: usize = 0;
    assert(values@.map_values(|v: Vec<char>| v@) =~= Seq::<Seq<char>>::empty());
    while i < input.len()
        invariant
            i <= input.len() + 1,
            sql_values(input@) == values_from(
                input@,
                i as int,
                in_quotes,
                current@,
                values@.map_values(|v: Vec<char>| v@),
            ),
        decreases input.len() + 1 - i,
    {
        let c = input[i];
        let ghost acc = values@.map_values(|v: Vec<char>| v@);
        if c == '\'' {
            if in_quotes {
                if i + 1 < input.len() && input[i + 1] == '\'' {
                    current.push(c);
                    current.push('\'');
                    i += 2;
                } else {
                    in_quotes = false;
                    current.push(c);
                    i += 1;
                }
            } else {
                in_quotes = true;
                current.push(c);
                i += 1;
            }
        } else if c == ',' && !in_quotes {
            let v = clean_value_chars(&current);
            values.push(v);
            assert(values@.map_values(|v: Vec<char>| v@) =~= acc.push(v@));
            current = Vec::new();
            assert(current@ =~= Seq::<char>::empty());
            i += 1;
        } else {
            current.push(c);
            i += 1;
        }
    }
    if current.len() > 0 {
        let ghost acc = values@.map_values(|v: Vec<char>| v@);
        let v = clean_value_chars(&current);
        values.push(v);
        assert(values@.map_values(|v: Vec<char>| v@) =~= acc.push(v@));
    }
    values
}

/// The column names of `INSERT INTO t (<columns>) ...`: the text between the
/// first `(` and the `)` after it, split at commas, trimmed and without
/// quotes; none when there is no such pair.
pub open spec fn insert_columns_of(sql: Seq<char>) -> Seq<Seq<char>> {
    match spec_find_char(sql, '(') {
        Some(st) => match spec_find_char(sql.skip(st), ')') {
            Some(e) => spec_split(range_of(sql, st + 1, st + e), seq![',']).map_values(
                |c: Seq<char>| unquote(spec_trim(c)),
            ),
            None => Seq::empty(),
        },
        None => Seq::empty(),
    }
}

/// The values of `INSERT ... VALUES (<values>)`: the text between the first
/// `(` after `VALUES` and the `)` after it, as an SQL value list.
pub open spec fn insert_values_of(sql: Seq<char>) -> Seq<Seq<char>> {
    match spec_find(spec_upper(sql), "VALUES"@) {
        Some(p) => {
            let rest = spec_trim(after(sql, p + 6));
            match spec_find_char(rest, '(') {
                Some(st) => match spec_find_char(rest.skip(st), ')') {
                    Some(e) => sql_values(range_of(rest, st + 1, st + e)),
                    None => Seq::empty(),
                },
                None => Seq::empty(),
            }
        },
        None => Seq::empty(),
    }
}

/// The views of a vector of character vectors.
pub open spec fn char_views(v: Seq<Vec<char>>) -> Seq<Seq<char>> {
    v.map_values(|x: Vec<char>| x@)
}

fn map_unquote_trim(parts: &Vec<Vec<char>>) -> (r: Vec<Vec<char>>)
    ensures
        char_views(r@) == char_views(parts@).map_values(|c: Seq<char>| unquote(spec_trim(c))),
{
    let mut r: Vec<Vec<char>> = Vec::new();
    let mut i: usize = 0;
    while i < parts.len()
        invariant
            i <= parts.len(),
            char_views(r@) == char_views(parts@).take(i as int).map_values(|c: Seq<char>| unquote(spec_trim(c))),
        decreases parts.len() - i,
    {
        let t = trim_chars(&parts[i]);
        let u = unquote_chars(&t);
        let ghost before = char_views(r@);
        r.push(u);
        assert(char_views(r@) =~= before.push(u@));
        assert(char_views(parts@).take(i + 1) =~= char_views(parts@).take(i as int).push(parts@[i as int]@));
        i += 1;
    }
    assert(char_views(parts@).take(parts.len() as int) =~= char_views(parts@));
    r
}

/// The column names of an `INSERT` statement.
pub fn insert_columns(sql: &[char]) -> (r: Vec<Vec<char>>)
    ensures
        char_views(r@) == insert_columns_of(sql@),
{
    proof {
        lemma_find_bounds(sql@, seq!['(']);
    }
    match find_char(sql, '(') {
        Some(st) => {
            let tail = slice_chars(sql, st, sql.len());
            proof {
                lemma_find_bounds(tail@, seq![')']);
            }
            match find_char(&tail, ')') {
                Some(e) => {
                    assert(tail@ =~= sql@.skip(st as int));
                    let inner = range_chars(sql, st + 1, st + e);
                    let comma = vec![','];
                    assert(comma@ =~= seq![',']);
                    let parts = split_chars(&inner, &comma);
                    map_unquote_trim(&parts)
                },
                None => {
                    assert(tail@ =~= sql@.skip(st as int));
                    let r: Vec<Vec<char>> = Vec::new();
                    assert(char_views(r@) =~= Seq::<Seq<char>>::empty());
                    r
                },
            }
        },
        None => {
            let r: Vec<Vec<char>> = Vec::new();
            assert(char_views(r@) =~= Seq::<Seq<char>>::empty());
            r
        },
    }
}

/// The values of an `INSERT` statement.
pub fn insert_values(sql: &[char]) -> (r: Vec<Vec<char>>)
    ensures
        char_views(r@) == insert_values_of(sql@),
{
    let up = upper_chars(sql);
    let k = chars_of("VALUES");
    proof {
        lemma_find_bounds(up@, k@);
    }
    let empty: Vec<Vec<char>> = Vec::new();
    assert(char_views(empty@) =~= Seq::<Seq<char>>::empty());
    match find_chars(&up, &k) {
        Some(p) => {
            let a = after_chars(sql, p, 6);
            let rest = trim_chars(&a);
            proof {
                lemma_find_bounds(rest@, seq!['(']);
            }
            match find_char(&rest, '(') {
                Some(st) => {
                    let tail = slice_chars(&rest, st, rest.len());
                    assert(tail@ =~= rest@.skip(st as int));
                    proof {
                        lemma_find_bounds(tail@, seq![')']);
                    }
                    match find_char(&tail, ')') {
                        Some(e) => {
                            let inner = range_chars(&rest, st + 1, st + e);
                            split_sql_values(&inner)
                        },
                        None => empty,
                    }
                },
                None => empty,
            }
        },
        None => empty,
    }
}

// ---------------------------------------------------------------------------
// Selected columns
// ---------------------------------------------------------------------------

/// Whether every character is alphanumeric or `_`.
pub open spec fn is_word(s: Seq<char>) -> bool {
    forall|i: int| 0 <= i < s.len() ==> char_is_alphanumeric(s[i]) || s[i] == '_'
}

/// The part of a name after its last `.`.
pub open spec fn last_path_part(c: Seq<char>) -> Seq<char> {
    spec_split(c, seq!['.']).last()
}

/// The name of a selected column: its alias after ` AS `, else a word
/// after its last space, else the part after its last `.`.
pub open spec fn select_column_name(c: Seq<char>) -> Seq<char> {
    match spec_rfind(spec_upper(c), " AS "@) {
        Some(a) => spec_trim(after(c, a + 4)),
        None => match spec_rfind(c, seq![' ']) {
            Some(sp) => {
                let af = spec_trim(after(c, sp + 1));
                if is_word(af) {
                    af
                } else {
                    last_path_part(c)
                }
            },
            None => last_path_part(c),
        },
    }
}

/// The columns of `SELECT <columns> FROM ...`; `*` alone when all are
/// selected or the statement has no such form.
pub open spec fn select_columns_of(sql: Seq<char>) -> Seq<Seq<char>> {
    let up = spec_upper(sql);
    match spec_find(up, "SELECT"@) {
        Some(s) => match spec_find(up, "FROM"@) {
            Some(f) => {
                let cols = spec_trim(range_of(sql, s + 6, f));
                if cols == "*"@ {
                    seq!["*"@]
                } else {
                    spec_split(cols, seq![',']).map_values(|c: Seq<char>| select_column_name(spec_trim(c)))
                }
            },
            None => seq!["*"@],
        },
        None => seq!["*"@],
    }
}

fn is_word_chars(s: &[char]) -> (r: bool)
    ensures
        r == is_word(s@),
{
    let mut i: usize = 0;
    while i < s.len()
        invariant
            i <= s.len(),
            forall|j: int| 0 <= j < i ==> char_is_alphanumeric(s@[j]) || s@[j] == '_',
        decreases s.len() - i,
    {
        if !(is_alphanumeric(s[i]) || s[i] == '_') {
            return false;
        }
        i += 1;
    }
    true
}

fn last_path_part_chars(c: &[char]) -> (r: Vec<char>)
    ensures
        r@ == last_path_part(c@),
{
    let dot = vec!['.'];
    assert(dot@ =~= seq!['.']);
    let mut parts = split_chars(c, &dot);
    proof {
        lemma_split_nonempty(c@, seq!['.']);
    }
    let ghost pv = char_views(parts@);
    assert(pv.last() == parts@[parts@.len() - 1]@);
    parts.pop().unwrap()
}

fn select_column_name_chars(c: &[char]) -> (r: Vec<char>)
    ensures
        r@ == select_column_name(c@),
{
    let up = upper_chars(c);
    let kw = chars_of(" AS ");
    proof {
        lemma_rfind_bounds(up@, kw@);
        lemma_rfind_bounds(c@, seq![' ']);
    }
    match rfind_chars(&up, &kw) {
        Some(a) => {
            let t = after_chars(c, a, 4);
            trim_chars(&t)
        },
        None => {
            let sp = vec![' '];
            assert(sp@ =~= seq![' ']);
            match rfind_chars(c, &sp) {
                Some(p) => {
                    let t = after_chars(c, p, 1);
                    let af = trim_chars(&t);
                    if is_word_chars(&af) {
                        af
                    } else {
                        last_path_part_chars(c)
                    }
                },
                None => last_path_part_chars(c),
            }
        },
    }
}

/// The columns of a `SELECT` statement.
pub fn select_columns(sql: &[char]) -> (r: Vec<Vec<char>>)
    ensures
        char_views(r@) == select_columns_of(sql@),
{
    let up = upper_chars(sql);
    let ks = chars_of("SELECT");
    let kf = chars_of("FROM");
    proof {
        lemma_find_bounds(up@, ks@);
        reveal_strlit("SELECT");
        assert(ks@.len() == 6);
    }
    let mut star: Vec<Vec<char>> = Vec::new();
    star.push(chars_of("*"));
    assert(char_views(star@) =~= seq!["*"@]);
    match find_chars(&up, &ks) {
        Some(s) => match find_chars(&up, &kf) {
            Some(f) => {
                assert(spec_find(up@, ks@) == Some(s as int));
                let n = up.len();
                assert(s + 6 <= n);
                let a: usize = s + 6;
                let raw = range_chars(sql, a, f);
                assert(raw@ == range_of(sql@, s + 6, f as int));
                let cols = trim_chars(&raw);
                if chars_eq(&cols, &chars_of("*")) {
                    star
                } else {
                    let comma = vec![','];
                    assert(comma@ =~= seq![',']);
                    let parts = split_chars(&cols, &comma);
                    let mut r: Vec<Vec<char>> = Vec::new();
                    let mut i: usize = 0;
                    while i < parts.len()
                        invariant
                            i <= parts.len(),
                            char_views(r@) == char_views(parts@).take(i as int).map_values(
                                |c: Seq<char>| select_column_name(spec_trim(c)),
                            ),
                        decreases parts.len() - i,
                    {
                        let t = trim_chars(&parts[i]);
                        let n = select_column_name_chars(&t);
                        let ghost before = char_views(r@);
                        r.push(n);
                        assert(char_views(r@) =~= before.push(n@));
                        assert(char_views(parts@).take(i + 1) =~= char_views(parts@).take(i as int).push(
                            parts@[i as int]@,
                        ));
                        i += 1;
                    }
                    assert(char_views(parts@).take(parts.len() as int) =~= char_views(parts@));
                    r
                }
            },
            None => star,
        },
        None => star,
    }
}

} // verus!
