//! `WHERE` and `SET` clauses as the embedded engine reads them.
//!
//! A condition names a column of the table's header and compares the stored
//! text with a literal; texts are compared as strings, character by
//! character.
use vstd::prelude::*;
use crate::text::{
    chars_of, slice_chars, upper_chars, trim_chars, find_chars, find_char, rfind_chars, split_chars,
    chars_eq, lex_less, lex_lt, spec_upper, spec_trim, spec_find, spec_find_char, spec_rfind, spec_split,
    position_from, lemma_find_bounds, lemma_rfind_bounds,
};
use crate::protocol::sqltext::{
    after, after_chars, unquote, unquote_value, unquote_chars, unquote_value_chars, char_views, range_of,
    range_chars,
};

verus! {

/// The model of a condition on a row.
pub enum FilterModel {
    /// The column at `col` compared with `value` by `op`.
    Simple { col: int, op: Seq<char>, value: Seq<char> },
    /// The column at `col` equal to one of `values`.
    In { col: int, values: Seq<Seq<char>> },
}

/// A condition on a row of stored values.
pub enum WhereFilter {
    Simple { col_idx: usize, operator: String, value: String },
    In { col_idx: usize, values: Vec<String> },
}

pub open spec fn string_views(v: Seq<String>) -> Seq<Seq<char>> {
    v.map_values(|s: String| s@)
}

impl View for WhereFilter {
    type V = FilterModel;

    open spec fn view(&self) -> FilterModel {
        match self {
            WhereFilter::Simple { col_idx, operator, value } => FilterModel::Simple {
                col: *col_idx as int,
                op: operator@,
                value: value@,
            },
            WhereFilter::In { col_idx, values } => FilterModel::In {
                col: *col_idx as int,
                values: string_views(values@),
            },
        }
    }
}

/// Whether `actual op value` holds, strings compared in lexicographic order.
pub open spec fn op_holds(op: Seq<char>, actual: Seq<char>, value: Seq<char>) -> bool {
    if op == "="@ {
        actual == value
    } else if op == "!="@ || op == "<>"@ {
        actual != value
    } else if op == ">"@ {
        lex_lt(value, actual)
    } else if op == "<"@ {
        lex_lt(actual, value)
    } else if op == ">="@ {
        !lex_lt(actual, value)
    } else if op == "<="@ {
        !lex_lt(value, actual)
    } else {
        false
    }
}

/// Whether a row's values satisfy a condition; a condition on a column the
/// row lacks fails.
pub open spec fn filter_holds(f: FilterModel, values: Seq<Seq<char>>) -> bool {
    match f {
        FilterModel::Simple { col, op, value } => 0 <= col < values.len() && op_holds(op, values[col], value),
        FilterModel::In { col, values: vs } => 0 <= col < values.len() && vs.contains(values[col]),
    }
}

/// Whether a row's values satisfy every condition.
pub open spec fn all_hold(fs: Seq<FilterModel>, values: Seq<Seq<char>>) -> bool {
    forall|i: int| 0 <= i < fs.len() ==> filter_holds(#[trigger] fs[i], values)
}

/// The comparison operators, in the order they are tried.
pub open spec fn operators() -> Seq<Seq<char>> {
    seq!["!="@, "<>"@, ">="@, "<="@, "="@, ">"@, "<"@]
}

/// The first operator from the `k`-th on that occurs in `cond` with a header
/// column on its left gives the condition.
pub open spec fn operator_filter(cond: Seq<char>, header: Seq<Seq<char>>, k: int) -> Option<FilterModel>
    decreases 7 - k,
{
    if k < 0 || k >= 7 {
        None
    } else {
        let op = operators()[k];
        match spec_find(cond, op) {
            Some(pos) => {
                let col = unquote(spec_trim(cond.take(pos)));
                let value = unquote_value(spec_trim(after(cond, pos + op.len())));
                match position_from(header, col, 0) {
                    Some(i) => Some(FilterModel::Simple { col: i, op, value }),
                    None => operator_filter(cond, header, k + 1),
                }
            },
            None => operator_filter(cond, header, k + 1),
        }
    }
}

/// The values listed in the parentheses of an `IN` condition.
pub open spec fn in_list(s: Seq<char>) -> Seq<Seq<char>> {
    spec_split(s, seq![',']).map_values(|v: Seq<char>| unquote_value(spec_trim(v)))
}

/// The condition that a trimmed part of a `WHERE` clause states. A part
/// whose upper-case text holds `IN` is read as `<column> IN (<values>)`
/// when its column is in the header; it states nothing when its
/// parentheses are missing or out of order. Otherwise the first operator
/// that fits decides.
pub open spec fn condition_filter(cond0: Seq<char>, header: Seq<Seq<char>>) -> Option<FilterModel> {
    let cond = spec_trim(cond0);
    match spec_find(spec_upper(cond), "IN"@) {
        Some(p) => {
            let col = unquote(spec_trim(cond.take(p)));
            let after_in = spec_trim(after(cond, p + 2));
            match spec_find_char(after_in, '(') {
                Some(ps) => match spec_rfind(after_in, seq![')']) {
                    Some(pe) => if ps + 1 <= pe {
                        match position_from(header, col, 0) {
                            Some(i) => Some(
                                FilterModel::In { col: i, values: in_list(after_in.subrange(ps + 1, pe)) },
                            ),
                            None => operator_filter(cond, header, 0),
                        }
                    } else {
                        None
                    },
                    None => None,
                },
                None => None,
            }
        },
        None => operator_filter(cond, header, 0),
    }
}

/// The text of a `WHERE` clause, up to `ORDER` or else `LIMIT`, trimmed.
pub open spec fn where_text(sql: Seq<char>) -> Option<Seq<char>> {
    match spec_find(spec_upper(sql), "WHERE"@) {
        Some(p) => {
            let rest = spec_trim(after(sql, p + 5));
            let ru = spec_upper(rest);
            let end = match spec_find(ru, "ORDER"@) {
                Some(e) => e,
                None => match spec_find(ru, "LIMIT"@) {
                    Some(e) => e,
                    None => rest.len() as int,
                },
            };
            Some(spec_trim(rest.take(end)))
        },
        None => None,
    }
}

/// The conditions of the parts of a `WHERE` clause that state one.
pub open spec fn part_filters(parts: Seq<Seq<char>>, header: Seq<Seq<char>>) -> Seq<FilterModel>
    decreases parts.len(),
{
    if parts.len() == 0 {
        Seq::empty()
    } else {
        let prev = part_filters(parts.drop_last(), header);
        let part = spec_trim(parts.last());
        if part.len() == 0 {
            prev
        } else {
            match condition_filter(part, header) {
                Some(f) => prev.push(f),
                None => prev,
            }
        }
    }
}

/// The conditions of a statement's `WHERE` clause, split at `AND`.
pub open spec fn where_filters(sql: Seq<char>, header: Seq<Seq<char>>) -> Seq<FilterModel> {
    match where_text(sql) {
        Some(w) => part_filters(spec_split(w, "AND"@), header),
        None => Seq::empty(),
    }
}

/// The column assignments of the parts of a `SET` clause whose column is
/// in the header.
pub open spec fn part_assignments(parts: Seq<Seq<char>>, header: Seq<Seq<char>>) -> Seq<(int, Seq<char>)>
    decreases parts.len(),
{
    if parts.len() == 0 {
        Seq::empty()
    } else {
        let prev = part_assignments(parts.drop_last(), header);
        let part = spec_trim(parts.last());
        match spec_find_char(part, '=') {
            Some(e) => {
                let col = unquote(spec_trim(part.take(e)));
                let value = unquote_value(spec_trim(after(part, e + 1)));
                match position_from(header, col, 0) {
                    Some(i) => prev.push((i, value)),
                    None => prev,
                }
            },
            None => prev,
        }
    }
}

/// The assignments of a statement's `SET` clause, which ends at `WHERE`,
/// else `ORDER`, else `LIMIT`.
pub open spec fn set_assignments(sql: Seq<char>, header: Seq<Seq<char>>) -> Seq<(int, Seq<char>)> {
    match spec_find(spec_upper(sql), "SET"@) {
        Some(p) => {
            let a = spec_trim(after(sql, p + 3));
            let end = match spec_find(a, "WHERE"@) {
                Some(e) => e,
                None => match spec_find(a, "ORDER"@) {
                    Some(e) => e,
                    None => match spec_find(a, "LIMIT"@) {
                        Some(e) => e,
                        None => a.len() as int,
                    },
                },
            };
            part_assignments(spec_split(spec_trim(a.take(end)), seq![',']), header)
        },
        None => Seq::empty(),
    }
}

/// The position of `x` in `header`.
pub fn header_position(header: &Vec<Vec<char>>, x: &[char]) -> (r: Option<usize>)
    ensures
        match r {
            Some(i) => position_from(char_views(header@), x@, 0) == Some(i as int),
            None => position_from(char_views(header@), x@, 0) is None,
        },
{
    let ghost h = char_views(header@);
    let mut i: usize = 0;
    while i < header.len()
        invariant
            i <= header.len(),
            h == char_views(header@),
            position_from(h, x@, 0) == position_from(h, x@, i as int),
        decreases header.len() - i,
    {
        assert(h[i as int] == header@[i as int]@);
        if chars_eq(&header[i], x) {
            return Some(i);
        }
        i += 1;
    }
    None
}

fn op_holds_exec(op: &[char], actual: &[char], value: &[char]) -> (r: bool)
    ensures
        r == op_holds(op@, actual@, value@),
{
    if chars_eq(op, &chars_of("=")) {
        chars_eq(actual, value)
    } else if chars_eq(op, &chars_of("!=")) || chars_eq(op, &chars_of("<>")) {
        !chars_eq(actual, value)
    } else if chars_eq(op, &chars_of(">")) {
        lex_less(value, actual)
    } else if chars_eq(op, &chars_of("<")) {
        lex_less(actual, value)
    } else if chars_eq(op, &chars_of(">=")) {
        !lex_less(actual, value)
    } else if chars_eq(op, &chars_of("<=")) {
        !lex_less(value, actual)
    } else {
        false
    }
}

impl WhereFilter {
    /// Whether a row's values satisfy the condition.
    pub fn matches(&self, _header: &Vec<Vec<char>>, values: &Vec<Vec<char>>) -> (r: bool)
        ensures
            r == filter_holds(self@, char_views(values@)),
    {
        match self {
            WhereFilter::Simple { col_idx, operator, value } => {
                if *col_idx >= values.len() {
                    return false;
                }
                let op = chars_of(operator.as_str());
                let v = chars_of(value.as_str());
                op_holds_exec(&op, &values[*col_idx], &v)
            },
            WhereFilter::In { col_idx, values: in_vals } => {
                if *col_idx >= values.len() {
                    return false;
                }
                let actual = &values[*col_idx];
                let ghost vs = string_views(in_vals@);
                assert(char_views(values@)[*col_idx as int] == actual@);
                let mut i: usize = 0;
                while i < in_vals.len()
                    invariant
                        i <= in_vals.len(),
                        vs == string_views(in_vals@),
                        forall|j: int| 0 <= j < i ==> vs[j] != actual@,
                        self@ == (FilterModel::In { col: *col_idx as int, values: vs }),
                        *col_idx < values.len(),
                        char_views(values@)[*col_idx as int] == actual@,
                    decreases in_vals.len() - i,
                {
                    let c = chars_of(in_vals[i].as_str());
                    if chars_eq(&c, actual) {
                        assert(vs[i as int] == actual@);
                        assert(vs.contains(actual@));
                        return true;
                    }
                    i += 1;
                }
                false
            },
        }
    }
}

/// Whether a row's values satisfy every condition.
pub fn all_match(filters: &Vec<WhereFilter>, header: &Vec<Vec<char>>, values: &Vec<Vec<char>>) -> (r: bool)
    ensures
        r == all_hold(filters@.map_values(|f: WhereFilter| f@), char_views(values@)),
{
    let ghost fs = filters@.map_values(|f: WhereFilter| f@);
    let mut i: usize = 0;
    while i < filters.len()
        invariant
            i <= filters.len(),
            fs == filters@.map_values(|f: WhereFilter| f@),
            forall|j: int| 0 <= j < i ==> filter_holds(#[trigger] fs[j], char_views(values@)),
        decreases filters.len() - i,
    {
        if !filters[i].matches(header, values) {
            assert(!filter_holds(fs[i as int], char_views(values@)));
            return false;
        }
        i += 1;
    }
    true
}

fn string_of_chars(cs: &[char]) -> (s: String)
    ensures
        s@ == cs@,
{
    crate::text::string_of(cs)
}

fn operator_filter_exec(cond: &[char], header: &Vec<Vec<char>>) -> (r: Option<WhereFilter>)
    ensures
        match r {
            Some(f) => operator_filter(cond@, char_views(header@), 0) == Some(f@),
            None => operator_filter(cond@, char_views(header@), 0) is None,
        },
{
    let ops: [&str; 7] = ["!=", "<>", ">=", "<=", "=", ">", "<"];
    let ghost h = char_views(header@);
    let mut k: usize = 0;
    while k < 7
        invariant
            k <= 7,
            ops@.map_values(|o: &str| o@) == operators(),
            h == char_views(header@),
            operator_filter(cond@, h, 0) == operator_filter(cond@, h, k as int),
        decreases 7 - k,
    {
        let op = chars_of(ops[k]);
        assert(op@ == operators()[k as int]);
        proof {
            lemma_find_bounds(cond@, op@);
        }
        match find_chars(cond, &op) {
            Some(pos) => {
                let left = slice_chars(cond, 0, pos);
                let lt = trim_chars(&left);
                let col = unquote_chars(&lt);
                let right = after_chars(cond, pos, op.len());
                let rt = trim_chars(&right);
                let value = unquote_value_chars(&rt);
                assert(left@ =~= cond@.take(pos as int));
                match header_position(header, &col) {
                    Some(i) => {
                        return Some(
                            WhereFilter::Simple {
                                col_idx: i,
                                operator: string_of_chars(&op),
                                value: string_of_chars(&value),
                            },
                        );
                    },
                    None => {},
                }
            },
            None => {},
        }
        k += 1;
    }
    None
}

/// The condition that a part of a `WHERE` clause states.
pub fn parse_condition(cond: &[char], header: &Vec<Vec<char>>) -> (r: Option<WhereFilter>)
    ensures
        match r {
            Some(f) => condition_filter(cond@, char_views(header@)) == Some(f@),
            None => condition_filter(cond@, char_views(header@)) is None,
        },
{
    let c = trim_chars(cond);
    let up = upper_chars(&c);
    let kin = chars_of("IN");
    proof {
        lemma_find_bounds(up@, kin@);
    }
    match find_chars(&up, &kin) {
        Some(p) => {
            let left = slice_chars(&c, 0, p);
            assert(left@ =~= c@.take(p as int));
            let lt = trim_chars(&left);
            let col = unquote_chars(&lt);
            let a = after_chars(&c, p, 2);
            let after_in = trim_chars(&a);
            let close = vec![')'];
            assert(close@ =~= seq![')']);
            proof {
                lemma_find_bounds(after_in@, seq!['(']);
                lemma_rfind_bounds(after_in@, seq![')']);
            }
            match find_char(&after_in, '(') {
                Some(ps) => match rfind_chars(&after_in, &close) {
                    Some(pe) => {
                        if ps < pe {
                            match header_position(header, &col) {
                                Some(i) => {
                                    let inner = slice_chars(&after_in, ps + 1, pe);
                                    let comma = vec![','];
                                    assert(comma@ =~= seq![',']);
                                    let parts = split_chars(&inner, &comma);
                                    let mut vals: Vec<String> = Vec::new();
                                    let mut j: usize = 0;
                                    while j < parts.len()
                                        invariant
                                            j <= parts.len(),
                                            string_views(vals@) == char_views(parts@).take(j as int).map_values(
                                                |v: Seq<char>| unquote_value(spec_trim(v)),
                                            ),
                                        decreases parts.len() - j,
                                    {
                                        let t = trim_chars(&parts[j]);
                                        let u = unquote_value_chars(&t);
                                        let ghost before = string_views(vals@);
                                        let s = string_of_chars(&u);
                                        vals.push(s);
                                        assert(string_views(vals@) =~= before.push(u@));
                                        assert(char_views(parts@).take(j + 1) =~= char_views(parts@).take(
                                            j as int,
                                        ).push(parts@[j as int]@));
                                        j += 1;
                                    }
                                    assert(char_views(parts@).take(parts.len() as int) =~= char_views(parts@));
                                    Some(WhereFilter::In { col_idx: i, values: vals })
                                },
                                None => operator_filter_exec(&c, header),
                            }
                        } else {
                            None
                        }
                    },
                    None => None,
                },
                None => None,
            }
        },
        None => operator_filter_exec(&c, header),
    }
}

/// The position of the first of `kws` that occurs in `s`, else the length.
fn clause_end(s: &[char], first: &str, second: &str) -> (r: usize)
    ensures
        r == (match spec_find(s@, first@) {
            Some(e) => e,
            None => match spec_find(s@, second@) {
                Some(e) => e,
                None => s@.len() as int,
            },
        }),
        r <= s@.len(),
{
    let a = chars_of(first);
    let b = chars_of(second);
    proof {
        lemma_find_bounds(s@, a@);
        lemma_find_bounds(s@, b@);
    }
    match find_chars(s, &a) {
        Some(e) => e,
        None => match find_chars(s, &b) {
            Some(e) => e,
            None => s.len(),
        },
    }
}

/// The conditions of a statement's `WHERE` clause.
pub fn parse_where_clause(sql: &[char], header: &Vec<Vec<char>>) -> (r: Vec<WhereFilter>)
    ensures
        r@.map_values(|f: WhereFilter| f@) == where_filters(sql@, char_views(header@)),
{
    let mut filters: Vec<WhereFilter> = Vec::new();
    let up = upper_chars(sql);
    let kw = chars_of("WHERE");
    proof {
        lemma_find_bounds(up@, kw@);
    }
    match find_chars(&up, &kw) {
        Some(p) => {
            let a = after_chars(sql, p, 5);
            let rest = trim_chars(&a);
            let ru = upper_chars(&rest);
            let end = clause_end(&ru, "ORDER", "LIMIT");
            let w0 = slice_chars(&rest, 0, end);
            assert(w0@ =~= rest@.take(end as int));
            let w = trim_chars(&w0);
            let and = chars_of("AND");
            proof {
                reveal_strlit("AND");
                assert(and@.len() == 3);
            }
            let parts = split_chars(&w, &and);
            let ghost pv = char_views(parts@);
            let ghost h = char_views(header@);
            let mut i: usize = 0;
            assert(filters@.map_values(|f: WhereFilter| f@) =~= part_filters(pv.take(0), h));
            while i < parts.len()
                invariant
                    i <= parts.len(),
                    pv == char_views(parts@),
                    h == char_views(header@),
                    filters@.map_values(|f: WhereFilter| f@) == part_filters(pv.take(i as int), h),
                decreases parts.len() - i,
            {
                assert(pv.take(i + 1).drop_last() =~= pv.take(i as int));
                assert(pv.take(i + 1).last() == parts@[i as int]@);
                let part = trim_chars(&parts[i]);
                if part.len() > 0 {
                    match parse_condition(&part, header) {
                        Some(f) => {
                            let ghost before = filters@.map_values(|f: WhereFilter| f@);
                            filters.push(f);
                            assert(filters@.map_values(|f: WhereFilter| f@) =~= before.push(f@));
                        },
                        None => {},
                    }
                }
                i += 1;
            }
            assert(pv.take(parts.len() as int) =~= pv);
        },
        None => {
            assert(filters@.map_values(|f: WhereFilter| f@) =~= Seq::<FilterModel>::empty());
        },
    }
    filters
}

/// The assignments of a statement's `SET` clause.
pub fn parse_set_clause(sql: &[char], header: &Vec<Vec<char>>) -> (r: Vec<(usize, String)>)
    ensures
        r@.map_values(|p: (usize, String)| (p.0 as int, p.1@)) == set_assignments(sql@, char_views(header@)),
{
    let mut pairs: Vec<(usize, String)> = Vec::new();
    let up = upper_chars(sql);
    let kw = chars_of("SET");
    proof {
        lemma_find_bounds(up@, kw@);
    }
    match find_chars(&up, &kw) {
        Some(p) => {
            let a0 = after_chars(sql, p, 3);
            let a = trim_chars(&a0);
            let wh = chars_of("WHERE");
            proof {
                lemma_find_bounds(a@, wh@);
            }
            let end = match find_chars(&a, &wh) {
                Some(e) => e,
                None => clause_end(&a, "ORDER", "LIMIT"),
            };
            let s0 = slice_chars(&a, 0, end);
            assert(s0@ =~= a@.take(end as int));
            let part_text = trim_chars(&s0);
            let comma = vec![','];
            assert(comma@ =~= seq![',']);
            let parts = split_chars(&part_text, &comma);
            let ghost pv = char_views(parts@);
            let ghost h = char_views(header@);
            let mut i: usize = 0;
            assert(pairs@.map_values(|p: (usize, String)| (p.0 as int, p.1@)) =~= part_assignments(pv.take(0), h));
            while i < parts.len()
                invariant
                    i <= parts.len(),
                    pv == char_views(parts@),
                    h == char_views(header@),
                    pairs@.map_values(|p: (usize, String)| (p.0 as int, p.1@)) == part_assignments(pv.take(i as int), h),
                decreases parts.len() - i,
            {
                assert(pv.take(i + 1).drop_last() =~= pv.take(i as int));
                assert(pv.take(i + 1).last() == parts@[i as int]@);
                let part = trim_chars(&parts[i]);
                proof {
                    lemma_find_bounds(part@, seq!['=']);
                }
                match find_char(&part, '=') {
                    Some(e) => {
                        let left = slice_chars(&part, 0, e);
                        assert(left@ =~= part@.take(e as int));
                        let lt = trim_chars(&left);
                        let col = unquote_chars(&lt);
                        let right = after_chars(&part, e, 1);
                        let rt = trim_chars(&right);
                        let value = unquote_value_chars(&rt);
                        match header_position(header, &col) {
                            Some(idx) => {
                                let ghost before = pairs@.map_values(|p: (usize, String)| (p.0 as int, p.1@));
                                let v = string_of_chars(&value);
                                pairs.push((idx, v));
                                assert(pairs@.map_values(|p: (usize, String)| (p.0 as int, p.1@)) =~= before.push(
                                    (idx as int, value@),
                                ));
                            },
                            None => {},
                        }
                    },
                    None => {},
                }
                i += 1;
            }
            assert(pv.take(parts.len() as int) =~= pv);
        },
        None => {
            assert(pairs@.map_values(|p: (usize, String)| (p.0 as int, p.1@)) =~= Seq::<(int, Seq<char>)>::empty());
        },
    }
    pairs
}

/// Of two texts, exactly one sorts before the other, or they are equal.
pub proof fn lemma_lex_trichotomy(a: Seq<char>, b: Seq<char>)
    ensures
        lex_lt(a, b) || a == b || lex_lt(b, a),
        !(lex_lt(a, b) && a == b),
        !(lex_lt(b, a) && a == b),
        !(lex_lt(a, b) && lex_lt(b, a)),
    decreases a.len(),
{
    if a.len() == 0 && b.len() == 0 {
        assert(a =~= b);
    } else if a.len() > 0 && b.len() > 0 {
        if a[0] == b[0] {
            lemma_lex_trichotomy(a.drop_first(), b.drop_first());
            if a.drop_first() == b.drop_first() {
                assert(a =~= seq![a[0]] + a.drop_first());
                assert(b =~= seq![b[0]] + b.drop_first());
            }
            if a == b {
                assert(a.drop_first() =~= b.drop_first());
            }
        }
    }
}

/// How the comparison operators of a condition relate, for every stored
/// text `a` and literal `b`: `>=` holds exactly when `>` or `=` does, `<=`
/// exactly when `<` or `=` does, `!=` and `<>` exactly when `=` does not;
/// of `<`, `=` and `>` exactly one holds; and `a > b` exactly when `b < a`.
pub proof fn law_comparisons(a: Seq<char>, b: Seq<char>)
    ensures
        op_holds(">="@, a, b) == (op_holds(">"@, a, b) || op_holds("="@, a, b)),
        op_holds("<="@, a, b) == (op_holds("<"@, a, b) || op_holds("="@, a, b)),
        op_holds("!="@, a, b) == !op_holds("="@, a, b),
        op_holds("<>"@, a, b) == !op_holds("="@, a, b),
        op_holds("="@, a, b) == (a == b),
        op_holds("<"@, a, b) || op_holds("="@, a, b) || op_holds(">"@, a, b),
        !(op_holds("<"@, a, b) && op_holds("="@, a, b)),
        !(op_holds(">"@, a, b) && op_holds("="@, a, b)),
        !(op_holds("<"@, a, b) && op_holds(">"@, a, b)),
        op_holds(">"@, a, b) == op_holds("<"@, b, a),
{
    reveal_strlit("=");
    reveal_strlit("!=");
    reveal_strlit("<>");
    reveal_strlit(">");
    reveal_strlit("<");
    reveal_strlit(">=");
    reveal_strlit("<=");
    assert("="@ != "!="@) by {
        assert("="@.len() != "!="@.len());
    }
    assert("="@ != "<>"@) by {
        assert("="@.len() != "<>"@.len());
    }
    assert("="@ != ">"@) by {
        assert("="@[0] != ">"@[0]);
    }
    assert("="@ != "<"@) by {
        assert("="@[0] != "<"@[0]);
    }
    assert("="@ != ">="@) by {
        assert("="@.len() != ">="@.len());
    }
    assert("="@ != "<="@) by {
        assert("="@.len() != "<="@.len());
    }
    assert("!="@ != "<>"@) by {
        assert("!="@[0] != "<>"@[0]);
    }
    assert("!="@ != ">"@) by {
        assert("!="@.len() != ">"@.len());
    }
    assert("!="@ != "<"@) by {
        assert("!="@.len() != "<"@.len());
    }
    assert("!="@ != ">="@) by {
        assert("!="@[0] != ">="@[0]);
    }
    assert("!="@ != "<="@) by {
        assert("!="@[0] != "<="@[0]);
    }
    assert("<>"@ != ">"@) by {
        assert("<>"@.len() != ">"@.len());
    }
    assert("<>"@ != "<"@) by {
        assert("<>"@.len() != "<"@.len());
    }
    assert("<>"@ != ">="@) by {
        assert("<>"@[0] != ">="@[0]);
    }
    assert("<>"@ != "<="@) by {
        assert("<>"@[1] != "<="@[1]);
    }
    assert(">"@ != "<"@) by {
        assert(">"@[0] != "<"@[0]);
    }
    assert(">"@ != ">="@) by {
        assert(">"@.len() != ">="@.len());
    }
    assert(">"@ != "<="@) by {
        assert(">"@.len() != "<="@.len());
    }
    assert("<"@ != ">="@) by {
        assert("<"@.len() != ">="@.len());
    }
    assert("<"@ != "<="@) by {
        assert("<"@.len() != "<="@.len());
    }
    assert(">="@ != "<="@) by {
        assert(">="@[0] != "<="@[0]);
    }
    lemma_lex_trichotomy(a, b);
}

} // verus!
