//! What a stored table gives back of what was stored in it.
use vstd::prelude::*;
use crate::text::{
    spec_split, spec_find, find_from, occurs_at, spec_join, spec_decimal, digit_char, starts_with,
    lemma_find_bounds,
};
use crate::protocol::sqltext::{spec_lines, strip_cr, lemma_split_nonempty};
use crate::protocol::filter::where_filters;
use crate::protocol::table::{
    unit_sep, fields, read_rows_of, stored_row, row_columns, row_values, fill_ids, selected_rows, pick_row,
    column_indices,
};

verus! {

/// No character of `s` is `c`.
pub open spec fn lacks(s: Seq<char>, c: char) -> bool {
    forall|i: int| 0 <= i < s.len() ==> s[i] != c
}

/// A text that a stored line can hold whole: no line break, carriage return
/// or field separator.
pub open spec fn is_clean(s: Seq<char>) -> bool {
    lacks(s, '\n') && lacks(s, '\r') && lacks(s, '\u{1f}')
}

proof fn lemma_find_first(s: Seq<char>, c: char, from: int, k: int)
    requires
        0 <= from <= k < s.len(),
        s[k] == c,
        forall|j: int| from <= j < k ==> s[j] != c,
    ensures
        find_from(s, seq![c], from) == Some(k),
    decreases k - from,
{
    assert(s.subrange(from, from + 1) =~= seq![s[from]]);
    if from < k {
        assert(!occurs_at(s, seq![c], from)) by {
            assert(s.subrange(from, from + 1)[0] == s[from]);
        }
        lemma_find_first(s, c, from + 1, k);
    } else {
        assert(occurs_at(s, seq![c], from));
    }
}

proof fn lemma_find_none(s: Seq<char>, c: char, from: int)
    requires
        0 <= from,
        forall|j: int| from <= j < s.len() ==> s[j] != c,
    ensures
        find_from(s, seq![c], from) is None,
    decreases s.len() + 1 - from,
{
    if from + 1 <= s.len() {
        assert(!occurs_at(s, seq![c], from)) by {
            assert(s.subrange(from, from + 1)[0] == s[from]);
        }
        lemma_find_none(s, c, from + 1);
    }
}

proof fn lemma_find_some(x: Seq<char>, c: char, from: int, k: int)
    requires
        0 <= from <= k < x.len(),
        x[k] == c,
    ensures
        find_from(x, seq![c], from) is Some,
    decreases k - from,
{
    if from < k {
        lemma_find_some(x, c, from + 1, k);
    } else {
        assert(x.subrange(from, from + 1) =~= seq![x[from]]);
        assert(occurs_at(x, seq![c], from));
    }
}

proof fn lemma_find_prefix(x: Seq<char>, z: Seq<char>, c: char, from: int)
    requires
        0 <= from,
        find_from(x, seq![c], from) is Some,
    ensures
        find_from(x + z, seq![c], from) == find_from(x, seq![c], from),
    decreases x.len() + 1 - from,
{
    if from + 1 <= x.len() {
        assert((x + z).subrange(from, from + 1) =~= x.subrange(from, from + 1));
        if !occurs_at(x, seq![c], from) {
            lemma_find_prefix(x, z, c, from + 1);
        }
    }
}

/// Splitting at `c` around an occurrence of `c` splits each side.
pub proof fn lemma_split_around(x: Seq<char>, c: char, y: Seq<char>)
    ensures
        spec_split(x + seq![c] + y, seq![c]) == spec_split(x, seq![c]) + spec_split(y, seq![c]),
    decreases x.len(),
{
    let s = x + seq![c] + y;
    assert(s =~= x + (seq![c] + y));
    if exists|k: int| 0 <= k < x.len() && x[k] == c {
        let k = choose|k: int| 0 <= k < x.len() && x[k] == c;
        lemma_find_some(x, c, 0, k);
        lemma_find_bounds(x, seq![c]);
        let i = spec_find(x, seq![c]).unwrap();
        lemma_find_prefix(x, seq![c] + y, c, 0);
        assert(spec_find(s, seq![c]) == Some(i));
        let xr = x.skip(i + 1);
        assert(s.take(i) =~= x.take(i));
        assert(s.skip(i + 1) =~= xr + seq![c] + y);
        lemma_split_around(xr, c, y);
        assert(spec_split(x, seq![c]) == seq![x.take(i)] + spec_split(xr, seq![c]));
        assert(spec_split(s, seq![c]) == seq![s.take(i)] + spec_split(s.skip(i + 1), seq![c]));
        assert(spec_split(s, seq![c]) =~= spec_split(x, seq![c]) + spec_split(y, seq![c]));
    } else {
        assert(s[x.len() as int] == c);
        assert forall|j: int| 0 <= j < x.len() implies s[j] != c by {
            assert(s[j] == x[j]);
        }
        lemma_find_first(s, c, 0, x.len() as int);
        lemma_find_none(x, c, 0);
        assert(s.take(x.len() as int) =~= x);
        assert(s.skip(x.len() as int + 1) =~= y);
        assert(spec_split(x, seq![c]) == seq![x]);
        assert(spec_split(s, seq![c]) =~= spec_split(x, seq![c]) + spec_split(y, seq![c]));
    }
}

proof fn lemma_split_clean(x: Seq<char>, c: char)
    requires
        lacks(x, c),
    ensures
        spec_split(x, seq![c]) == seq![x],
{
    lemma_find_none(x, c, 0);
}

/// Splitting a joined text at its separator gives the parts back.
pub proof fn lemma_split_join(parts: Seq<Seq<char>>, c: char)
    requires
        parts.len() >= 1,
        forall|i: int| 0 <= i < parts.len() ==> lacks(#[trigger] parts[i], c),
    ensures
        spec_split(spec_join(parts, seq![c]), seq![c]) == parts,
    decreases parts.len(),
{
    if parts.len() == 1 {
        lemma_split_clean(parts[0], c);
        assert(seq![parts[0]] =~= parts);
    } else {
        let prev = parts.drop_last();
        assert forall|i: int| 0 <= i < prev.len() implies lacks(#[trigger] prev[i], c) by {
            assert(prev[i] == parts[i]);
        }
        lemma_split_join(prev, c);
        assert(lacks(parts[parts.len() - 1], c));
        lemma_split_clean(parts.last(), c);
        lemma_split_around(spec_join(prev, seq![c]), c, parts.last());
        assert(spec_join(parts, seq![c]) == spec_join(prev, seq![c]) + seq![c] + parts.last());
        assert(prev + seq![parts.last()] =~= parts);
    }
}

proof fn lemma_join_lacks(parts: Seq<Seq<char>>, c: char, d: char)
    requires
        c != d,
        forall|i: int| 0 <= i < parts.len() ==> lacks(#[trigger] parts[i], d),
    ensures
        lacks(spec_join(parts, seq![c]), d),
    decreases parts.len(),
{
    if parts.len() > 1 {
        let prev = parts.drop_last();
        assert forall|i: int| 0 <= i < prev.len() implies lacks(#[trigger] prev[i], d) by {
            assert(prev[i] == parts[i]);
        }
        lemma_join_lacks(prev, c, d);
        assert(lacks(parts[parts.len() - 1], d));
        let j = spec_join(parts, seq![c]);
        let a = spec_join(prev, seq![c]);
        assert(j == a + seq![c] + parts.last());
        assert forall|i: int| 0 <= i < j.len() implies j[i] != d by {
            if i < a.len() {
                assert(j[i] == a[i]);
            } else if i == a.len() {
                assert(j[i] == c);
            } else {
                assert(j[i] == parts.last()[i - a.len() - 1]);
            }
        }
    } else if parts.len() == 1 {
        assert(lacks(parts[0], d));
    }
}

proof fn lemma_decimal_clean(n: nat)
    ensures
        forall|i: int| 0 <= i < spec_decimal(n).len() ==> '0' <= #[trigger] spec_decimal(n)[i] <= '9',
    decreases n,
{
    if n >= 10 {
        lemma_decimal_clean(n / 10);
        let d = spec_decimal(n);
        let p = spec_decimal(n / 10);
        assert forall|i: int| 0 <= i < d.len() implies '0' <= #[trigger] d[i] <= '9' by {
            if i < p.len() {
                assert(d[i] == p[i]);
            }
        }
    }
}

/// Appending a line that holds no line break adds it as the last line.
pub proof fn lemma_lines_append(content: Seq<char>, r: Seq<char>)
    requires
        content.len() > 0,
        content.last() == '\n',
        lacks(r, '\n'),
        lacks(r, '\r'),
    ensures
        spec_lines(content + r + seq!['\n']) == spec_lines(content).push(r),
{
    let nl = seq!['\n'];
    let a0 = content.drop_last();
    let e = Seq::<char>::empty();
    assert(content =~= a0 + nl + e);
    let new = content + r + nl;
    assert(new =~= a0 + nl + (r + nl + e));
    lemma_split_around(a0, '\n', r + nl + e);
    lemma_split_around(r, '\n', e);
    lemma_split_clean(r, '\n');
    lemma_split_around(a0, '\n', e);
    lemma_split_clean(e, '\n');
    let sa = spec_split(a0, nl);
    assert(spec_split(content, nl) == sa + seq![e]);
    assert(spec_split(new, nl) == sa + (seq![r] + seq![e]));
    assert(new.last() == '\n');
    assert((sa + (seq![r] + seq![e])).drop_last() =~= sa.push(r));
    assert((sa + seq![e]).drop_last() =~= sa);
    if r.len() > 0 {
        assert(r.last() != '\r');
    }
    assert(strip_cr(r) == r);
    assert(sa.push(r).map_values(|l: Seq<char>| strip_cr(l)) =~= sa.map_values(|l: Seq<char>| strip_cr(l)).push(
        strip_cr(r),
    ));
}

/// The first line of a text that starts with a clean line.
proof fn lemma_first_line(h: Seq<char>, rest: Seq<char>)
    requires
        lacks(h, '\n'),
        lacks(h, '\r'),
        rest.len() == 0 || rest.last() == '\n',
    ensures
        spec_lines(h + seq!['\n'] + rest).len() >= 1,
        spec_lines(h + seq!['\n'] + rest)[0] == h,
{
    let c = h + seq!['\n'] + rest;
    lemma_split_around(h, '\n', rest);
    lemma_split_clean(h, '\n');
    lemma_split_nonempty(rest, seq!['\n']);
    let p = spec_split(c, seq!['\n']);
    assert(p == seq![h] + spec_split(rest, seq!['\n']));
    assert(p.len() >= 2);
    assert(c.last() == '\n');
    assert(p.drop_last()[0] == h);
    if h.len() > 0 {
        assert(h.last() != '\r');
    }
}

/// The table text, the row and the reading statement for which a stored row
/// reads back: the text starts with the row's header line and ends with a
/// line break, the row has two columns or more and a value for each, no
/// column name or value holds a line break, a carriage return or the field
/// separator, and the statement sets no conditions on the columns.
pub open spec fn store_read_ok(content: Seq<char>, columns: Seq<Seq<char>>, values: Seq<Seq<char>>, sql: Seq<char>) -> bool {
    &&& row_columns(columns).len() >= 2
    &&& row_values(content, columns, values).len() == row_columns(columns).len()
    &&& forall|i: int| 0 <= i < columns.len() ==> is_clean(#[trigger] columns[i])
    &&& forall|i: int| 0 <= i < values.len() ==> is_clean(#[trigger] values[i])
    &&& starts_with(content, spec_join(row_columns(columns), unit_sep()) + seq!['\n'])
    &&& content.last() == '\n'
    &&& where_filters(sql, row_columns(columns)).len() == 0
}

/// What a table gives back of a stored row: reading every column of a
/// table, without conditions, after storing a row gives the rows read
/// before and then the stored row, its ids of `0` filled in. This holds of
/// a table whose text starts with the row's header line and ends with a
/// line break, when the row has two columns or more, each column has a
/// value, and no column name or value holds a line break, a carriage return
/// or the field separator.
pub proof fn lemma_store_then_read(
    content: Seq<char>,
    columns: Seq<Seq<char>>,
    values: Seq<Seq<char>>,
    sql: Seq<char>,
)
    requires
        store_read_ok(content, columns, values, sql),
    ensures
        read_rows_of(stored_row(content, columns, values), seq!["*"@], sql) == read_rows_of(
            content,
            seq!["*"@],
            sql,
        ).push(fill_ids(row_columns(columns), row_values(content, columns, values), spec_lines(content).len())),
{
    let sep = unit_sep();
    let fc = row_columns(columns);
    let fv = row_values(content, columns, values);
    let h = spec_join(fc, sep);
    reveal_strlit("id");
    assert("id"@ =~= seq!['i', 'd']);
    assert forall|i: int| 0 <= i < fc.len() implies is_clean(#[trigger] fc[i]) by {
        if fc != columns {
            if i > 0 {
                assert(fc[i] == columns[i - 1]);
            }
        }
    }
    lemma_join_lacks(fc, '\u{1f}', '\n');
    lemma_join_lacks(fc, '\u{1f}', '\r');
    lemma_split_join(fc, '\u{1f}');
    // the text is the header line and the rest
    let rest = content.skip(h.len() as int + 1);
    assert(content.subrange(0, h.len() as int + 1) == h + seq!['\n']);
    assert(content =~= h + seq!['\n'] + rest);
    if rest.len() > 0 {
        assert(rest.last() == content.last());
    }
    lemma_first_line(h, rest);
    assert(starts_with(content, h)) by {
        assert(content.subrange(0, h.len() as int) =~= h);
    }
    // the stored line
    let n = spec_lines(content).len();
    let filled = fill_ids(fc, fv, n);
    lemma_decimal_clean(n);
    lemma_decimal_clean(if content.len() == 0 { 0 } else { spec_lines(content).len() });
    assert forall|i: int| 0 <= i < filled.len() implies is_clean(#[trigger] filled[i]) by {
        if i < fc.len() && crate::protocol::table::is_id_column(fc[i]) && fv[i] == "0"@ {
            assert(filled[i] == spec_decimal(n));
        } else {
            assert(filled[i] == fv[i]);
            if fv != values {
                if i > 0 {
                    assert(fv[i] == values[i - 1]);
                }
            }
        }
    }
    let r = spec_join(filled, sep);
    lemma_join_lacks(filled, '\u{1f}', '\n');
    lemma_join_lacks(filled, '\u{1f}', '\r');
    lemma_split_join(filled, '\u{1f}');
    assert(r.len() >= 1) by {
        assert(r == spec_join(filled.drop_last(), sep) + sep + filled.last());
    }
    let new = stored_row(content, columns, values);
    assert(new == content + r + seq!['\n']);
    lemma_lines_append(content, r);
    let ls = spec_lines(content);
    let ls2 = spec_lines(new);
    assert(ls2 == ls.push(r));
    assert(ls2[0] == h);
    let header = fields(h);
    assert(header == fc);
    let idx = column_indices(header, seq!["*"@]);
    assert(idx == Seq::new(fc.len(), |i: int| i));
    let fs = where_filters(sql, header);
    assert(ls2.skip(1) =~= ls.skip(1).push(r));
    assert(fields(r) == filled);
    assert(pick_row(filled, idx) =~= filled);
    assert(selected_rows(ls.skip(1).push(r), idx, fs) == selected_rows(ls.skip(1), idx, fs).push(filled)) by {
        assert(ls.skip(1).push(r).drop_last() =~= ls.skip(1));
        assert(crate::protocol::filter::all_hold(fs, fields(r)));
    }
}

} // verus!
