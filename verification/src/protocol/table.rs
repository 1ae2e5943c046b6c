//! The text of a stored table: a header line naming the columns, then one
//! line per row; the fields of a line are separated by the unit separator
//! `\u{1f}`.
use vstd::prelude::*;
use crate::text::{
    chars_of, slice_chars, trim_chars, split_chars, chars_eq, push_chars, spec_trim, spec_split, spec_decimal,
    spec_join, starts_with, starts_with_chars, lowercase_of, to_lowercase, string_of, u64_text,
};
use crate::protocol::sqltext::{spec_lines, lines_of, char_views, lemma_split_nonempty};
use crate::protocol::filter::{
    FilterModel, WhereFilter, all_hold, all_match, where_filters, parse_where_clause, set_assignments,
    parse_set_clause,
};

verus! {

/// The field separator of stored lines.
pub open spec fn unit_sep() -> Seq<char> {
    seq!['\u{1f}']
}

/// The fields of a stored line.
pub open spec fn fields(line: Seq<char>) -> Seq<Seq<char>> {
    spec_split(line, unit_sep())
}

/// The number of rows: the lines after the header.
pub open spec fn row_count(content: Seq<char>) -> nat {
    let n = spec_lines(content).len();
    if n > 0 {
        (n - 1) as nat
    } else {
        0
    }
}

/// The first position at or after `from` of a header field equal to `c`
/// once both are trimmed.
pub open spec fn trimmed_position(header: Seq<Seq<char>>, c: Seq<char>, from: int) -> Option<int>
    decreases header.len() - from,
{
    if from < 0 || from >= header.len() {
        None
    } else if spec_trim(header[from]) == spec_trim(c) {
        Some(from)
    } else {
        trimmed_position(header, c, from + 1)
    }
}

/// The header positions of the named columns; names not in the header are
/// left out.
pub open spec fn named_indices(header: Seq<Seq<char>>, columns: Seq<Seq<char>>) -> Seq<int>
    decreases columns.len(),
{
    if columns.len() == 0 {
        Seq::empty()
    } else {
        let prev = named_indices(header, columns.drop_last());
        match trimmed_position(header, columns.last(), 0) {
            Some(i) => prev.push(i),
            None => prev,
        }
    }
}

/// The positions a selection reads: all of them for `*`.
pub open spec fn column_indices(header: Seq<Seq<char>>, columns: Seq<Seq<char>>) -> Seq<int> {
    if columns == seq!["*"@] {
        Seq::new(header.len(), |i: int| i)
    } else {
        named_indices(header, columns)
    }
}

/// The values at `indices`, `NULL` where the line is short.
pub open spec fn pick_row(values: Seq<Seq<char>>, indices: Seq<int>) -> Seq<Seq<char>> {
    indices.map_values(|i: int| if 0 <= i < values.len() { values[i] } else { "NULL"@ })
}

/// The rows that the non-empty lines satisfying every condition give.
pub open spec fn selected_rows(data: Seq<Seq<char>>, indices: Seq<int>, filters: Seq<FilterModel>) -> Seq<
    Seq<Seq<char>>,
>
    decreases data.len(),
{
    if data.len() == 0 {
        Seq::empty()
    } else {
        let prev = selected_rows(data.drop_last(), indices, filters);
        let line = data.last();
        if line.len() == 0 || !all_hold(filters, fields(line)) {
            prev
        } else {
            let row = pick_row(fields(line), indices);
            if row.len() > 0 {
                prev.push(row)
            } else {
                prev
            }
        }
    }
}

/// The rows of a table that a `SELECT` of `columns` reads.
pub open spec fn read_rows_of(content: Seq<char>, columns: Seq<Seq<char>>, sql: Seq<char>) -> Seq<
    Seq<Seq<char>>,
> {
    let ls = spec_lines(content);
    if ls.len() == 0 {
        Seq::empty()
    } else {
        let header = fields(ls[0]);
        selected_rows(ls.skip(1), column_indices(header, columns), where_filters(sql, header))
    }
}

/// The number of non-empty lines satisfying every condition.
pub open spec fn match_count(data: Seq<Seq<char>>, filters: Seq<FilterModel>) -> nat
    decreases data.len(),
{
    if data.len() == 0 {
        0
    } else {
        let prev = match_count(data.drop_last(), filters);
        let line = data.last();
        if line.len() > 0 && all_hold(filters, fields(line)) {
            prev + 1
        } else {
            prev
        }
    }
}

/// The lines left after deleting those satisfying every condition, each
/// ended by `\n`; empty lines are dropped.
pub open spec fn delete_body(data: Seq<Seq<char>>, filters: Seq<FilterModel>) -> Seq<char>
    decreases data.len(),
{
    if data.len() == 0 {
        Seq::empty()
    } else {
        let prev = delete_body(data.drop_last(), filters);
        let line = data.last();
        if line.len() == 0 || all_hold(filters, fields(line)) {
            prev
        } else {
            prev + line + seq!['\n']
        }
    }
}

/// The values with each assignment applied in turn; an assignment to a
/// position the row lacks is skipped.
pub open spec fn apply_assignments(values: Seq<Seq<char>>, pairs: Seq<(int, Seq<char>)>) -> Seq<Seq<char>>
    decreases pairs.len(),
{
    if pairs.len() == 0 {
        values
    } else {
        let v = apply_assignments(values, pairs.drop_last());
        let (i, x) = pairs.last();
        if 0 <= i < v.len() {
            v.update(i, x)
        } else {
            v
        }
    }
}

/// The lines after updating those satisfying every condition, each ended by
/// `\n`; empty lines are dropped.
pub open spec fn update_body(data: Seq<Seq<char>>, filters: Seq<FilterModel>, pairs: Seq<(int, Seq<char>)>) -> Seq<
    char,
>
    decreases data.len(),
{
    if data.len() == 0 {
        Seq::empty()
    } else {
        let prev = update_body(data.drop_last(), filters, pairs);
        let line = data.last();
        if line.len() == 0 {
            prev
        } else if all_hold(filters, fields(line)) {
            prev + spec_join(apply_assignments(fields(line), pairs), unit_sep()) + seq!['\n']
        } else {
            prev + line + seq!['\n']
        }
    }
}

/// The text of a table after a `DELETE`, and the number of rows deleted.
pub open spec fn after_delete(content: Seq<char>, sql: Seq<char>) -> (Seq<char>, nat) {
    let ls = spec_lines(content);
    let filters = where_filters(sql, fields(ls[0]));
    (ls[0] + seq!['\n'] + delete_body(ls.skip(1), filters), match_count(ls.skip(1), filters))
}

/// The text of a table after an `UPDATE`, and the number of rows updated.
pub open spec fn after_update(content: Seq<char>, sql: Seq<char>) -> (Seq<char>, nat) {
    let ls = spec_lines(content);
    let header = fields(ls[0]);
    let filters = where_filters(sql, header);
    (
        ls[0] + seq!['\n'] + update_body(ls.skip(1), filters, set_assignments(sql, header)),
        match_count(ls.skip(1), filters),
    )
}

/// Whether a column is the row id: `id` in any case.
pub open spec fn is_id_column(c: Seq<char>) -> bool {
    lowercase_of(c) == "id"@
}

pub open spec fn has_id_column(cols: Seq<Seq<char>>) -> bool {
    exists|i: int| 0 <= i < cols.len() && is_id_column(cols[i])
}

/// The columns a stored row has: an id column first when none is named.
pub open spec fn row_columns(columns: Seq<Seq<char>>) -> Seq<Seq<char>> {
    if has_id_column(columns) {
        columns
    } else {
        seq!["id"@] + columns
    }
}

/// The values a stored row has: without an id column, the number of lines
/// already stored comes first.
pub open spec fn row_values(content: Seq<char>, columns: Seq<Seq<char>>, values: Seq<Seq<char>>) -> Seq<
    Seq<char>,
> {
    if has_id_column(columns) {
        values
    } else {
        seq![spec_decimal(if content.len() == 0 { 0 } else { spec_lines(content).len() })] + values
    }
}

/// The values with every id of `0` replaced by `n`.
pub open spec fn fill_ids(fc: Seq<Seq<char>>, fv: Seq<Seq<char>>, n: nat) -> Seq<Seq<char>> {
    Seq::new(fv.len(), |i: int| if i < fc.len() && is_id_column(fc[i]) && fv[i] == "0"@ { spec_decimal(n) } else { fv[i] })
}

/// The text of a table after storing a row. When the text does not start
/// with the row's header it is replaced by that header. An id of `0`
/// becomes the number of lines before the row.
pub open spec fn stored_row(content: Seq<char>, columns: Seq<Seq<char>>, values: Seq<Seq<char>>) -> Seq<char> {
    let fc = row_columns(columns);
    let fv = row_values(content, columns, values);
    let header = spec_join(fc, unit_sep());
    let base = if starts_with(content, header) {
        content
    } else {
        header + seq!['\n']
    };
    base + spec_join(fill_ids(fc, fv, spec_lines(base).len()), unit_sep()) + seq!['\n']
}

/// The column names of a table's header, trimmed.
pub open spec fn header_names(content: Seq<char>) -> Seq<Seq<char>> {
    let ls = spec_lines(content);
    if ls.len() == 0 {
        Seq::empty()
    } else {
        fields(ls[0]).map_values(|c: Seq<char>| spec_trim(c))
    }
}

fn sep_chars() -> (r: Vec<char>)
    ensures
        r@ == unit_sep(),
{
    let r = vec!['\u{1f}'];
    assert(r@ =~= unit_sep());
    r
}

/// The fields of a stored line.
pub fn fields_of(line: &[char]) -> (r: Vec<Vec<char>>)
    ensures
        char_views(r@) == fields(line@),
        r@.len() >= 1,
{
    let sep = sep_chars();
    proof {
        lemma_split_nonempty(line@, unit_sep());
    }
    split_chars(line, &sep)
}

/// The number of rows of a table.
pub fn count_rows_in(content: &[char]) -> (r: usize)
    ensures
        r == row_count(content@),
{
    let ls = lines_of(content);
    assert(ls@.len() == spec_lines(content@).len());
    if ls.len() > 0 {
        ls.len() - 1
    } else {
        0
    }
}

/// The column names of a table's header, trimmed.
pub fn header_names_of(content: &[char]) -> (r: Vec<Vec<char>>)
    ensures
        char_views(r@) == header_names(content@),
{
    let ls = lines_of(content);
    let mut r: Vec<Vec<char>> = Vec::new();
    if ls.len() == 0 {
        assert(char_views(r@) =~= Seq::<Seq<char>>::empty());
        return r;
    }
    assert(ls@[0]@ == spec_lines(content@)[0]);
    let hs = fields_of(&ls[0]);
    let mut i: usize = 0;
    while i < hs.len()
        invariant
            i <= hs.len(),
            char_views(r@) == char_views(hs@).take(i as int).map_values(|c: Seq<char>| spec_trim(c)),
        decreases hs.len() - i,
    {
        let ghost before = char_views(r@);
        let t = trim_chars(&hs[i]);
        r.push(t);
        assert(char_views(r@) =~= before.push(t@));
        assert(char_views(hs@).take(i + 1) =~= char_views(hs@).take(i as int).push(hs@[i as int]@));
        i += 1;
    }
    assert(char_views(hs@).take(hs.len() as int) =~= char_views(hs@));
    r
}

fn trimmed_position_of(header: &Vec<Vec<char>>, c: &[char]) -> (r: Option<usize>)
    ensures
        match r {
            Some(i) => trimmed_position(char_views(header@), c@, 0) == Some(i as int),
            None => trimmed_position(char_views(header@), c@, 0) is None,
        },
{
    let ghost h = char_views(header@);
    let tc = trim_chars(c);
    let mut i: usize = 0;
    while i < header.len()
        invariant
            i <= header.len(),
            h == char_views(header@),
            tc@ == spec_trim(c@),
            trimmed_position(h, c@, 0) == trimmed_position(h, c@, i as int),
        decreases header.len() - i,
    {
        assert(h[i as int] == header@[i as int]@);
        let th = trim_chars(&header[i]);
        if chars_eq(&th, &tc) {
            return Some(i);
        }
        i += 1;
    }
    None
}

fn column_indices_of(header: &Vec<Vec<char>>, columns: &Vec<Vec<char>>) -> (r: Vec<usize>)
    ensures
        r@.map_values(|i: usize| i as int) == column_indices(char_views(header@), char_views(columns@)),
{
    let ghost h = char_views(header@);
    let ghost cs = char_views(columns@);
    let mut r: Vec<usize> = Vec::new();
    let star = chars_of("*");
    let is_star = columns.len() == 1 && chars_eq(&columns[0], &star);
    proof {
        if columns@.len() == 1 {
            assert(cs =~= seq![columns@[0]@]);
            if cs == seq!["*"@] {
                assert(cs[0] == columns@[0]@);
            }
        } else {
            assert(cs.len() != 1);
        }
        assert(is_star == (cs == seq!["*"@]));
    }
    if is_star {
        let mut i: usize = 0;
        while i < header.len()
            invariant
                i <= header.len(),
                r@.len() == i,
                forall|k: int| 0 <= k < i ==> r@[k] == k,
            decreases header.len() - i,
        {
            r.push(i);
            i += 1;
        }
        assert(h.len() == header.len());
        assert(r@.map_values(|i: usize| i as int) =~= Seq::new(h.len(), |k: int| k));
        return r;
    }
    let mut j: usize = 0;
    assert(r@.map_values(|i: usize| i as int) =~= named_indices(h, cs.take(0)));
    while j < columns.len()
        invariant
            j <= columns.len(),
            h == char_views(header@),
            cs == char_views(columns@),
            r@.map_values(|i: usize| i as int) == named_indices(h, cs.take(j as int)),
        decreases columns.len() - j,
    {
        assert(cs.take(j + 1).drop_last() =~= cs.take(j as int));
        assert(cs.take(j + 1).last() == columns@[j as int]@);
        match trimmed_position_of(header, &columns[j]) {
            Some(i) => {
                let ghost before = r@.map_values(|i: usize| i as int);
                r.push(i);
                assert(r@.map_values(|i: usize| i as int) =~= before.push(i as int));
            },
            None => {},
        }
        j += 1;
    }
    assert(cs.take(columns.len() as int) =~= cs);
    r
}

fn copy_chars(s: &[char]) -> (r: Vec<char>)
    ensures
        r@ == s@,
{
    slice_chars(s, 0, s.len())
}

/// The rows of a table that a `SELECT` of `columns` reads.
pub fn read_rows_in(content: &[char], columns: &Vec<Vec<char>>, sql: &[char]) -> (r: Vec<Vec<Vec<char>>>)
    ensures
        r@.map_values(|row: Vec<Vec<char>>| char_views(row@)) == read_rows_of(content@, char_views(columns@), sql@),
{
    let ls = lines_of(content);
    let ghost lv = char_views(ls@);
    let mut rows: Vec<Vec<Vec<char>>> = Vec::new();
    if ls.len() == 0 {
        assert(rows@.map_values(|row: Vec<Vec<char>>| char_views(row@)) =~= Seq::<Seq<Seq<char>>>::empty());
        return rows;
    }
    let header = fields_of(&ls[0]);
    let indices = column_indices_of(&header, columns);
    let filters = parse_where_clause(sql, &header);
    let ghost iv = indices@.map_values(|i: usize| i as int);
    let ghost fv = filters@.map_values(|f: WhereFilter| f@);
    let ghost data = lv.skip(1);
    let mut k: usize = 1;
    assert(data.take(0) =~= Seq::<Seq<char>>::empty());
    while k < ls.len()
        invariant
            1 <= k <= ls.len(),
            lv == char_views(ls@),
            data == lv.skip(1),
            iv == indices@.map_values(|i: usize| i as int),
            fv == filters@.map_values(|f: WhereFilter| f@),
            rows@.map_values(|row: Vec<Vec<char>>| char_views(row@)) == selected_rows(data.take(k - 1), iv, fv),
        decreases ls.len() - k,
    {
        let ghost before = rows@.map_values(|row: Vec<Vec<char>>| char_views(row@));
        assert(data.take(k as int).drop_last() =~= data.take(k - 1));
        assert(data.take(k as int).last() == ls@[k as int]@);
        let line = &ls[k];
        if line.len() > 0 {
            let values = fields_of(line);
            if all_match(&filters, &header, &values) {
                let mut row: Vec<Vec<char>> = Vec::new();
                let mut j: usize = 0;
                while j < indices.len()
                    invariant
                        j <= indices.len(),
                        iv == indices@.map_values(|i: usize| i as int),
                        char_views(row@) == pick_row(char_views(values@), iv.take(j as int)),
                    decreases indices.len() - j,
                {
                    let idx = indices[j];
                    let ghost rb = char_views(row@);
                    let v = if idx < values.len() {
                        copy_chars(&values[idx])
                    } else {
                        chars_of("NULL")
                    };
                    row.push(v);
                    assert(char_views(row@) =~= rb.push(v@));
                    assert(iv.take(j + 1) =~= iv.take(j as int).push(idx as int));
                    assert(pick_row(char_views(values@), iv.take(j + 1)) =~= pick_row(
                        char_views(values@),
                        iv.take(j as int),
                    ).push(v@));
                    j += 1;
                }
                assert(iv.take(indices.len() as int) =~= iv);
                if row.len() > 0 {
                    rows.push(row);
                    assert(rows@.map_values(|row: Vec<Vec<char>>| char_views(row@)) =~= before.push(
                        pick_row(char_views(values@), iv),
                    ));
                }
            }
        }
        k += 1;
    }
    assert(data.take(ls.len() - 1) =~= data);
    rows
}

/// `parts` joined with `sep`.
pub fn join_chars(parts: &Vec<Vec<char>>, sep: &[char]) -> (r: Vec<char>)
    ensures
        r@ == spec_join(char_views(parts@), sep@),
{
    let ghost pv = char_views(parts@);
    let mut r: Vec<char> = Vec::new();
    let mut i: usize = 0;
    while i < parts.len()
        invariant
            i <= parts.len(),
            pv == char_views(parts@),
            r@ == spec_join(pv.take(i as int), sep@),
        decreases parts.len() - i,
    {
        let ghost before = r@;
        if i > 0 {
            append_chars(&mut r, sep);
        }
        append_chars(&mut r, &parts[i]);
        proof {
            let t = pv.take(i + 1);
            assert(t.drop_last() =~= pv.take(i as int));
            assert(t.last() == parts@[i as int]@);
            if i == 0 {
                assert(r@ =~= t[0]);
            } else {
                assert(r@ =~= before + sep@ + t.last());
            }
        }
        i += 1;
    }
    assert(pv.take(parts.len() as int) =~= pv);
    r
}

/// Appends the characters of `t` to `r`.
pub fn append_chars(r: &mut Vec<char>, t: &[char])
    ensures
        final(r)@ == old(r)@ + t@,
{
    let mut i: usize = 0;
    while i < t.len()
        invariant
            i <= t.len(),
            r@ == old(r)@ + t@.take(i as int),
        decreases t.len() - i,
    {
        r.push(t[i]);
        assert(t@.take(i + 1) =~= t@.take(i as int).push(t@[i as int]));
        assert(r@ =~= old(r)@ + t@.take(i + 1));
        i += 1;
    }
    assert(t@.take(t.len() as int) =~= t@);
}

/// A table's text after deleting the rows that the statement's conditions
/// select, and the number deleted.
pub fn delete_in(content: &[char], sql: &[char]) -> (r: (Vec<char>, usize))
    requires
        spec_lines(content@).len() > 0,
    ensures
        (r.0@, r.1 as nat) == after_delete(content@, sql@),
{
    let ls = lines_of(content);
    let ghost lv = char_views(ls@);
    let header = fields_of(&ls[0]);
    let filters = parse_where_clause(sql, &header);
    let ghost fv = filters@.map_values(|f: WhereFilter| f@);
    let ghost data = lv.skip(1);
    let mut out = copy_chars(&ls[0]);
    out.push('\n');
    let ghost head = out@;
    assert(head == lv[0] + seq!['\n']);
    let mut deleted: usize = 0;
    let mut k: usize = 1;
    assert(data.take(0) =~= Seq::<Seq<char>>::empty());
    assert(head + Seq::<char>::empty() =~= head);
    while k < ls.len()
        invariant
            1 <= k <= ls.len(),
            lv == char_views(ls@),
            data == lv.skip(1),
            fv == filters@.map_values(|f: WhereFilter| f@),
            out@ == head + delete_body(data.take(k - 1), fv),
            deleted == match_count(data.take(k - 1), fv),
            deleted < k,
        decreases ls.len() - k,
    {
        assert(data.take(k as int).drop_last() =~= data.take(k - 1));
        assert(data.take(k as int).last() == ls@[k as int]@);
        let line = &ls[k];
        let ghost before = out@;
        if line.len() > 0 {
            let values = fields_of(line);
            if all_match(&filters, &header, &values) {
                deleted += 1;
            } else {
                append_chars(&mut out, line);
                out.push('\n');
                assert(out@ =~= before + line@ + seq!['\n']);
            }
        }
        k += 1;
    }
    assert(data.take(ls.len() - 1) =~= data);
    (out, deleted)
}

fn apply_pairs(values: &Vec<Vec<char>>, pairs: &Vec<(usize, String)>) -> (r: Vec<Vec<char>>)
    ensures
        char_views(r@) == apply_assignments(
            char_views(values@),
            pairs@.map_values(|p: (usize, String)| (p.0 as int, p.1@)),
        ),
{
    let ghost pv = pairs@.map_values(|p: (usize, String)| (p.0 as int, p.1@));
    let mut nv: Vec<Vec<char>> = Vec::new();
    let mut i: usize = 0;
    while i < values.len()
        invariant
            i <= values.len(),
            char_views(nv@) == char_views(values@).take(i as int),
        decreases values.len() - i,
    {
        let ghost before = char_views(nv@);
        let x = copy_chars(&values[i]);
        nv.push(x);
        assert(char_views(nv@) =~= before.push(x@));
        assert(char_views(values@).take(i + 1) =~= char_views(values@).take(i as int).push(values@[i as int]@));
        i += 1;
    }
    assert(char_views(values@).take(values.len() as int) =~= char_views(values@));
    let mut j: usize = 0;
    assert(pv.take(0) =~= Seq::<(int, Seq<char>)>::empty());
    while j < pairs.len()
        invariant
            j <= pairs.len(),
            pv == pairs@.map_values(|p: (usize, String)| (p.0 as int, p.1@)),
            char_views(nv@) == apply_assignments(char_views(values@), pv.take(j as int)),
        decreases pairs.len() - j,
    {
        assert(pv.take(j + 1).drop_last() =~= pv.take(j as int));
        assert(pv.take(j + 1).last() == (pairs@[j as int].0 as int, pairs@[j as int].1@));
        let idx = pairs[j].0;
        if idx < nv.len() {
            let ghost before = char_views(nv@);
            let x = chars_of(pairs[j].1.as_str());
            nv.set(idx, x);
            assert(char_views(nv@) =~= before.update(idx as int, x@));
        }
        j += 1;
    }
    assert(pv.take(pairs.len() as int) =~= pv);
    nv
}

/// A table's text after updating the rows that the statement's conditions
/// select, and the number updated.
pub fn update_in(content: &[char], sql: &[char]) -> (r: (Vec<char>, usize))
    requires
        spec_lines(content@).len() > 0,
    ensures
        (r.0@, r.1 as nat) == after_update(content@, sql@),
{
    let ls = lines_of(content);
    let ghost lv = char_views(ls@);
    let header = fields_of(&ls[0]);
    let filters = parse_where_clause(sql, &header);
    let pairs = parse_set_clause(sql, &header);
    let ghost fv = filters@.map_values(|f: WhereFilter| f@);
    let ghost pv = pairs@.map_values(|p: (usize, String)| (p.0 as int, p.1@));
    let ghost data = lv.skip(1);
    let sep = sep_chars();
    let mut out = copy_chars(&ls[0]);
    out.push('\n');
    let ghost head = out@;
    assert(head == lv[0] + seq!['\n']);
    let mut updated: usize = 0;
    let mut k: usize = 1;
    assert(data.take(0) =~= Seq::<Seq<char>>::empty());
    assert(head + Seq::<char>::empty() =~= head);
    while k < ls.len()
        invariant
            1 <= k <= ls.len(),
            lv == char_views(ls@),
            data == lv.skip(1),
            fv == filters@.map_values(|f: WhereFilter| f@),
            pv == pairs@.map_values(|p: (usize, String)| (p.0 as int, p.1@)),
            sep@ == unit_sep(),
            out@ == head + update_body(data.take(k - 1), fv, pv),
            updated == match_count(data.take(k - 1), fv),
            updated < k,
        decreases ls.len() - k,
    {
        assert(data.take(k as int).drop_last() =~= data.take(k - 1));
        assert(data.take(k as int).last() == ls@[k as int]@);
        let line = &ls[k];
        let ghost before = out@;
        if line.len() > 0 {
            let values = fields_of(line);
            if all_match(&filters, &header, &values) {
                let nv = apply_pairs(&values, &pairs);
                let joined = join_chars(&nv, &sep);
                append_chars(&mut out, &joined);
                out.push('\n');
                assert(out@ =~= before + joined@ + seq!['\n']);
                updated += 1;
            } else {
                append_chars(&mut out, line);
                out.push('\n');
                assert(out@ =~= before + line@ + seq!['\n']);
            }
        }
        k += 1;
    }
    assert(data.take(ls.len() - 1) =~= data);
    (out, updated)
}

fn is_id_column_exec(c: &[char]) -> (r: bool)
    ensures
        r == is_id_column(c@),
{
    let s = string_of(c);
    let l = to_lowercase(s.as_str());
    let lc = chars_of(l.as_str());
    chars_eq(&lc, &chars_of("id"))
}

fn decimal_chars(n: usize) -> (r: Vec<char>)
    ensures
        r@ == spec_decimal(n as nat),
{
    let s = u64_text(n as u64);
    chars_of(s.as_str())
}

/// A table's text after storing a row of `values` under `columns`.
pub fn store_row_in(content: &[char], columns: &Vec<Vec<char>>, values: &Vec<Vec<char>>) -> (r: Vec<char>)
    ensures
        r@ == stored_row(content@, char_views(columns@), char_views(values@)),
{
    let ghost cv = char_views(columns@);
    let ghost vv = char_views(values@);
    let mut has_id = false;
    let mut i: usize = 0;
    while i < columns.len()
        invariant
            i <= columns.len(),
            cv == char_views(columns@),
            has_id == exists|j: int| 0 <= j < i && is_id_column(cv[j]),
        decreases columns.len() - i,
    {
        assert(cv[i as int] == columns@[i as int]@);
        if is_id_column_exec(&columns[i]) {
            has_id = true;
        }
        i += 1;
    }
    assert(has_id == has_id_column(cv));
    let mut fc: Vec<Vec<char>> = Vec::new();
    let mut fv: Vec<Vec<char>> = Vec::new();
    if !has_id {
        fc.push(chars_of("id"));
        let count = if content.len() == 0 {
            0
        } else {
            lines_of(content).len()
        };
        fv.push(decimal_chars(count));
    }
    let ghost fc0 = char_views(fc@);
    let ghost fv0 = char_views(fv@);
    let mut i: usize = 0;
    while i < columns.len()
        invariant
            i <= columns.len(),
            cv == char_views(columns@),
            char_views(fc@) == fc0 + cv.take(i as int),
        decreases columns.len() - i,
    {
        let ghost before = char_views(fc@);
        let x = copy_chars(&columns[i]);
        fc.push(x);
        assert(char_views(fc@) =~= before.push(x@));
        assert(cv.take(i + 1) =~= cv.take(i as int).push(cv[i as int]));
        assert(char_views(fc@) =~= fc0 + cv.take(i + 1));
        i += 1;
    }
    let mut i: usize = 0;
    while i < values.len()
        invariant
            i <= values.len(),
            vv == char_views(values@),
            char_views(fv@) == fv0 + vv.take(i as int),
        decreases values.len() - i,
    {
        let ghost before = char_views(fv@);
        let x = copy_chars(&values[i]);
        fv.push(x);
        assert(char_views(fv@) =~= before.push(x@));
        assert(vv.take(i + 1) =~= vv.take(i as int).push(vv[i as int]));
        assert(char_views(fv@) =~= fv0 + vv.take(i + 1));
        i += 1;
    }
    assert(cv.take(columns.len() as int) =~= cv);
    assert(vv.take(values.len() as int) =~= vv);
    let ghost fcs = char_views(fc@);
    let ghost fvs = char_views(fv@);
    proof {
        if has_id {
            assert(fc0 =~= Seq::<Seq<char>>::empty());
            assert(fcs =~= cv);
            assert(fvs =~= vv);
        } else {
            assert(fcs =~= seq!["id"@] + cv);
            assert(fvs =~= seq![spec_decimal(if content@.len() == 0 { 0 } else { spec_lines(content@).len() })] + vv);
        }
    }
    let sep = sep_chars();
    let header = join_chars(&fc, &sep);
    let mut out: Vec<char> = if starts_with_chars(content, &header) {
        copy_chars(content)
    } else {
        let mut h = copy_chars(&header);
        h.push('\n');
        h
    };
    let n = lines_of(&out).len();
    let nd = decimal_chars(n);
    let mut fv2: Vec<Vec<char>> = Vec::new();
    let mut i: usize = 0;
    while i < fv.len()
        invariant
            i <= fv.len(),
            fcs == char_views(fc@),
            fvs == char_views(fv@),
            nd@ == spec_decimal(n as nat),
            fv2@.len() == i,
            forall|k: int|
                0 <= k < i ==> #[trigger] fv2@[k]@ == (if k < fcs.len() && is_id_column(fcs[k]) && fvs[k] == "0"@ {
                    spec_decimal(n as nat)
                } else {
                    fvs[k]
                }),
        decreases fv.len() - i,
    {
        assert(fvs[i as int] == fv@[i as int]@);
        let replace = i < fc.len() && {
            assert(fcs[i as int] == fc@[i as int]@);
            is_id_column_exec(&fc[i]) && chars_eq(&fv[i], &chars_of("0"))
        };
        if replace {
            fv2.push(copy_chars(&nd));
        } else {
            fv2.push(copy_chars(&fv[i]));
        }
        i += 1;
    }
    let joined = join_chars(&fv2, &sep);
    proof {
        let expected = Seq::new(
            fvs.len(),
            |k: int|
                if k < fcs.len() && is_id_column(fcs[k]) && fvs[k] == "0"@ {
                    spec_decimal(n as nat)
                } else {
                    fvs[k]
                },
        );
        assert(char_views(fv2@) =~= expected);
    }
    let ghost base = out@;
    proof {
        let fc_s = if has_id_column(cv) { cv } else { seq!["id"@] + cv };
        assert(fc_s == fcs);
        assert(header@ == spec_join(fc_s, unit_sep()));
        assert(base == (if starts_with(content@, header@) { content@ } else { header@ + seq!['\n'] }));
        assert(n == spec_lines(base).len());
    }
    append_chars(&mut out, &joined);
    out.push('\n');
    assert(out@ =~= base + joined@ + seq!['\n']);
    out
}

} // verus!
