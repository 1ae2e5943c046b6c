//! `INSERT` statement builder.
use vstd::prelude::*;
use super::common::{str_views, strs_to_strings, value_models};
use crate::text::{copy_str, push_str, join_strings, spec_join, views};
use crate::types::value::{Value, ValueModel};

verus! {

/// The model of an [`InsertBuilder`].
pub struct InsertModel {
    pub table: Seq<char>,
    pub columns: Seq<Seq<char>>,
    pub rows: Seq<Seq<ValueModel>>,
    pub returning: Seq<Seq<char>>,
}

/// Builds an `INSERT` statement.
pub struct InsertBuilder {
    table: String,
    columns: Vec<String>,
    values: Vec<Vec<Value>>,
    returning: Vec<String>,
}

pub open spec fn row_models(v: Seq<Vec<Value>>) -> Seq<Seq<ValueModel>> {
    v.map_values(|r: Vec<Value>| value_models(r@))
}

impl View for InsertBuilder {
    type V = InsertModel;

    closed spec fn view(&self) -> InsertModel {
        InsertModel {
            table: self.table@,
            columns: views(self.columns@),
            rows: row_models(self.values@),
            returning: views(self.returning@),
        }
    }
}

/// `"?, ?, ..., ?"` with `n` placeholders.
pub open spec fn placeholders(n: nat) -> Seq<char> {
    spec_join(Seq::new(n, |i: int| "?"@), ", "@)
}

/// `"(?, ..., ?)"` for one row.
pub open spec fn row_group(n: nat) -> Seq<char> {
    seq!['('] + placeholders(n) + seq![')']
}

/// Every row's values, row after row.
pub open spec fn flatten(rows: Seq<Seq<ValueModel>>) -> Seq<ValueModel>
    decreases rows.len(),
{
    if rows.len() == 0 {
        Seq::empty()
    } else {
        flatten(rows.drop_last()) + rows.last()
    }
}

/// The `VALUES` part: one group of placeholders per row, in order; nothing
/// without rows.
pub open spec fn values_part(rows: Seq<Seq<ValueModel>>) -> Seq<char> {
    if rows.len() == 0 {
        Seq::empty()
    } else {
        " VALUES "@ + spec_join(rows.map_values(|r: Seq<ValueModel>| row_group(r.len())), ", "@)
    }
}

/// A new row adds its group after the earlier ones.
pub proof fn lemma_values_part_push(rows: Seq<Seq<ValueModel>>, row: Seq<ValueModel>)
    ensures
        values_part(rows.push(row)) == if rows.len() == 0 {
            " VALUES "@ + row_group(row.len())
        } else {
            values_part(rows) + ", "@ + row_group(row.len())
        },
{
    let g = rows.push(row).map_values(|r: Seq<ValueModel>| row_group(r.len()));
    let g0 = rows.map_values(|r: Seq<ValueModel>| row_group(r.len()));
    assert(g.drop_last() =~= g0);
    if rows.len() == 0 {
        assert(g.len() == 1);
    }
}

/// The number of times `c` occurs in `s`.
pub open spec fn count_char(s: Seq<char>, c: char) -> nat
    decreases s.len(),
{
    if s.len() == 0 {
        0
    } else {
        count_char(s.drop_last(), c) + if s.last() == c {
            1nat
        } else {
            0nat
        }
    }
}

/// Counting over a concatenation adds the counts of the parts.
pub proof fn lemma_count_concat(a: Seq<char>, b: Seq<char>, c: char)
    ensures
        count_char(a + b, c) == count_char(a, c) + count_char(b, c),
    decreases b.len(),
{
    if b.len() > 0 {
        assert((a + b).drop_last() =~= a + b.drop_last());
        lemma_count_concat(a, b.drop_last(), c);
    } else {
        assert(a + b =~= a);
    }
}

/// A text with no `c` counts none.
pub proof fn lemma_count_none(s: Seq<char>, c: char)
    requires
        forall|i: int| 0 <= i < s.len() ==> s[i] != c,
    ensures
        count_char(s, c) == 0,
    decreases s.len(),
{
    if s.len() > 0 {
        lemma_count_none(s.drop_last(), c);
    }
}

/// A list of `n` placeholders, and a row group of `n` values, hold
/// exactly `n` question marks.
pub proof fn lemma_placeholder_count(n: nat)
    ensures
        count_char(placeholders(n), '?') == n,
        count_char(row_group(n), '?') == n,
    decreases n,
{
    let q = Seq::new(n, |i: int| "?"@);
    reveal_strlit("?");
    reveal_strlit(", ");
    assert(count_char("?"@, '?') == 1) by {
        let one = "?"@;
        assert(one.len() == 1 && one[0] == '?');
        assert(one.last() == '?');
        assert(count_char(one.drop_last(), '?') == 0);
    }
    lemma_count_none(", "@, '?');
    if n == 1 {
        assert(placeholders(n) == q[0]);
    } else if n > 1 {
        let p = Seq::new((n - 1) as nat, |i: int| "?"@);
        assert(q.drop_last() =~= p);
        lemma_placeholder_count((n - 1) as nat);
        assert(placeholders(n) == placeholders((n - 1) as nat) + ", "@ + "?"@);
        lemma_count_concat(placeholders((n - 1) as nat), ", "@, '?');
        lemma_count_concat(placeholders((n - 1) as nat) + ", "@, "?"@, '?');
    }
    lemma_count_none(seq!['('], '?');
    lemma_count_none(seq![')'], '?');
    lemma_count_concat(seq!['('], placeholders(n), '?');
    lemma_count_concat(seq!['('] + placeholders(n), seq![')'], '?');
}

/// Joining parts that hold no `c` with a separator that holds none gives
/// a text that holds none.
pub proof fn lemma_join_count_zero(parts: Seq<Seq<char>>, sep: Seq<char>, c: char)
    requires
        count_char(sep, c) == 0,
        forall|i: int| 0 <= i < parts.len() ==> count_char(#[trigger] parts[i], c) == 0,
    ensures
        count_char(spec_join(parts, sep), c) == 0,
    decreases parts.len(),
{
    if parts.len() > 1 {
        let front = parts.drop_last();
        assert forall|i: int| 0 <= i < front.len() implies count_char(#[trigger] front[i], c) == 0 by {
            assert(front[i] == parts[i]);
        }
        lemma_join_count_zero(front, sep, c);
        lemma_count_concat(spec_join(front, sep), sep, c);
        lemma_count_concat(spec_join(front, sep) + sep, parts.last(), c);
    } else if parts.len() == 1 {
        assert(count_char(parts[0], c) == 0);
    }
}

/// The number of question marks in the `VALUES` part: one per value.
proof fn lemma_values_part_count(rows: Seq<Seq<ValueModel>>)
    ensures
        count_char(values_part(rows), '?') == flatten(rows).len(),
    decreases rows.len(),
{
    if rows.len() > 0 {
        let front = rows.drop_last();
        assert(front.push(rows.last()) =~= rows);
        lemma_values_part_push(front, rows.last());
        lemma_values_part_count(front);
        lemma_placeholder_count(rows.last().len());
        reveal_strlit(" VALUES ");
        reveal_strlit(", ");
        lemma_count_none(" VALUES "@, '?');
        lemma_count_none(", "@, '?');
        if front.len() == 0 {
            assert(flatten(front).len() == 0);
            lemma_count_concat(" VALUES "@, row_group(rows.last().len()), '?');
        } else {
            lemma_count_concat(values_part(front), ", "@, '?');
            lemma_count_concat(values_part(front) + ", "@, row_group(rows.last().len()), '?');
        }
    }
}

/// An `INSERT` whose table, column and returned-column names hold no
/// question mark has exactly one placeholder per parameter that
/// [`InsertBuilder::build`] gives: adding a row of `n` values adds `n` of
/// each.
pub proof fn law_insert_placeholders(m: InsertModel)
    requires
        count_char(m.table, '?') == 0,
        forall|i: int| 0 <= i < m.columns.len() ==> count_char(#[trigger] m.columns[i], '?') == 0,
        forall|i: int| 0 <= i < m.returning.len() ==> count_char(#[trigger] m.returning[i], '?') == 0,
    ensures
        count_char(insert_sql(m), '?') == flatten(m.rows).len(),
{
    reveal_strlit("INSERT INTO ");
    reveal_strlit(" (");
    reveal_strlit(", ");
    reveal_strlit(" RETURNING ");
    lemma_count_none("INSERT INTO "@, '?');
    lemma_count_none(" ("@, '?');
    lemma_count_none(", "@, '?');
    lemma_count_none(" RETURNING "@, '?');
    lemma_count_none(seq![')'], '?');
    lemma_count_none(Seq::<char>::empty(), '?');
    let cols = if m.columns.len() == 0 {
        Seq::<char>::empty()
    } else {
        " ("@ + spec_join(m.columns, ", "@) + seq![')']
    };
    let ret = if m.returning.len() == 0 {
        Seq::<char>::empty()
    } else {
        " RETURNING "@ + spec_join(m.returning, ", "@)
    };
    lemma_join_count_zero(m.columns, ", "@, '?');
    lemma_join_count_zero(m.returning, ", "@, '?');
    if m.columns.len() > 0 {
        lemma_count_concat(" ("@, spec_join(m.columns, ", "@), '?');
        lemma_count_concat(" ("@ + spec_join(m.columns, ", "@), seq![')'], '?');
    }
    if m.returning.len() > 0 {
        lemma_count_concat(" RETURNING "@, spec_join(m.returning, ", "@), '?');
    }
    lemma_values_part_count(m.rows);
    lemma_count_concat("INSERT INTO "@, m.table, '?');
    lemma_count_concat("INSERT INTO "@ + m.table, cols, '?');
    lemma_count_concat("INSERT INTO "@ + m.table + cols, values_part(m.rows), '?');
    lemma_count_concat("INSERT INTO "@ + m.table + cols + values_part(m.rows), ret, '?');
}

/// The statement an [`InsertBuilder`] builds.
pub open spec fn insert_sql(m: InsertModel) -> Seq<char> {
    "INSERT INTO "@ + m.table
        + (if m.columns.len() == 0 { Seq::empty() } else { " ("@ + spec_join(m.columns, ", "@) + seq![')'] })
        + values_part(m.rows)
        + (if m.returning.len() == 0 { Seq::empty() } else { " RETURNING "@ + spec_join(m.returning, ", "@) })
}

/// `"?, ?, ..., ?"`.
pub fn placeholders_exec(n: usize) -> (r: String)
    ensures
        r@ == placeholders(n as nat),
{
    let ghost q = Seq::new(n as nat, |i: int| "?"@);
    let mut parts: Vec<String> = Vec::new();
    let mut i: usize = 0;
    while i < n
        invariant
            i <= n,
            q == Seq::new(n as nat, |i: int| "?"@),
            views(parts@) == q.take(i as int),
        decreases n - i,
    {
        let p = String::from_str("?");
        let ghost pb = parts@;
        parts.push(p);
        assert(views(parts@) =~= views(pb).push(p@));
        assert(q.take(i + 1) =~= q.take(i as int).push("?"@));
        i += 1;
    }
    assert(q.take(n as int) =~= q);
    join_strings(&parts, ", ")
}

impl InsertBuilder {
    /// `INSERT INTO <table>` with no columns, rows or returned columns.
    pub fn new(table: &str) -> (r: Self)
        ensures
            r@ == (InsertModel { table: table@, columns: Seq::empty(), rows: Seq::empty(), returning: Seq::empty() }),
    {
        let r = InsertBuilder {
            table: copy_str(table),
            columns: Vec::new(),
            values: Vec::new(),
            returning: Vec::new(),
        };
        assert(views(r.columns@) =~= Seq::empty());
        assert(row_models(r.values@) =~= Seq::empty());
        assert(views(r.returning@) =~= Seq::empty());
        r
    }

    /// Sets the column list.
    pub fn columns(self, cols: &[&str]) -> (r: Self)
        ensures
            r@ == (InsertModel { columns: str_views(cols@), ..self@ }),
    {
        let mut s = self;
        s.columns = strs_to_strings(cols);
        s
    }

    /// Adds a row of values: the parameters grow by them, and the
    /// statement gains one group of as many placeholders after the earlier
    /// groups.
    pub fn values(self, vals: Vec<Value>) -> (r: Self)
        ensures
            r@ == (InsertModel { rows: self@.rows.push(value_models(vals@)), ..self@ }),
            flatten(r@.rows) == flatten(self@.rows) + value_models(vals@),
            values_part(r@.rows) == if self@.rows.len() == 0 {
                " VALUES "@ + row_group(vals@.len())
            } else {
                values_part(self@.rows) + ", "@ + row_group(vals@.len())
            },
    {
        let mut s = self;
        let ghost before = s.values@;
        let ghost vm = value_models(vals@);
        let ghost old_rows = row_models(before);
        s.values.push(vals);
        assert(row_models(s.values@) =~= old_rows.push(vm));
        proof {
            lemma_values_part_push(old_rows, vm);
            assert(old_rows.push(vm).drop_last() =~= old_rows);
        }
        s
    }

    /// Sets the `RETURNING` column list.
    pub fn returning(self, cols: &[&str]) -> (r: Self)
        ensures
            r@ == (InsertModel { returning: str_views(cols@), ..self@ }),
    {
        let mut s = self;
        s.returning = strs_to_strings(cols);
        s
    }

    /// The statement and its parameters (all rows' values, row after row).
    pub fn build(&self) -> (r: (String, Vec<Value>))
        ensures
            r.0@ == insert_sql(self@),
            value_models(r.1@) == flatten(self@.rows),
    {
        let mut sql = String::from_str("INSERT INTO ");
        push_str(&mut sql, self.table.as_str());
        if self.columns.len() > 0 {
            push_str(&mut sql, " (");
            let c = join_strings(&self.columns, ", ");
            push_str(&mut sql, c.as_str());
            sql.push(')');
        }
        let ghost after_cols = sql@;
        let mut params: Vec<Value> = Vec::new();
        let ghost rm = row_models(self.values@);
        let ghost groups = rm.map_values(|r: Seq<ValueModel>| row_group(r.len()));
        if self.values.len() > 0 {
            let mut parts: Vec<String> = Vec::new();
            let mut i: usize = 0;
            while i < self.values.len()
                invariant
                    i <= self.values.len(),
                    rm == row_models(self.values@),
                    groups == rm.map_values(|r: Seq<ValueModel>| row_group(r.len())),
                    views(parts@) == groups.take(i as int),
                    value_models(params@) == flatten(rm.take(i as int)),
                decreases self.values.len() - i,
            {
                let row = &self.values[i];
                let ghost pb0 = params@;
                let mut k: usize = 0;
                while k < row.len()
                    invariant
                        k <= row.len(),
                        value_models(params@) == value_models(pb0) + value_models(row@).take(k as int),
                    decreases row.len() - k,
                {
                    let ghost pb = params@;
                    let v = row[k].copy();
                    params.push(v);
                    assert(value_models(params@) =~= value_models(pb).push(v@));
                    assert(value_models(row@).take(k + 1) =~= value_models(row@).take(k as int).push(row@[k as int]@));
                    k += 1;
                }
                assert(value_models(row@).take(row.len() as int) =~= value_models(row@));
                let mut g = String::new();
                g.push('(');
                let q = placeholders_exec(row.len());
                push_str(&mut g, q.as_str());
                g.push(')');
                let ghost cb = parts@;
                parts.push(g);
                proof {
                    assert(rm[i as int] == value_models(row@));
                    assert(g@ =~= row_group(row@.len()));
                    assert(views(parts@) =~= views(cb).push(g@));
                    assert(groups.take(i + 1) =~= groups.take(i as int).push(groups[i as int]));
                    let t = rm.take(i + 1);
                    assert(t.drop_last() =~= rm.take(i as int));
                    assert(value_models(params@) =~= flatten(rm.take(i as int)) + value_models(row@));
                }
                i += 1;
            }
            assert(groups.take(self.values.len() as int) =~= groups);
            assert(rm.take(self.values.len() as int) =~= rm);
            push_str(&mut sql, " VALUES ");
            let j = join_strings(&parts, ", ");
            push_str(&mut sql, j.as_str());
        } else {
            assert(value_models(params@) =~= flatten(rm));
        }
        let ghost after_vals = sql@;
        if self.returning.len() > 0 {
            push_str(&mut sql, " RETURNING ");
            let r = join_strings(&self.returning, ", ");
            push_str(&mut sql, r.as_str());
        }
        assert(sql@ =~= insert_sql(self@));
        (sql, params)
    }
}

} // verus!
