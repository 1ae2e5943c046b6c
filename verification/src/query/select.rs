//! `SELECT` statement builder.
use vstd::prelude::*;
use super::common::{str_views, strs_to_strings, value_models, placeholder_clause_exec, where_part};
use super::insert::{placeholders, placeholders_exec, count_char, lemma_count_concat, lemma_count_none, lemma_join_count_zero, lemma_placeholder_count};
use crate::text::{copy_str, push_str, push_decimal, join_strings, spec_join, views, spec_decimal, digit_char, str_eq};
use crate::types::value::{Value, ValueModel};

verus! {

/// A condition of a `SELECT`: `(column, operator, values)`.
pub type SelectCond = (Seq<char>, Seq<char>, Seq<ValueModel>);

/// The model of a list of `SELECT` conditions.
pub open spec fn select_conds(v: Seq<(String, String, Vec<Value>)>) -> Seq<SelectCond> {
    v.map_values(|c: (String, String, Vec<Value>)| (c.0@, c.1@, value_models(c.2@)))
}

/// The model of a [`SelectBuilder`].
pub struct SelectModel {
    pub table: Seq<char>,
    pub columns: Seq<Seq<char>>,
    pub conditions: Seq<SelectCond>,
    pub order_by: Seq<(Seq<char>, bool)>,
    pub limit: Option<usize>,
    pub offset: Option<usize>,
    pub joins: Seq<Seq<char>>,
    pub group_by: Seq<Seq<char>>,
}

/// Builds a `SELECT` statement.
pub struct SelectBuilder {
    table: String,
    columns: Vec<String>,
    conditions: Vec<(String, String, Vec<Value>)>,
    order_by: Vec<(String, bool)>,
    limit_val: Option<usize>,
    offset_val: Option<usize>,
    joins: Vec<String>,
    group_by: Vec<String>,
}

pub open spec fn order_models(v: Seq<(String, bool)>) -> Seq<(Seq<char>, bool)> {
    v.map_values(|o: (String, bool)| (o.0@, o.1))
}

impl View for SelectBuilder {
    type V = SelectModel;

    closed spec fn view(&self) -> SelectModel {
        SelectModel {
            table: self.table@,
            columns: views(self.columns@),
            conditions: select_conds(self.conditions@),
            order_by: order_models(self.order_by@),
            limit: self.limit_val,
            offset: self.offset_val,
            joins: views(self.joins@),
            group_by: views(self.group_by@),
        }
    }
}

/// Operators that test for `NULL` and take no value.
pub open spec fn is_null_op(op: Seq<char>) -> bool {
    op == "IS"@ || op == "IS NOT"@
}

/// The `WHERE` clause text of one condition: `"<column> IN (?, ..., ?)"`
/// with one placeholder per value, `"<column> IS [NOT] NULL"`, or
/// `"<column> <op> ?"`.
pub open spec fn select_clause(c: SelectCond) -> Seq<char> {
    if c.1 == "IN"@ {
        c.0 + " IN ("@ + placeholders(c.2.len()) + seq![')']
    } else if is_null_op(c.1) {
        c.0 + seq![' '] + c.1 + " NULL"@
    } else {
        c.0 + seq![' '] + c.1 + " ?"@
    }
}

/// The parameters the conditions pass: the values of every condition, in
/// order.
pub open spec fn select_params(conds: Seq<SelectCond>) -> Seq<ValueModel>
    decreases conds.len(),
{
    if conds.len() == 0 {
        Seq::empty()
    } else {
        select_params(conds.drop_last()) + conds.last().2
    }
}

/// `"<column> ASC"` or `"<column> DESC"`.
pub open spec fn order_item(o: (Seq<char>, bool)) -> Seq<char> {
    o.0 + if o.1 { " ASC"@ } else { " DESC"@ }
}

pub open spec fn order_part(order: Seq<(Seq<char>, bool)>) -> Seq<char> {
    if order.len() == 0 {
        Seq::empty()
    } else {
        " ORDER BY "@ + spec_join(order.map_values(|o: (Seq<char>, bool)| order_item(o)), ", "@)
    }
}

pub open spec fn limit_part(limit: Option<usize>) -> Seq<char> {
    match limit {
        Some(n) => " LIMIT "@ + spec_decimal(n as nat),
        None => Seq::empty(),
    }
}

pub open spec fn offset_part(offset: Option<usize>) -> Seq<char> {
    match offset {
        Some(n) => " OFFSET "@ + spec_decimal(n as nat),
        None => Seq::empty(),
    }
}

/// Each join clause, with a space before it.
pub open spec fn joins_part(joins: Seq<Seq<char>>) -> Seq<char>
    decreases joins.len(),
{
    if joins.len() == 0 {
        Seq::empty()
    } else {
        joins_part(joins.drop_last()) + seq![' '] + joins.last()
    }
}

pub open spec fn group_part(group: Seq<Seq<char>>) -> Seq<char> {
    if group.len() == 0 { Seq::empty() } else { " GROUP BY "@ + spec_join(group, ", "@) }
}

/// The statement a [`SelectBuilder`] builds.
pub open spec fn select_sql(m: SelectModel) -> Seq<char> {
    "SELECT "@ + spec_join(m.columns, ", "@) + " FROM "@ + m.table + joins_part(m.joins)
        + where_part(m.conditions.map_values(|c: SelectCond| select_clause(c)))
        + group_part(m.group_by) + order_part(m.order_by) + limit_part(m.limit) + offset_part(m.offset)
}

/// The statement from `" FROM "` on: everything but the column list.
pub open spec fn select_from(m: SelectModel) -> Seq<char> {
    " FROM "@ + m.table + joins_part(m.joins) + where_part(m.conditions.map_values(|c: SelectCond| select_clause(c)))
        + group_part(m.group_by) + order_part(m.order_by) + limit_part(m.limit) + offset_part(m.offset)
}

/// A `SELECT` is its column list followed by a part that the column list
/// does not touch: [`SelectBuilder::columns`] replaces the list and leaves
/// the rest of the statement, and the parameters, as they were.
pub proof fn law_columns_replace_list(m: SelectModel, cols: Seq<Seq<char>>)
    ensures
        select_sql(m) == "SELECT "@ + spec_join(m.columns, ", "@) + select_from(m),
        select_sql(SelectModel { columns: cols, ..m }) == "SELECT "@ + spec_join(cols, ", "@) + select_from(m),
        select_params(SelectModel { columns: cols, ..m }.conditions) == select_params(m.conditions),
{
    let n = SelectModel { columns: cols, ..m };
    let a = "SELECT "@;
    let c = " FROM "@;
    let t = m.table;
    let j = joins_part(m.joins);
    let w = where_part(m.conditions.map_values(|c: SelectCond| select_clause(c)));
    let g = group_part(m.group_by);
    let o = order_part(m.order_by);
    let l = limit_part(m.limit);
    let f = offset_part(m.offset);
    let rest = c + t + j + w + g + o + l + f;
    assert(select_from(m) == rest);
    assert(select_from(n) == rest);
    let b = spec_join(m.columns, ", "@);
    let b2 = spec_join(cols, ", "@);
    assert(select_sql(m) == a + b + c + t + j + w + g + o + l + f);
    assert(select_sql(n) == a + b2 + c + t + j + w + g + o + l + f);
    assert(a + b + c + t + j + w + g + o + l + f =~= a + b + rest);
    assert(a + b2 + c + t + j + w + g + o + l + f =~= a + b2 + rest);
}

/// Appends `" LIMIT n"`/`" OFFSET n"` style parts.
pub fn push_keyword_number(sql: &mut String, keyword: &str, n: Option<usize>)
    ensures
        final(sql)@ == old(sql)@ + match n {
            Some(v) => keyword@ + spec_decimal(v as nat),
            None => Seq::<char>::empty(),
        },
{
    match n {
        Some(v) => {
            push_str(sql, keyword);
            push_decimal(sql, v as u64);
        },
        None => {
            assert(sql@ =~= old(sql)@ + Seq::<char>::empty());
        },
    }
}

/// Appends the `ORDER BY` part.
pub fn push_order(sql: &mut String, order: &Vec<(String, bool)>)
    ensures
        final(sql)@ == old(sql)@ + order_part(order_models(order@)),
{
    if order.len() == 0 {
        assert(sql@ =~= old(sql)@ + order_part(order_models(order@)));
        return;
    }
    let ghost om = order_models(order@);
    let ghost items = om.map_values(|o: (Seq<char>, bool)| order_item(o));
    let mut parts: Vec<String> = Vec::new();
    let mut i: usize = 0;
    while i < order.len()
        invariant
            i <= order.len(),
            om == order_models(order@),
            items == om.map_values(|o: (Seq<char>, bool)| order_item(o)),
            views(parts@) == items.take(i as int),
        decreases order.len() - i,
    {
        let mut p = order[i].0.clone();
        if order[i].1 {
            push_str(&mut p, " ASC");
        } else {
            push_str(&mut p, " DESC");
        }
        let ghost before = parts@;
        parts.push(p);
        proof {
            assert(om[i as int] == (order@[i as int].0@, order@[i as int].1));
            assert(views(parts@) =~= views(before).push(p@));
            assert(items.take(i + 1) =~= items.take(i as int).push(items[i as int]));
        }
        i += 1;
    }
    assert(items.take(order.len() as int) =~= items);
    push_str(sql, " ORDER BY ");
    let j = join_strings(&parts, ", ");
    push_str(sql, j.as_str());
    assert(sql@ =~= old(sql)@ + order_part(om));
}

impl SelectBuilder {
    /// A `SELECT * FROM <table>` with nothing else.
    pub fn new(table: &str) -> (r: Self)
        ensures
            r@ == (SelectModel {
                table: table@,
                columns: seq!["*"@],
                conditions: Seq::empty(),
                order_by: Seq::empty(),
                limit: None,
                offset: None,
                joins: Seq::empty(),
                group_by: Seq::empty(),
            }),
    {
        let mut cols: Vec<String> = Vec::new();
        cols.push(String::from_str("*"));
        let r = SelectBuilder {
            table: copy_str(table),
            columns: cols,
            conditions: Vec::new(),
            order_by: Vec::new(),
            limit_val: None,
            offset_val: None,
            joins: Vec::new(),
            group_by: Vec::new(),
        };
        assert(views(r.columns@) =~= seq!["*"@]);
        assert(select_conds(r.conditions@) =~= Seq::empty());
        assert(order_models(r.order_by@) =~= Seq::empty());
        assert(views(r.joins@) =~= Seq::empty());
        assert(views(r.group_by@) =~= Seq::empty());
        r
    }

    /// Selects the given columns instead.
    pub fn columns(self, cols: &[&str]) -> (r: Self)
        ensures
            r@ == (SelectModel { columns: str_views(cols@), ..self@ }),
    {
        let mut s = self;
        s.columns = strs_to_strings(cols);
        s
    }

    fn with_condition(self, column: &str, op: &str, values: Vec<Value>) -> (r: Self)
        ensures
            r@ == (SelectModel {
                conditions: self@.conditions.push((column@, op@, value_models(values@))),
                ..self@
            }),
    {
        let mut s = self;
        let ghost before = s.conditions@;
        let ghost vm = value_models(values@);
        let c = (copy_str(column), String::from_str(op), values);
        s.conditions.push(c);
        assert(select_conds(s.conditions@) =~= select_conds(before).push((column@, op@, vm)));
        s
    }

    fn with_value(self, column: &str, op: &str, value: Value) -> (r: Self)
        ensures
            r@ == (SelectModel { conditions: self@.conditions.push((column@, op@, seq![value@])), ..self@ }),
    {
        let ghost vm = value@;
        let mut v: Vec<Value> = Vec::new();
        v.push(value);
        assert(value_models(v@) =~= seq![vm]);
        self.with_condition(column, op, v)
    }

    /// Adds `column = ?`.
    pub fn where_eq(self, column: &str, value: Value) -> (r: Self)
        ensures
            r@ == (SelectModel { conditions: self@.conditions.push((column@, "="@, seq![value@])), ..self@ }),
    {
        self.with_value(column, "=", value)
    }

    /// Adds `column != ?`.
    pub fn where_ne(self, column: &str, value: Value) -> (r: Self)
        ensures
            r@ == (SelectModel { conditions: self@.conditions.push((column@, "!="@, seq![value@])), ..self@ }),
    {
        self.with_value(column, "!=", value)
    }

    /// Adds `column > ?`.
    pub fn where_gt(self, column: &str, value: Value) -> (r: Self)
        ensures
            r@ == (SelectModel { conditions: self@.conditions.push((column@, ">"@, seq![value@])), ..self@ }),
    {
        self.with_value(column, ">", value)
    }

    /// Adds `column < ?`.
    pub fn where_lt(self, column: &str, value: Value) -> (r: Self)
        ensures
            r@ == (SelectModel { conditions: self@.conditions.push((column@, "<"@, seq![value@])), ..self@ }),
    {
        self.with_value(column, "<", value)
    }

    /// Adds `column LIKE ?`.
    pub fn where_like(self, column: &str, value: Value) -> (r: Self)
        ensures
            r@ == (SelectModel { conditions: self@.conditions.push((column@, "LIKE"@, seq![value@])), ..self@ }),
    {
        self.with_value(column, "LIKE", value)
    }

    /// Adds `column IN (?, ..., ?)`, one placeholder per value, with the
    /// values as parameters.
    pub fn where_in(self, column: &str, values: Vec<Value>) -> (r: Self)
        ensures
            r@ == (SelectModel {
                conditions: self@.conditions.push((column@, "IN"@, value_models(values@))),
                ..self@
            }),
            select_clause(r@.conditions.last()) == column@ + " IN ("@ + placeholders(values@.len()) + seq![')'],
            select_params(r@.conditions) == select_params(self@.conditions) + value_models(values@),
    {
        let r = self.with_condition(column, "IN", values);
        assert(r@.conditions.drop_last() =~= self@.conditions);
        r
    }

    /// Adds `column IS NULL`.
    pub fn where_null(self, column: &str) -> (r: Self)
        ensures
            r@ == (SelectModel {
                conditions: self@.conditions.push((column@, "IS"@, Seq::<ValueModel>::empty())),
                ..self@
            }),
    {
        let v: Vec<Value> = Vec::new();
        assert(value_models(v@) =~= Seq::<ValueModel>::empty());
        self.with_condition(column, "IS", v)
    }

    /// Adds `column IS NOT NULL`.
    pub fn where_not_null(self, column: &str) -> (r: Self)
        ensures
            r@ == (SelectModel {
                conditions: self@.conditions.push((column@, "IS NOT"@, Seq::<ValueModel>::empty())),
                ..self@
            }),
    {
        let v: Vec<Value> = Vec::new();
        assert(value_models(v@) =~= Seq::<ValueModel>::empty());
        self.with_condition(column, "IS NOT", v)
    }

    /// Orders by `column` ascending.
    pub fn order_by_asc(self, column: &str) -> (r: Self)
        ensures
            r@ == (SelectModel { order_by: self@.order_by.push((column@, true)), ..self@ }),
    {
        let mut s = self;
        let ghost before = s.order_by@;
        s.order_by.push((copy_str(column), true));
        assert(order_models(s.order_by@) =~= order_models(before).push((column@, true)));
        s
    }

    /// Orders by `column` descending.
    pub fn order_by_desc(self, column: &str) -> (r: Self)
        ensures
            r@ == (SelectModel { order_by: self@.order_by.push((column@, false)), ..self@ }),
    {
        let mut s = self;
        let ghost before = s.order_by@;
        s.order_by.push((copy_str(column), false));
        assert(order_models(s.order_by@) =~= order_models(before).push((column@, false)));
        s
    }

    /// Sets the row limit.
    pub fn limit(self, limit: usize) -> (r: Self)
        ensures
            r@ == (SelectModel { limit: Some(limit), ..self@ }),
    {
        let mut s = self;
        s.limit_val = Some(limit);
        s
    }

    /// Sets the row offset.
    pub fn offset(self, offset: usize) -> (r: Self)
        ensures
            r@ == (SelectModel { offset: Some(offset), ..self@ }),
    {
        let mut s = self;
        s.offset_val = Some(offset);
        s
    }

    fn with_join(self, kind: &str, table: &str, on: &str) -> (r: Self)
        ensures
            r@ == (SelectModel { joins: self@.joins.push(kind@ + table@ + " ON "@ + on@), ..self@ }),
    {
        let mut j = String::from_str(kind);
        push_str(&mut j, table);
        push_str(&mut j, " ON ");
        push_str(&mut j, on);
        let mut s = self;
        let ghost before = s.joins@;
        s.joins.push(j);
        assert(views(s.joins@) =~= views(before).push(j@));
        s
    }

    /// Adds `JOIN <table> ON <on>`.
    pub fn join(self, table: &str, on: &str) -> (r: Self)
        ensures
            r@ == (SelectModel { joins: self@.joins.push("JOIN "@ + table@ + " ON "@ + on@), ..self@ }),
    {
        self.with_join("JOIN ", table, on)
    }

    /// Adds `LEFT JOIN <table> ON <on>`.
    pub fn left_join(self, table: &str, on: &str) -> (r: Self)
        ensures
            r@ == (SelectModel { joins: self@.joins.push("LEFT JOIN "@ + table@ + " ON "@ + on@), ..self@ }),
    {
        self.with_join("LEFT JOIN ", table, on)
    }

    /// Groups by the given columns.
    pub fn group_by(self, columns: &[&str]) -> (r: Self)
        ensures
            r@ == (SelectModel { group_by: str_views(columns@), ..self@ }),
    {
        let mut s = self;
        s.group_by = strs_to_strings(columns);
        s
    }

    /// The statement and its parameters.
    pub fn build(&self) -> (r: (String, Vec<Value>))
        ensures
            r.0@ == select_sql(self@),
            value_models(r.1@) == select_params(self@.conditions),
    {
        let mut sql = String::from_str("SELECT ");
        let cols = join_strings(&self.columns, ", ");
        push_str(&mut sql, cols.as_str());
        push_str(&mut sql, " FROM ");
        push_str(&mut sql, self.table.as_str());
        let ghost head = sql@;
        let mut i: usize = 0;
        while i < self.joins.len()
            invariant
                i <= self.joins.len(),
                sql@ == head + joins_part(views(self.joins@).take(i as int)),
            decreases self.joins.len() - i,
        {
            sql.push(' ');
            push_str(&mut sql, self.joins[i].as_str());
            proof {
                let t = views(self.joins@).take(i + 1);
                assert(t.drop_last() =~= views(self.joins@).take(i as int));
            }
            i += 1;
        }
        assert(views(self.joins@).take(self.joins.len() as int) =~= views(self.joins@));
        let mut params: Vec<Value> = Vec::new();
        let ghost cm = select_conds(self.conditions@);
        let ghost clauses_spec = cm.map_values(|c: SelectCond| select_clause(c));
        if self.conditions.len() > 0 {
            let mut clauses: Vec<String> = Vec::new();
            let mut k: usize = 0;
            while k < self.conditions.len()
                invariant
                    k <= self.conditions.len(),
                    cm == select_conds(self.conditions@),
                    clauses_spec == cm.map_values(|c: SelectCond| select_clause(c)),
                    views(clauses@) == clauses_spec.take(k as int),
                    value_models(params@) == select_params(cm.take(k as int)),
                decreases self.conditions.len() - k,
            {
                let c = &self.conditions[k];
                let ghost cb = clauses@;
                let ghost pb = params@;
                let cl = if str_eq(c.1.as_str(), "IN") {
                    let mut t = c.0.clone();
                    push_str(&mut t, " IN (");
                    let q = placeholders_exec(c.2.len());
                    push_str(&mut t, q.as_str());
                    t.push(')');
                    t
                } else if str_eq(c.1.as_str(), "IS") || str_eq(c.1.as_str(), "IS NOT") {
                    let mut t = c.0.clone();
                    t.push(' ');
                    push_str(&mut t, c.1.as_str());
                    push_str(&mut t, " NULL");
                    t
                } else {
                    placeholder_clause_exec(c.0.as_str(), c.1.as_str())
                };
                let vals = &c.2;
                let mut m: usize = 0;
                while m < vals.len()
                    invariant
                        m <= vals.len(),
                        value_models(params@) == value_models(pb) + value_models(vals@).take(m as int),
                    decreases vals.len() - m,
                {
                    let ghost b = params@;
                    let x = vals[m].copy();
                    params.push(x);
                    assert(value_models(params@) =~= value_models(b).push(x@));
                    assert(value_models(vals@).take(m + 1) =~= value_models(vals@).take(m as int).push(
                        vals@[m as int]@,
                    ));
                    m += 1;
                }
                clauses.push(cl);
                proof {
                    assert(value_models(vals@).take(vals.len() as int) =~= value_models(vals@));
                    assert(cm[k as int] == (c.0@, c.1@, value_models(c.2@)));
                    assert(cl@ =~= select_clause(cm[k as int]));
                    assert(views(clauses@) =~= views(cb).push(cl@));
                    assert(clauses_spec.take(k + 1) =~= clauses_spec.take(k as int).push(clauses_spec[k as int]));
                    let t = cm.take(k + 1);
                    assert(t.drop_last() =~= cm.take(k as int));
                }
                k += 1;
            }
            assert(clauses_spec.take(self.conditions.len() as int) =~= clauses_spec);
            assert(cm.take(self.conditions.len() as int) =~= cm);
            push_str(&mut sql, " WHERE ");
            let j = join_strings(&clauses, " AND ");
            push_str(&mut sql, j.as_str());
        } else {
            assert(cm =~= Seq::<SelectCond>::empty());
            assert(value_models(params@) =~= select_params(cm));
        }
        let ghost after_where = sql@;
        assert(after_where =~= head + joins_part(views(self.joins@)) + where_part(clauses_spec));
        if self.group_by.len() > 0 {
            push_str(&mut sql, " GROUP BY ");
            let g = join_strings(&self.group_by, ", ");
            push_str(&mut sql, g.as_str());
        }
        assert(sql@ =~= after_where + group_part(views(self.group_by@)));
        push_order(&mut sql, &self.order_by);
        push_keyword_number(&mut sql, " LIMIT ", self.limit_val);
        push_keyword_number(&mut sql, " OFFSET ", self.offset_val);
        assert(sql@ =~= select_sql(self@));
        (sql, params)
    }
}

/// No question mark in the digits of a number.
proof fn lemma_decimal_count(n: nat)
    ensures
        count_char(spec_decimal(n), '?') == 0,
    decreases n,
{
    if n < 10 {
        let d = seq![digit_char(n)];
        assert(d.drop_last().len() == 0);
        assert(count_char(d.drop_last(), '?') == 0);
    } else {
        lemma_decimal_count(n / 10);
        let s = spec_decimal(n / 10).push(digit_char(n % 10));
        assert(s.drop_last() =~= spec_decimal(n / 10));
    }
}

/// The sum of the counts of `c` in `parts`.
pub open spec fn sum_counts(parts: Seq<Seq<char>>, c: char) -> nat
    decreases parts.len(),
{
    if parts.len() == 0 {
        0
    } else {
        sum_counts(parts.drop_last(), c) + count_char(parts.last(), c)
    }
}

/// Joining with a separator that holds no `c` counts the `c`s of the parts.
pub proof fn lemma_join_count(parts: Seq<Seq<char>>, sep: Seq<char>, c: char)
    requires
        count_char(sep, c) == 0,
    ensures
        count_char(spec_join(parts, sep), c) == sum_counts(parts, c),
    decreases parts.len(),
{
    if parts.len() > 1 {
        let front = parts.drop_last();
        lemma_join_count(front, sep, c);
        lemma_count_concat(spec_join(front, sep), sep, c);
        lemma_count_concat(spec_join(front, sep) + sep, parts.last(), c);
    } else if parts.len() == 1 {
        assert(parts.drop_last().len() == 0);
        assert(sum_counts(parts.drop_last(), c) == 0);
    }
}

/// A condition whose column and operator hold no question mark and that
/// has as many values as its operator takes: any number for `IN`, none for
/// `IS` and `IS NOT`, one otherwise. Every condition method makes such a
/// condition from a column without question marks.
pub open spec fn cond_plain(c: SelectCond) -> bool {
    &&& count_char(c.0, '?') == 0
    &&& count_char(c.1, '?') == 0
    &&& if c.1 == "IN"@ {
        true
    } else if is_null_op(c.1) {
        c.2.len() == 0
    } else {
        c.2.len() == 1
    }
}

/// A `SELECT` whose names and texts hold no question mark and whose
/// conditions are plain.
pub open spec fn select_plain(m: SelectModel) -> bool {
    &&& count_char(m.table, '?') == 0
    &&& forall|i: int| 0 <= i < m.columns.len() ==> count_char(#[trigger] m.columns[i], '?') == 0
    &&& forall|i: int| 0 <= i < m.joins.len() ==> count_char(#[trigger] m.joins[i], '?') == 0
    &&& forall|i: int| 0 <= i < m.group_by.len() ==> count_char(#[trigger] m.group_by[i], '?') == 0
    &&& forall|i: int| 0 <= i < m.order_by.len() ==> count_char(#[trigger] m.order_by[i].0, '?') == 0
    &&& forall|i: int| 0 <= i < m.conditions.len() ==> cond_plain(#[trigger] m.conditions[i])
}

proof fn lemma_clause_count(c: SelectCond)
    requires
        cond_plain(c),
    ensures
        count_char(select_clause(c), '?') == c.2.len(),
{
    reveal_strlit(" IN (");
    reveal_strlit(" NULL");
    reveal_strlit(" ?");
    lemma_count_none(" IN ("@, '?');
    lemma_count_none(" NULL"@, '?');
    lemma_count_none(seq![' '], '?');
    lemma_count_none(seq![')'], '?');
    assert(count_char(" ?"@, '?') == 1) by {
        let t = " ?"@;
        assert(t.drop_last() =~= seq![' ']);
    }
    if c.1 == "IN"@ {
        lemma_placeholder_count(c.2.len());
        lemma_count_concat(c.0, " IN ("@, '?');
        lemma_count_concat(c.0 + " IN ("@, placeholders(c.2.len()), '?');
        lemma_count_concat(c.0 + " IN ("@ + placeholders(c.2.len()), seq![')'], '?');
    } else {
        lemma_count_concat(c.0, seq![' '], '?');
        lemma_count_concat(c.0 + seq![' '], c.1, '?');
        if is_null_op(c.1) {
            lemma_count_concat(c.0 + seq![' '] + c.1, " NULL"@, '?');
        } else {
            lemma_count_concat(c.0 + seq![' '] + c.1, " ?"@, '?');
        }
    }
}

proof fn lemma_where_count(conds: Seq<SelectCond>)
    requires
        forall|i: int| 0 <= i < conds.len() ==> cond_plain(#[trigger] conds[i]),
    ensures
        sum_counts(conds.map_values(|c: SelectCond| select_clause(c)), '?') == select_params(conds).len(),
    decreases conds.len(),
{
    if conds.len() > 0 {
        let front = conds.drop_last();
        assert forall|i: int| 0 <= i < front.len() implies cond_plain(#[trigger] front[i]) by {
            assert(front[i] == conds[i]);
        }
        lemma_where_count(front);
        let m = conds.map_values(|c: SelectCond| select_clause(c));
        assert(m.drop_last() =~= front.map_values(|c: SelectCond| select_clause(c)));
        lemma_clause_count(conds.last());
    }
}

proof fn lemma_joins_count(joins: Seq<Seq<char>>)
    requires
        forall|i: int| 0 <= i < joins.len() ==> count_char(#[trigger] joins[i], '?') == 0,
    ensures
        count_char(joins_part(joins), '?') == 0,
    decreases joins.len(),
{
    if joins.len() > 0 {
        let front = joins.drop_last();
        assert forall|i: int| 0 <= i < front.len() implies count_char(#[trigger] front[i], '?') == 0 by {
            assert(front[i] == joins[i]);
        }
        lemma_joins_count(front);
        lemma_count_none(seq![' '], '?');
        lemma_count_concat(joins_part(front), seq![' '], '?');
        lemma_count_concat(joins_part(front) + seq![' '], joins.last(), '?');
    } else {
        lemma_count_none(joins_part(joins), '?');
    }
}

/// A plain `SELECT` has exactly one placeholder per parameter that
/// [`SelectBuilder::build`] gives: every value goes through a `?`.
pub proof fn law_select_placeholders(m: SelectModel)
    requires
        select_plain(m),
    ensures
        count_char(select_sql(m), '?') == select_params(m.conditions).len(),
{
    reveal_strlit("SELECT ");
    reveal_strlit(" FROM ");
    reveal_strlit(", ");
    reveal_strlit(" WHERE ");
    reveal_strlit(" AND ");
    reveal_strlit(" GROUP BY ");
    reveal_strlit(" ORDER BY ");
    reveal_strlit(" ASC");
    reveal_strlit(" DESC");
    reveal_strlit(" LIMIT ");
    reveal_strlit(" OFFSET ");
    lemma_count_none("SELECT "@, '?');
    lemma_count_none(" FROM "@, '?');
    lemma_count_none(", "@, '?');
    lemma_count_none(" WHERE "@, '?');
    lemma_count_none(" AND "@, '?');
    lemma_count_none(" GROUP BY "@, '?');
    lemma_count_none(" ORDER BY "@, '?');
    lemma_count_none(" ASC"@, '?');
    lemma_count_none(" DESC"@, '?');
    lemma_count_none(" LIMIT "@, '?');
    lemma_count_none(" OFFSET "@, '?');
    lemma_count_none(Seq::<char>::empty(), '?');
    let cols = spec_join(m.columns, ", "@);
    lemma_join_count_zero(m.columns, ", "@, '?');
    lemma_joins_count(m.joins);
    let clauses = m.conditions.map_values(|c: SelectCond| select_clause(c));
    lemma_where_count(m.conditions);
    lemma_join_count(clauses, " AND "@, '?');
    let wp = where_part(clauses);
    if clauses.len() > 0 {
        lemma_count_concat(" WHERE "@, spec_join(clauses, " AND "@), '?');
    } else {
        assert(select_params(m.conditions).len() == 0) by {
            assert(m.conditions.len() == 0);
        }
    }
    let gp = group_part(m.group_by);
    lemma_join_count_zero(m.group_by, ", "@, '?');
    if m.group_by.len() > 0 {
        lemma_count_concat(" GROUP BY "@, spec_join(m.group_by, ", "@), '?');
    }
    let items = m.order_by.map_values(|o: (Seq<char>, bool)| order_item(o));
    assert forall|i: int| 0 <= i < items.len() implies count_char(#[trigger] items[i], '?') == 0 by {
        let o = m.order_by[i];
        if o.1 {
            lemma_count_concat(o.0, " ASC"@, '?');
        } else {
            lemma_count_concat(o.0, " DESC"@, '?');
        }
    }
    lemma_join_count_zero(items, ", "@, '?');
    let op = order_part(m.order_by);
    if m.order_by.len() > 0 {
        lemma_count_concat(" ORDER BY "@, spec_join(items, ", "@), '?');
    }
    let lp = limit_part(m.limit);
    let fp = offset_part(m.offset);
    match m.limit {
        Some(n) => {
            lemma_decimal_count(n as nat);
            lemma_count_concat(" LIMIT "@, spec_decimal(n as nat), '?');
        },
        None => {},
    }
    match m.offset {
        Some(n) => {
            lemma_decimal_count(n as nat);
            lemma_count_concat(" OFFSET "@, spec_decimal(n as nat), '?');
        },
        None => {},
    }
    let a = "SELECT "@ + cols;
    lemma_count_concat("SELECT "@, cols, '?');
    lemma_count_concat(a, " FROM "@, '?');
    lemma_count_concat(a + " FROM "@, m.table, '?');
    lemma_count_concat(a + " FROM "@ + m.table, joins_part(m.joins), '?');
    let b = a + " FROM "@ + m.table + joins_part(m.joins);
    lemma_count_concat(b, wp, '?');
    lemma_count_concat(b + wp, gp, '?');
    lemma_count_concat(b + wp + gp, op, '?');
    lemma_count_concat(b + wp + gp + op, lp, '?');
    lemma_count_concat(b + wp + gp + op + lp, fp, '?');
}

} // verus!
