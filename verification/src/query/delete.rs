//! `DELETE` statement builder.
use vstd::prelude::*;
use super::insert::{count_char, lemma_count_concat, lemma_count_none};
use super::common::{cond_plain_text, lemma_where_placeholders, CondModel, cond_models, value_models, placeholder_clauses, cond_values, where_part, push_placeholder_where};
use crate::text::copy_str;
use crate::types::value::Value;

verus! {

/// The model of a [`DeleteBuilder`].
pub struct DeleteModel {
    pub table: Seq<char>,
    pub conditions: Seq<CondModel>,
}

/// Builds a `DELETE` statement.
pub struct DeleteBuilder {
    table: String,
    conditions: Vec<(String, String, Value)>,
}

impl View for DeleteBuilder {
    type V = DeleteModel;

    closed spec fn view(&self) -> DeleteModel {
        DeleteModel { table: self.table@, conditions: cond_models(self.conditions@) }
    }
}

/// The statement a [`DeleteBuilder`] builds.
pub open spec fn delete_sql(m: DeleteModel) -> Seq<char> {
    "DELETE FROM "@ + m.table + where_part(placeholder_clauses(m.conditions))
}

impl DeleteBuilder {
    /// `DELETE FROM <table>` with no conditions.
    pub fn new(table: &str) -> (r: Self)
        ensures
            r@ == (DeleteModel { table: table@, conditions: Seq::empty() }),
    {
        let r = DeleteBuilder { table: copy_str(table), conditions: Vec::new() };
        assert(cond_models(r.conditions@) =~= Seq::empty());
        r
    }

    fn with_condition(self, column: &str, op: &str, value: Value) -> (r: Self)
        ensures
            r@ == (DeleteModel { conditions: self@.conditions.push((column@, op@, value@)), ..self@ }),
    {
        let mut s = self;
        let ghost before = s.conditions@;
        s.conditions.push((copy_str(column), String::from_str(op), value));
        assert(cond_models(s.conditions@) =~= cond_models(before).push((column@, op@, value@)));
        s
    }

    /// Adds `column = ?`.
    pub fn where_eq(self, column: &str, value: Value) -> (r: Self)
        ensures
            r@ == (DeleteModel { conditions: self@.conditions.push((column@, "="@, value@)), ..self@ }),
    {
        self.with_condition(column, "=", value)
    }

    /// Adds `column != ?`.
    pub fn where_ne(self, column: &str, value: Value) -> (r: Self)
        ensures
            r@ == (DeleteModel { conditions: self@.conditions.push((column@, "!="@, value@)), ..self@ }),
    {
        self.with_condition(column, "!=", value)
    }

    /// Adds `column > ?`.
    pub fn where_gt(self, column: &str, value: Value) -> (r: Self)
        ensures
            r@ == (DeleteModel { conditions: self@.conditions.push((column@, ">"@, value@)), ..self@ }),
    {
        self.with_condition(column, ">", value)
    }

    /// Adds `column < ?`.
    pub fn where_lt(self, column: &str, value: Value) -> (r: Self)
        ensures
            r@ == (DeleteModel { conditions: self@.conditions.push((column@, "<"@, value@)), ..self@ }),
    {
        self.with_condition(column, "<", value)
    }

    /// The statement and its parameters (the conditions' values, in order).
    pub fn build(&self) -> (r: (String, Vec<Value>))
        ensures
            r.0@ == delete_sql(self@),
            value_models(r.1@) == cond_values(self@.conditions),
    {
        let mut sql = String::from_str("DELETE FROM ");
        sql.append(self.table.as_str());
        let mut params: Vec<Value> = Vec::new();
        assert(value_models(params@) =~= Seq::empty());
        push_placeholder_where(&mut sql, &mut params, &self.conditions);
        assert(value_models(params@) =~= cond_values(self@.conditions));
        (sql, params)
    }
}

/// A `DELETE` whose table name and conditions hold no question mark has
/// exactly one placeholder per parameter that [`DeleteBuilder::build`]
/// gives; so a `DELETE` with conditions is never the bare `DELETE FROM`
/// of its table, which would remove every row.
pub proof fn law_delete_placeholders(m: DeleteModel)
    requires
        count_char(m.table, '?') == 0,
        forall|i: int| 0 <= i < m.conditions.len() ==> cond_plain_text(#[trigger] m.conditions[i]),
    ensures
        count_char(delete_sql(m), '?') == cond_values(m.conditions).len(),
        m.conditions.len() > 0 ==> delete_sql(m) != "DELETE FROM "@ + m.table,
{
    reveal_strlit("DELETE FROM ");
    lemma_count_none("DELETE FROM "@, '?');
    lemma_where_placeholders(m.conditions);
    lemma_count_concat("DELETE FROM "@, m.table, '?');
    lemma_count_concat("DELETE FROM "@ + m.table, where_part(placeholder_clauses(m.conditions)), '?');
}

} // verus!
