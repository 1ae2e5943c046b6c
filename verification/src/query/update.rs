//! `UPDATE` statement builder.
use vstd::prelude::*;
use super::insert::{count_char, lemma_count_concat, lemma_count_none};
use super::select::lemma_join_count;
use super::common::{cond_plain_text, lemma_where_placeholders, CondModel, cond_models, value_models, placeholder_clauses, cond_values, where_part, push_placeholder_where};
use crate::text::{copy_str, push_str, join_strings, spec_join, views};
use crate::types::value::{Value, ValueModel};

verus! {

/// The model of an [`UpdateBuilder`].
pub struct UpdateModel {
    pub table: Seq<char>,
    pub sets: Seq<(Seq<char>, ValueModel)>,
    pub conditions: Seq<CondModel>,
}

/// Builds an `UPDATE` statement.
pub struct UpdateBuilder {
    table: String,
    sets: Vec<(String, Value)>,
    conditions: Vec<(String, String, Value)>,
}

pub open spec fn set_models(v: Seq<(String, Value)>) -> Seq<(Seq<char>, ValueModel)> {
    v.map_values(|s: (String, Value)| (s.0@, s.1@))
}

impl View for UpdateBuilder {
    type V = UpdateModel;

    closed spec fn view(&self) -> UpdateModel {
        UpdateModel {
            table: self.table@,
            sets: set_models(self.sets@),
            conditions: cond_models(self.conditions@),
        }
    }
}

/// `" SET a = ?, b = ?"` when there are assignments, else nothing.
pub open spec fn set_part(sets: Seq<(Seq<char>, ValueModel)>) -> Seq<char> {
    if sets.len() == 0 {
        Seq::empty()
    } else {
        " SET "@ + spec_join(sets.map_values(|s: (Seq<char>, ValueModel)| s.0 + " = ?"@), ", "@)
    }
}

/// The statement an [`UpdateBuilder`] builds.
pub open spec fn update_sql(m: UpdateModel) -> Seq<char> {
    "UPDATE "@ + m.table + set_part(m.sets) + where_part(placeholder_clauses(m.conditions))
}

/// Its parameters: the assigned values, then the conditions' values.
pub open spec fn update_params(m: UpdateModel) -> Seq<ValueModel> {
    m.sets.map_values(|s: (Seq<char>, ValueModel)| s.1) + cond_values(m.conditions)
}

impl UpdateBuilder {
    /// `UPDATE <table>` with no assignments and no conditions.
    pub fn new(table: &str) -> (r: Self)
        ensures
            r@ == (UpdateModel { table: table@, sets: Seq::empty(), conditions: Seq::empty() }),
    {
        let r = UpdateBuilder { table: copy_str(table), sets: Vec::new(), conditions: Vec::new() };
        assert(cond_models(r.conditions@) =~= Seq::empty());
        assert(set_models(r.sets@) =~= Seq::empty());
        r
    }

    /// Adds `column = ?` to the assignments.
    pub fn set(self, column: &str, value: Value) -> (r: Self)
        ensures
            r@ == (UpdateModel { sets: self@.sets.push((column@, value@)), ..self@ }),
    {
        let mut s = self;
        let ghost before = s.sets@;
        s.sets.push((copy_str(column), value));
        assert(set_models(s.sets@) =~= set_models(before).push((column@, value@)));
        s
    }

    fn with_condition(self, column: &str, op: &str, value: Value) -> (r: Self)
        ensures
            r@ == (UpdateModel { conditions: self@.conditions.push((column@, op@, value@)), ..self@ }),
    {
        let mut s = self;
        let ghost before = s.conditions@;
        s.conditions.push((copy_str(column), String::from_str(op), value));
        assert(cond_models(s.conditions@) =~= cond_models(before).push((column@, op@, value@)));
        s
    }

    /// Adds the condition `column = ?`.
    pub fn where_eq(self, column: &str, value: Value) -> (r: Self)
        ensures
            r@ == (UpdateModel { conditions: self@.conditions.push((column@, "="@, value@)), ..self@ }),
    {
        self.with_condition(column, "=", value)
    }

    /// Adds the condition `column != ?`.
    pub fn where_ne(self, column: &str, value: Value) -> (r: Self)
        ensures
            r@ == (UpdateModel { conditions: self@.conditions.push((column@, "!="@, value@)), ..self@ }),
    {
        self.with_condition(column, "!=", value)
    }

    /// The statement and its parameters.
    pub fn build(&self) -> (r: (String, Vec<Value>))
        ensures
            r.0@ == update_sql(self@),
            value_models(r.1@) == update_params(self@),
    {
        let mut sql = String::from_str("UPDATE ");
        push_str(&mut sql, self.table.as_str());
        let mut params: Vec<Value> = Vec::new();
        let ghost sm = set_models(self.sets@);
        let ghost items = sm.map_values(|s: (Seq<char>, ValueModel)| s.0 + " = ?"@);
        let ghost vals = sm.map_values(|s: (Seq<char>, ValueModel)| s.1);
        if self.sets.len() > 0 {
            let mut parts: Vec<String> = Vec::new();
            let mut i: usize = 0;
            while i < self.sets.len()
                invariant
                    i <= self.sets.len(),
                    sm == set_models(self.sets@),
                    items == sm.map_values(|s: (Seq<char>, ValueModel)| s.0 + " = ?"@),
                    vals == sm.map_values(|s: (Seq<char>, ValueModel)| s.1),
                    views(parts@) == items.take(i as int),
                    value_models(params@) == vals.take(i as int),
                decreases self.sets.len() - i,
            {
                let mut p = self.sets[i].0.clone();
                push_str(&mut p, " = ?");
                let v = self.sets[i].1.copy();
                let ghost pb = parts@;
                let ghost vb = params@;
                parts.push(p);
                params.push(v);
                proof {
                    assert(sm[i as int] == (self.sets@[i as int].0@, self.sets@[i as int].1@));
                    assert(views(parts@) =~= views(pb).push(p@));
                    assert(items.take(i + 1) =~= items.take(i as int).push(items[i as int]));
                    assert(value_models(params@) =~= value_models(vb).push(v@));
                    assert(vals.take(i + 1) =~= vals.take(i as int).push(vals[i as int]));
                }
                i += 1;
            }
            assert(items.take(self.sets.len() as int) =~= items);
            assert(vals.take(self.sets.len() as int) =~= vals);
            push_str(&mut sql, " SET ");
            let j = join_strings(&parts, ", ");
            push_str(&mut sql, j.as_str());
        } else {
            assert(vals =~= Seq::<ValueModel>::empty());
            assert(value_models(params@) =~= vals);
        }
        assert(sql@ =~= "UPDATE "@ + self.table@ + set_part(sm));
        push_placeholder_where(&mut sql, &mut params, &self.conditions);
        assert(sql@ =~= update_sql(self@));
        assert(value_models(params@) =~= update_params(self@));
        (sql, params)
    }
}

/// An `UPDATE` whose table name, assigned columns and conditions hold no
/// question mark has exactly one placeholder per parameter that
/// [`UpdateBuilder::build`] gives: one per assigned value, then one per
/// condition.
pub proof fn law_update_placeholders(m: UpdateModel)
    requires
        count_char(m.table, '?') == 0,
        forall|i: int| 0 <= i < m.sets.len() ==> count_char(#[trigger] m.sets[i].0, '?') == 0,
        forall|i: int| 0 <= i < m.conditions.len() ==> cond_plain_text(#[trigger] m.conditions[i]),
    ensures
        count_char(update_sql(m), '?') == update_params(m).len(),
{
    reveal_strlit("UPDATE ");
    reveal_strlit(" SET ");
    reveal_strlit(", ");
    lemma_count_none("UPDATE "@, '?');
    lemma_count_none(" SET "@, '?');
    lemma_count_none(", "@, '?');
    lemma_where_placeholders(m.conditions);
    lemma_set_items_count(m.sets);
    let items = m.sets.map_values(|s: (Seq<char>, ValueModel)| s.0 + " = ?"@);
    lemma_join_count(items, ", "@, '?');
    if m.sets.len() > 0 {
        lemma_count_concat(" SET "@, spec_join(items, ", "@), '?');
    } else {
        lemma_count_none(set_part(m.sets), '?');
    }
    lemma_count_concat("UPDATE "@, m.table, '?');
    lemma_count_concat("UPDATE "@ + m.table, set_part(m.sets), '?');
    lemma_count_concat("UPDATE "@ + m.table + set_part(m.sets), where_part(placeholder_clauses(m.conditions)), '?');
}

proof fn lemma_set_items_count(sets: Seq<(Seq<char>, ValueModel)>)
    requires
        forall|i: int| 0 <= i < sets.len() ==> count_char(#[trigger] sets[i].0, '?') == 0,
    ensures
        crate::query::select::sum_counts(sets.map_values(|s: (Seq<char>, ValueModel)| s.0 + " = ?"@), '?')
            == sets.len(),
    decreases sets.len(),
{
    if sets.len() > 0 {
        let front = sets.drop_last();
        assert forall|i: int| 0 <= i < front.len() implies count_char(#[trigger] front[i].0, '?') == 0 by {
            assert(front[i] == sets[i]);
        }
        lemma_set_items_count(front);
        let items = sets.map_values(|s: (Seq<char>, ValueModel)| s.0 + " = ?"@);
        assert(items.drop_last() =~= front.map_values(|s: (Seq<char>, ValueModel)| s.0 + " = ?"@));
        reveal_strlit(" = ?");
        assert(count_char(" = ?"@, '?') == 1) by {
            let t = " = ?"@;
            assert(t.drop_last() =~= seq![' ', '=', ' ']);
            lemma_count_none(seq![' ', '=', ' '], '?');
        }
        lemma_count_concat(sets.last().0, " = ?"@, '?');
    }
}

} // verus!
