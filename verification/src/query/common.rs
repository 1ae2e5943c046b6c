//! Pieces shared by the statement builders.
use vstd::prelude::*;
use crate::text::{copy_str, push_str, join_strings, spec_join, views};
use crate::types::value::{Value, ValueModel};
use super::insert::{count_char, lemma_count_concat, lemma_count_none};
use super::select::{sum_counts, lemma_join_count};

verus! {

/// The views of a slice of string slices.
pub open spec fn str_views(v: Seq<&str>) -> Seq<Seq<char>> {
    v.map_values(|s: &str| s@)
}

/// The models of a sequence of values.
pub open spec fn value_models(v: Seq<Value>) -> Seq<ValueModel> {
    v.map_values(|x: Value| x@)
}

/// Owned copies of the given strings.
pub fn strs_to_strings(cols: &[&str]) -> (r: Vec<String>)
    ensures
        views(r@) == str_views(cols@),
{
    let mut r: Vec<String> = Vec::new();
    let mut i: usize = 0;
    while i < cols.len()
        invariant
            i <= cols.len(),
            views(r@) == str_views(cols@).take(i as int),
        decreases cols.len() - i,
    {
        let ghost before = r@;
        let c = copy_str(cols[i]);
        r.push(c);
        assert(views(r@) =~= views(before).push(c@));
        assert(str_views(cols@).take(i + 1) =~= str_views(cols@).take(i as int).push(cols@[i as int]@));
        i += 1;
    }
    assert(str_views(cols@).take(cols.len() as int) =~= str_views(cols@));
    r
}

/// A condition `(column, operator, value)`.
pub type CondModel = (Seq<char>, Seq<char>, ValueModel);

/// The model of a list of conditions.
pub open spec fn cond_models(v: Seq<(String, String, Value)>) -> Seq<CondModel> {
    v.map_values(|c: (String, String, Value)| (c.0@, c.1@, c.2@))
}

/// `"<column> <op> ?"`.
pub open spec fn placeholder_clause(c: CondModel) -> Seq<char> {
    c.0 + seq![' '] + c.1 + " ?"@
}

/// `"<column> <op> ?"`.
pub fn placeholder_clause_exec(col: &str, op: &str) -> (r: String)
    ensures
        r@ == col@ + seq![' '] + op@ + " ?"@,
{
    let mut s = copy_str(col);
    s.push(' ');
    push_str(&mut s, op);
    push_str(&mut s, " ?");
    s
}

/// The placeholder clauses of every condition.
pub open spec fn placeholder_clauses(conds: Seq<CondModel>) -> Seq<Seq<char>> {
    conds.map_values(|c: CondModel| placeholder_clause(c))
}

/// The values of every condition, in order.
pub open spec fn cond_values(conds: Seq<CondModel>) -> Seq<ValueModel> {
    conds.map_values(|c: CondModel| c.2)
}

/// `" WHERE <c1> AND <c2> ..."` when there are conditions, else nothing.
pub open spec fn where_part(clauses: Seq<Seq<char>>) -> Seq<char> {
    if clauses.len() == 0 { Seq::empty() } else { " WHERE "@ + spec_join(clauses, " AND "@) }
}

/// Appends the placeholder form of every condition as a `WHERE` part, and
/// pushes their values onto `params`.
pub fn push_placeholder_where(
    sql: &mut String,
    params: &mut Vec<Value>,
    conds: &Vec<(String, String, Value)>,
)
    ensures
        final(sql)@ == old(sql)@ + where_part(placeholder_clauses(cond_models(conds@))),
        value_models(final(params)@) == value_models(old(params)@) + cond_values(cond_models(conds@)),
{
    if conds.len() == 0 {
        assert(sql@ =~= old(sql)@ + where_part(placeholder_clauses(cond_models(conds@))));
        assert(value_models(params@) =~= value_models(old(params)@) + cond_values(cond_models(conds@)));
        return;
    }
    let ghost cm = cond_models(conds@);
    let mut clauses: Vec<String> = Vec::new();
    let mut i: usize = 0;
    while i < conds.len()
        invariant
            i <= conds.len(),
            cm == cond_models(conds@),
            views(clauses@) == placeholder_clauses(cm).take(i as int),
            value_models(params@) == value_models(old(params)@) + cond_values(cm).take(i as int),
        decreases conds.len() - i,
    {
        let c = &conds[i];
        let ghost cb = clauses@;
        let ghost pb = params@;
        let cl = placeholder_clause_exec(c.0.as_str(), c.1.as_str());
        let v = c.2.copy();
        clauses.push(cl);
        params.push(v);
        proof {
            assert(cm[i as int] == (c.0@, c.1@, c.2@));
            assert(views(clauses@) =~= views(cb).push(cl@));
            assert(placeholder_clauses(cm).take(i + 1) =~= placeholder_clauses(cm).take(i as int).push(
                placeholder_clause(cm[i as int]),
            ));
            assert(value_models(params@) =~= value_models(pb).push(v@));
            assert(cond_values(cm).take(i + 1) =~= cond_values(cm).take(i as int).push(cm[i as int].2));
        }
        i += 1;
    }
    assert(placeholder_clauses(cm).take(conds.len() as int) =~= placeholder_clauses(cm));
    assert(cond_values(cm).take(conds.len() as int) =~= cond_values(cm));
    push_str(sql, " WHERE ");
    let j = join_strings(&clauses, " AND ");
    push_str(sql, j.as_str());
    assert(sql@ =~= old(sql)@ + where_part(placeholder_clauses(cm)));
}

/// A condition whose column and operator hold no question mark.
pub open spec fn cond_plain_text(c: CondModel) -> bool {
    count_char(c.0, '?') == 0 && count_char(c.1, '?') == 0
}

/// Each placeholder clause holds exactly one question mark, so a `WHERE`
/// part of plain conditions holds one per condition.
pub proof fn lemma_where_placeholders(conds: Seq<CondModel>)
    requires
        forall|i: int| 0 <= i < conds.len() ==> cond_plain_text(#[trigger] conds[i]),
    ensures
        count_char(where_part(placeholder_clauses(conds)), '?') == conds.len(),
        sum_counts(placeholder_clauses(conds), '?') == conds.len(),
    decreases conds.len(),
{
    reveal_strlit(" ?");
    reveal_strlit(" WHERE ");
    reveal_strlit(" AND ");
    lemma_count_none(" WHERE "@, '?');
    lemma_count_none(" AND "@, '?');
    if conds.len() > 0 {
        let front = conds.drop_last();
        assert forall|i: int| 0 <= i < front.len() implies cond_plain_text(#[trigger] front[i]) by {
            assert(front[i] == conds[i]);
        }
        lemma_where_placeholders(front);
        assert(placeholder_clauses(conds).drop_last() =~= placeholder_clauses(front));
        let c = conds.last();
        assert(cond_plain_text(c));
        lemma_count_none(seq![' '], '?');
        assert(count_char(" ?"@, '?') == 1) by {
            assert(" ?"@.drop_last() =~= seq![' ']);
        }
        lemma_count_concat(c.0, seq![' '], '?');
        lemma_count_concat(c.0 + seq![' '], c.1, '?');
        lemma_count_concat(c.0 + seq![' '] + c.1, " ?"@, '?');
        assert(placeholder_clauses(conds).last() == placeholder_clause(c));
        lemma_join_count(placeholder_clauses(conds), " AND "@, '?');
        lemma_count_concat(" WHERE "@, spec_join(placeholder_clauses(conds), " AND "@), '?');
    } else {
        lemma_count_none(where_part(placeholder_clauses(conds)), '?');
    }
}

} // verus!
