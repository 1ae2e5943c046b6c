//! Laws of reading an answer message by message: reading it in two pieces
//! gives what reading it whole gives, so a reader may hand the messages in
//! as they arrive.
use vstd::prelude::*;
use super::pg::{PgQueryModel, PgStepModel, spec_run};
use super::myproto::{MyQueryModel, MyStepModel, spec_my_run};

verus! {

/// Reading the PostgreSQL messages `a` then `b` from `st` gives what reading
/// `a + b` gives: once `a` has ended the answer, `b` is not read.
pub proof fn lemma_pg_run_split(st: PgQueryModel, a: Seq<(u8, Seq<u8>)>, b: Seq<(u8, Seq<u8>)>)
    ensures
        spec_run(st, a + b) == (match spec_run(st, a) {
            PgStepModel::Continue(next) => spec_run(next, b),
            other => other,
        }),
    decreases a.len(),
{
    if a.len() == 0 {
        assert(a + b =~= b);
    } else {
        assert((a + b)[0] == a[0]);
        assert((a + b).drop_first() =~= a.drop_first() + b);
        match super::pg::spec_query_step(st, a[0].0, a[0].1) {
            PgStepModel::Continue(next) => {
                lemma_pg_run_split(next, a.drop_first(), b);
            },
            _ => {},
        }
    }
}

/// Reading the MySQL packets `a` then `b` from `st` gives what reading
/// `a + b` gives: once `a` has ended the answer, `b` is not read.
pub proof fn lemma_my_run_split(st: MyQueryModel, a: Seq<Seq<u8>>, b: Seq<Seq<u8>>)
    ensures
        spec_my_run(st, a + b) == (match spec_my_run(st, a) {
            MyStepModel::Continue(next) => spec_my_run(next, b),
            other => other,
        }),
    decreases a.len(),
{
    if a.len() == 0 {
        assert(a + b =~= b);
    } else {
        assert((a + b)[0] == a[0]);
        assert((a + b).drop_first() =~= a.drop_first() + b);
        match super::myproto::spec_my_step(st, a[0]) {
            MyStepModel::Continue(next) => {
                lemma_my_run_split(next, a.drop_first(), b);
            },
            _ => {},
        }
    }
}

} // verus!
