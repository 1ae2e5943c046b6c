//! A transaction with the query builder's chainable interface.
//!
//! A transaction is active from [`Transaction::begin`] until it is committed
//! or rolled back. [`Transaction::end`] rolls back a transaction that is
//! still active; a transaction should be ended that way when it is given up
//! without a commit.
use vstd::prelude::*;
use crate::driver::{DatabaseDriver, DriverCall, ParamModel, QueryResult, SqliteDriver};
use crate::error::Error;
use crate::orm::injection::{is_identifier, identifier_message, refused, has_injection, injection_message};
use crate::orm::model::Model;
use crate::orm::query::{
    QueryBuilder, ChainModel, empty_chain, chain_select_sql, chain_params, chain_where, model_conditions,
    value_param, insert_statement, insert_columns, insert_values, WhereModel, one_more, models_of_answer,
    first_of_answer, spec_count, with_rejection,
};
use crate::query::insert::placeholders;
use crate::text::spec_join;
use crate::types::value::{Value, ValueModel};

verus! {

/// What a transaction was asked to do, with whether the call returned `Ok`.
pub enum TxEvent {
    Commit(bool),
    Rollback(bool),
    End,
}

/// Whether a transaction is still active after `e`, from `active`.
pub open spec fn tx_next(active: bool, e: TxEvent) -> bool {
    match e {
        TxEvent::Commit(ok) => active && !ok,
        TxEvent::Rollback(ok) => active && !ok,
        TxEvent::End => false,
    }
}

/// The commands `e` hands the driver, from `active`: an inactive
/// transaction hands it none.
pub open spec fn tx_calls(active: bool, e: TxEvent) -> Seq<DriverCall> {
    if !active {
        Seq::empty()
    } else {
        match e {
            TxEvent::Commit(_) => seq![DriverCall::Commit],
            TxEvent::Rollback(_) => seq![DriverCall::Rollback],
            TxEvent::End => seq![DriverCall::Rollback],
        }
    }
}

/// Whether a transaction is still active after the events `es`, from
/// `active`.
pub open spec fn tx_run(active: bool, es: Seq<TxEvent>) -> bool
    decreases es.len(),
{
    if es.len() == 0 {
        active
    } else {
        tx_next(tx_run(active, es.drop_last()), es.last())
    }
}

/// `e` finishes a transaction: a commit or rollback that returned `Ok`, or
/// its end.
pub open spec fn settles(e: TxEvent) -> bool {
    e == TxEvent::Commit(true) || e == TxEvent::Rollback(true) || e == TxEvent::End
}

/// A transaction that was begun stays active through any commits,
/// rollbacks and ends until one of them succeeds or ends it. So when it is
/// ended (dropped) and none did, it is rolled back exactly once; when one
/// did, ending it hands the driver nothing.
pub proof fn law_end_rolls_back_unsettled(es: Seq<TxEvent>)
    ensures
        tx_run(true, es) == !(exists|i: int| 0 <= i < es.len() && settles(#[trigger] es[i])),
        tx_calls(tx_run(true, es), TxEvent::End) == if exists|i: int| 0 <= i < es.len() && settles(#[trigger] es[i]) {
            Seq::<DriverCall>::empty()
        } else {
            seq![DriverCall::Rollback]
        },
    decreases es.len(),
{
    if es.len() > 0 {
        let front = es.drop_last();
        law_end_rolls_back_unsettled(front);
        if exists|i: int| 0 <= i < front.len() && settles(#[trigger] front[i]) {
            let i = choose|i: int| 0 <= i < front.len() && settles(#[trigger] front[i]);
            assert(es[i] == front[i]);
        }
        if exists|i: int| 0 <= i < es.len() && settles(#[trigger] es[i]) {
            let i = choose|i: int| 0 <= i < es.len() && settles(#[trigger] es[i]);
            if i < front.len() {
                assert(front[i] == es[i]);
            }
        }
    }
}

/// A database transaction over driver `D` for model `M`.
pub struct Transaction<'a, M: Model, D: DatabaseDriver = SqliteDriver> {
    qb: QueryBuilder<'a, M, D>,
    active: bool,
}

impl<'a, M: Model, D: DatabaseDriver> Transaction<'a, M, D> {
    /// The chained state of the inner builder.
    pub closed spec fn chain(&self) -> ChainModel {
        self.qb.chain()
    }

    /// The statements and commands handed to the driver so far.
    pub closed spec fn calls(&self) -> Seq<DriverCall> {
        self.qb.calls()
    }

    /// The driver's answers to queries, in order.
    pub closed spec fn answers(&self) -> Seq<Result<QueryResult, Error>> {
        self.qb.answers()
    }

    /// The driver's outcomes of commands, in order.
    pub closed spec fn counts(&self) -> Seq<Result<u64, Error>> {
        self.qb.counts()
    }

    /// The driver's answers to requests for the last inserted id, in order.
    pub closed spec fn ids(&self) -> Seq<Result<Option<i64>, Error>> {
        self.qb.ids()
    }

    /// The driver's outcomes of transaction commands, in order.
    pub closed spec fn tx_results(&self) -> Seq<Result<(), Error>> {
        self.qb.tx_results()
    }

    /// Whether the transaction is neither committed nor rolled back.
    pub closed spec fn spec_active(&self) -> bool {
        self.active
    }

    /// Begins a transaction on `driver`: the driver is told to begin, and
    /// the transaction exists when the driver accepted, else the driver's
    /// error comes back.
    pub fn begin(driver: &'a mut D) -> (r: Result<Self, Error>)
        ensures
            r matches Ok(t) ==> t.spec_active() && t.chain() == empty_chain() && t.calls() == old(
                driver,
            ).spec_calls().push(DriverCall::Begin) && t.tx_results() == old(driver).spec_tx_results().push(
                Ok(()),
            ),
            r matches Err(e) ==> final(driver).spec_calls() == old(driver).spec_calls().push(DriverCall::Begin)
                && final(driver).spec_tx_results() == old(driver).spec_tx_results().push(Err(e)),
    {
        let b = driver.begin();
        match b {
            Ok(()) => {
                assert(b == Ok::<(), Error>(b->Ok_0));
                Ok(Transaction { qb: QueryBuilder::new(driver), active: true })
            },
            Err(e) => Err(e),
        }
    }

    /// Commits an active transaction; an inactive one is left as it is.
    pub fn commit(&mut self) -> (r: Result<(), Error>)
        ensures
            final(self).spec_active() == tx_next(old(self).spec_active(), TxEvent::Commit(r is Ok)),
            final(self).calls() == old(self).calls() + tx_calls(old(self).spec_active(), TxEvent::Commit(r is Ok)),
            final(self).chain() == old(self).chain(),
            old(self).spec_active() ==> final(self).calls() == old(self).calls().push(DriverCall::Commit) && (
            r is Ok ==> !final(self).spec_active()) && (r is Err ==> final(self).spec_active()),
            !old(self).spec_active() ==> final(self).calls() == old(self).calls() && !final(self).spec_active()
                && r is Ok,
    {
        if self.active {
            self.qb.commit_tx()?;
            self.active = false;
        }
        Ok(())
    }

    /// Rolls back an active transaction; an inactive one is left as it is.
    pub fn rollback(&mut self) -> (r: Result<(), Error>)
        ensures
            final(self).spec_active() == tx_next(old(self).spec_active(), TxEvent::Rollback(r is Ok)),
            final(self).calls() == old(self).calls() + tx_calls(old(self).spec_active(), TxEvent::Rollback(r is Ok)),
            final(self).chain() == old(self).chain(),
            old(self).spec_active() ==> final(self).calls() == old(self).calls().push(DriverCall::Rollback) && (
            r is Ok ==> !final(self).spec_active()) && (r is Err ==> final(self).spec_active()),
            !old(self).spec_active() ==> final(self).calls() == old(self).calls() && !final(self).spec_active()
                && r is Ok,
    {
        if self.active {
            self.qb.rollback_tx()?;
            self.active = false;
        }
        Ok(())
    }

    /// Gives the transaction up: rolls it back when it is still active,
    /// whatever the driver answers, and leaves it inactive.
    pub fn end(&mut self)
        ensures
            final(self).spec_active() == tx_next(old(self).spec_active(), TxEvent::End),
            final(self).calls() == old(self).calls() + tx_calls(old(self).spec_active(), TxEvent::End),
            !final(self).spec_active(),
            final(self).chain() == old(self).chain(),
            old(self).spec_active() ==> final(self).calls() == old(self).calls().push(DriverCall::Rollback),
            !old(self).spec_active() ==> final(self).calls() == old(self).calls(),
    {
        if self.active {
            let _ = self.qb.rollback_tx();
            self.active = false;
        }
    }

    /// Adds the condition `<column> = ?`.
    pub fn where_eq(&mut self, column: &str, value: Value) -> (r: &mut Self)
        ensures
            r.chain() == (ChainModel {
                conditions: old(self).chain().conditions.push((column@ + " = ?"@, seq![value_param(value@)])),
                ..old(self).chain()
            }),
            r.calls() == old(self).calls(),
            r.spec_active() == old(self).spec_active(),
            *final(self) == *final(r),
    {
        self.qb.where_eq(column, value);
        self
    }

    /// Adds a condition for each column whose value in `model` is not its
    /// type's zero.
    pub fn where_model(&mut self, model: &M) -> (r: &mut Self)
        ensures
            r.chain() == (ChainModel {
                conditions: old(self).chain().conditions + model_conditions(
                    M::spec_columns(),
                    model.spec_values(),
                    M::spec_columns().len() as int,
                ),
                ..old(self).chain()
            }),
            r.calls() == old(self).calls(),
            r.spec_active() == old(self).spec_active(),
            *final(self) == *final(r),
    {
        self.qb.where_model(model);
        self
    }

    /// Adds the condition `<column> IN (?, ..., ?)`, or one that holds of no
    /// row when `values` is empty. A column that is not a plain identifier
    /// is refused (see [`QueryBuilder::where_in`]).
    pub fn where_in(&mut self, column: &str, values: Vec<Value>) -> (r: &mut Self)
        ensures
            !is_identifier(column@) ==> r.chain() == with_rejection(old(self).chain(), identifier_message(column@)),
            is_identifier(column@) ==> r.chain() == (ChainModel {
                conditions: old(self).chain().conditions.push(
                    if values@.len() == 0 {
                        ("1 = 0"@, Seq::<ParamModel>::empty())
                    } else {
                        (
                            column@ + " IN ("@ + placeholders(values@.len()) + seq![')'],
                            values@.map_values(|v: Value| value_param(v@)),
                        )
                    },
                ),
                ..old(self).chain()
            }),
            r.calls() == old(self).calls(),
            r.spec_active() == old(self).spec_active(),
            *final(self) == *final(r),
    {
        self.qb.where_in(column, values);
        self
    }

    /// Sets the `LIMIT`.
    pub fn limit(&mut self, n: usize) -> (r: &mut Self)
        ensures
            r.chain() == (ChainModel { limit: Some(n), ..old(self).chain() }),
            r.calls() == old(self).calls(),
            r.spec_active() == old(self).spec_active(),
            *final(self) == *final(r),
    {
        self.qb.limit(n);
        self
    }

    /// Sets the `OFFSET`.
    pub fn offset(&mut self, n: usize) -> (r: &mut Self)
        ensures
            r.chain() == (ChainModel { offset: Some(n), ..old(self).chain() }),
            r.calls() == old(self).calls(),
            r.spec_active() == old(self).spec_active(),
            *final(self) == *final(r),
    {
        self.qb.offset(n);
        self
    }

    /// Adds an `ORDER BY` column; a column that is not a plain identifier is
    /// refused (see [`QueryBuilder::order`]).
    pub fn order(&mut self, column: &str, asc: bool) -> (r: &mut Self)
        ensures
            !is_identifier(column@) ==> r.chain() == with_rejection(old(self).chain(), identifier_message(column@)),
            is_identifier(column@) ==> r.chain() == (ChainModel {
                order_by: old(self).chain().order_by.push((column@, asc)),
                ..old(self).chain()
            }),
            r.calls() == old(self).calls(),
            r.spec_active() == old(self).spec_active(),
            *final(self) == *final(r),
    {
        self.qb.order(column, asc);
        self
    }

    /// Runs the chained `SELECT` (see [`QueryBuilder::find`]).
    pub fn find(&mut self) -> (r: Result<Vec<M>, Error>)
        ensures
            old(self).chain().rejected matches Some(m) ==> refused(m, r) && final(self).calls() == old(self).calls()
                && final(self).answers() == old(self).answers() && final(self).counts() == old(self).counts()
                && final(self).chain() == empty_chain(),
            old(self).chain().rejected is None ==> ({
                let sql = chain_select_sql(M::spec_table_name(), old(self).chain());
                &&& has_injection(sql) ==> refused(injection_message(sql), r) && final(self).calls() == old(self).calls()
                    && final(self).answers() == old(self).answers() && final(self).counts() == old(self).counts() && final(self).chain() == old(self).chain()
                &&& !has_injection(sql) ==> ({
                    &&& final(self).calls() == old(self).calls().push(
                        DriverCall::Query(
                            sql,
                            chain_params(old(self).chain().conditions),
                        ),
                    )
                    &&& one_more(old(self).answers(), final(self).answers())
                    &&& models_of_answer::<M>(final(self).answers().last(), r)
                    &&& (final(self).answers().last() is Ok ==> final(self).chain() == empty_chain())
                    &&& (final(self).answers().last() is Err ==> final(self).chain() == old(self).chain())
                })
            }),
            final(self).spec_active() == old(self).spec_active(),
    {
        self.qb.find()
    }

    /// Returns the models of all rows of the table, whatever conditions are
    /// chained (see [`QueryBuilder::find_all`]).
    pub fn find_all(&mut self) -> (r: Result<Vec<M>, Error>)
        ensures
            ({
                let sql = "SELECT * FROM "@ + M::spec_table_name();
                &&& has_injection(sql) ==> refused(injection_message(sql), r) && final(self).calls() == old(self).calls()
                    && final(self).answers() == old(self).answers() && final(self).chain() == old(self).chain()
                &&& !has_injection(sql) ==> ({
                    &&& final(self).calls() == old(self).calls().push(DriverCall::Query(sql, Seq::<ParamModel>::empty()))
                    &&& one_more(old(self).answers(), final(self).answers())
                    &&& models_of_answer::<M>(final(self).answers().last(), r)
                    &&& final(self).answers().last() is Ok ==> final(self).chain() == empty_chain()
                    &&& final(self).answers().last() is Err ==> final(self).chain() == old(self).chain()
                })
            }),
            final(self).spec_active() == old(self).spec_active(),
    {
        self.qb.find_all()
    }

    /// Runs the chained `SELECT` with `LIMIT 1` (see
    /// [`QueryBuilder::find_one`]).
    pub fn find_one(&mut self) -> (r: Result<Option<M>, Error>)
        ensures
            old(self).chain().rejected matches Some(m) ==> refused(m, r) && final(self).calls() == old(self).calls()
                && final(self).answers() == old(self).answers() && final(self).counts() == old(self).counts()
                && final(self).chain() == empty_chain(),
            old(self).chain().rejected is None ==> ({
                let sql = chain_select_sql(M::spec_table_name(), ChainModel { limit: Some(1), ..old(self).chain() });
                &&& has_injection(sql) ==> refused(injection_message(sql), r) && final(self).calls() == old(self).calls()
                    && final(self).answers() == old(self).answers() && final(self).counts() == old(self).counts() && final(self).chain() == (ChainModel { limit: Some(1), ..old(self).chain() })
                &&& !has_injection(sql) ==> ({
                    &&& final(self).calls() == old(self).calls().push(
                        DriverCall::Query(
                            sql,
                            chain_params(old(self).chain().conditions),
                        ),
                    )
                    &&& one_more(old(self).answers(), final(self).answers())
                    &&& first_of_answer::<M>(final(self).answers().last(), r)
                    &&& (final(self).answers().last() is Ok ==> final(self).chain() == empty_chain())
                    &&& (final(self).answers().last() is Err ==> final(self).chain() == (ChainModel {
                        limit: Some(1),
                        ..old(self).chain()
                    }))
                })
            }),
            final(self).spec_active() == old(self).spec_active(),
    {
        self.qb.find_one()
    }

    /// The first row ordered by primary key ascending.
    pub fn first(&mut self) -> (r: Result<Option<M>, Error>)
        ensures
            old(self).chain().rejected matches Some(m) ==> refused(m, r) && final(self).calls() == old(self).calls()
                && final(self).answers() == old(self).answers() && final(self).counts() == old(self).counts()
                && final(self).chain() == empty_chain(),
            old(self).chain().rejected is None && !is_identifier(M::spec_primary_key()) ==> refused(
                identifier_message(M::spec_primary_key()),
                r,
            ) && final(self).calls() == old(self).calls() && final(self).answers() == old(self).answers()
                && final(self).chain() == empty_chain(),
            old(self).chain().rejected is None && is_identifier(M::spec_primary_key()) ==> ({
                let sql = chain_select_sql(
                    M::spec_table_name(),
                    ChainModel {
                        limit: Some(1),
                        order_by: old(self).chain().order_by.push((M::spec_primary_key(), true)),
                        ..old(self).chain()
                    },
                );
                &&& has_injection(sql) ==> refused(injection_message(sql), r) && final(self).calls() == old(self).calls()
                    && final(self).answers() == old(self).answers() && final(self).counts() == old(self).counts()
                &&& !has_injection(sql) ==> ({
                    &&& final(self).calls() == old(self).calls().push(
                        DriverCall::Query(
                            sql,
                            chain_params(old(self).chain().conditions),
                        ),
                    )
                    &&& one_more(old(self).answers(), final(self).answers())
                    &&& first_of_answer::<M>(final(self).answers().last(), r)
                })
            }),
            final(self).spec_active() == old(self).spec_active(),
    {
        self.qb.first()
    }

    /// The last row: the first ordered by primary key descending.
    pub fn last(&mut self) -> (r: Result<Option<M>, Error>)
        ensures
            old(self).chain().rejected matches Some(m) ==> refused(m, r) && final(self).calls() == old(self).calls()
                && final(self).answers() == old(self).answers() && final(self).counts() == old(self).counts()
                && final(self).chain() == empty_chain(),
            old(self).chain().rejected is None && !is_identifier(M::spec_primary_key()) ==> refused(
                identifier_message(M::spec_primary_key()),
                r,
            ) && final(self).calls() == old(self).calls() && final(self).answers() == old(self).answers()
                && final(self).chain() == empty_chain(),
            old(self).chain().rejected is None && is_identifier(M::spec_primary_key()) ==> ({
                let sql = chain_select_sql(
                    M::spec_table_name(),
                    ChainModel {
                        limit: Some(1),
                        order_by: old(self).chain().order_by.push((M::spec_primary_key(), false)),
                        ..old(self).chain()
                    },
                );
                &&& has_injection(sql) ==> refused(injection_message(sql), r) && final(self).calls() == old(self).calls()
                    && final(self).answers() == old(self).answers() && final(self).counts() == old(self).counts()
                &&& !has_injection(sql) ==> ({
                    &&& final(self).calls() == old(self).calls().push(
                        DriverCall::Query(
                            sql,
                            chain_params(old(self).chain().conditions),
                        ),
                    )
                    &&& one_more(old(self).answers(), final(self).answers())
                    &&& first_of_answer::<M>(final(self).answers().last(), r)
                })
            }),
            final(self).spec_active() == old(self).spec_active(),
    {
        self.qb.last()
    }

    /// Counts the rows matching the chained conditions.
    pub fn count(&mut self) -> (r: Result<i64, Error>)
        ensures
            old(self).chain().rejected matches Some(m) ==> refused(m, r) && final(self).calls() == old(self).calls()
                && final(self).answers() == old(self).answers() && final(self).counts() == old(self).counts()
                && final(self).chain() == empty_chain(),
            old(self).chain().rejected is None ==> ({
                let sql = "SELECT COUNT(*) FROM "@ + M::spec_table_name() + chain_where(old(self).chain().conditions);
                &&& has_injection(sql) ==> refused(injection_message(sql), r) && final(self).calls() == old(self).calls()
                    && final(self).answers() == old(self).answers() && final(self).counts() == old(self).counts() && final(self).chain() == empty_chain()
                &&& !has_injection(sql) ==> ({
                    &&& final(self).calls() == old(self).calls().push(
                        DriverCall::Query(
                            sql,
                            chain_params(old(self).chain().conditions),
                        ),
                    )
                    &&& final(self).chain() == empty_chain()
                    &&& one_more(old(self).answers(), final(self).answers())
                    &&& match final(self).answers().last() {
                        Ok(res) => r == Ok::<i64, Error>(spec_count(res.rows@)),
                        Err(e) => r == Err::<i64, Error>(e),
                    }
                })
            }),
            final(self).spec_active() == old(self).spec_active(),
    {
        self.qb.count()
    }

    /// Finds the row whose primary key is `id`.
    pub fn find_by_id(&mut self, id: i64) -> (r: Result<Option<M>, Error>)
        ensures
            final(self).chain() == old(self).chain(),
            ({
                let sql = "SELECT * FROM "@ + M::spec_table_name() + " WHERE "@ + M::spec_primary_key() + " = ?"@;
                &&& has_injection(sql) ==> refused(injection_message(sql), r) && final(self).calls() == old(self).calls()
                    && final(self).answers() == old(self).answers()
                &&& !has_injection(sql) ==> final(self).calls() == old(self).calls().push(
                    DriverCall::Query(sql, seq![ParamModel::Int(id)]),
                ) && one_more(old(self).answers(), final(self).answers()) && first_of_answer::<M>(
                    final(self).answers().last(),
                    r,
                )
            }),
            final(self).spec_active() == old(self).spec_active(),
    {
        self.qb.find_by_id(id)
    }

    /// Finds the rows where `column` equals `value`.
    pub fn find_where(&mut self, column: &str, value: Value) -> (r: Result<Vec<M>, Error>)
        ensures
            final(self).chain() == old(self).chain(),
            ({
                let sql = "SELECT * FROM "@ + M::spec_table_name() + " WHERE "@ + column@ + " = ?"@;
                &&& has_injection(sql) ==> refused(injection_message(sql), r) && final(self).calls() == old(self).calls()
                    && final(self).answers() == old(self).answers()
                &&& !has_injection(sql) ==> final(self).calls() == old(self).calls().push(
                    DriverCall::Query(sql, seq![value_param(value@)]),
                ) && one_more(old(self).answers(), final(self).answers()) && models_of_answer::<M>(
                    final(self).answers().last(),
                    r,
                )
            }),
            final(self).spec_active() == old(self).spec_active(),
    {
        self.qb.find_where(column, value)
    }

    /// Inserts a model (see [`QueryBuilder::insert`]).
    pub fn insert(&mut self, model: &M) -> (r: Result<Option<i64>, Error>)
        ensures
            final(self).chain() == old(self).chain(),
            ({
                let sql = insert_statement(
                    M::spec_table_name(),
                    insert_columns(M::spec_columns(), model.spec_values(), M::spec_primary_key()),
                );
                &&& has_injection(sql) ==> refused(injection_message(sql), r) && final(self).calls() == old(self).calls()
                    && final(self).counts() == old(self).counts() && final(self).ids() == old(self).ids()
                &&& !has_injection(sql) ==> ({
                    &&& final(self).calls() == old(self).calls().push(
                        DriverCall::Execute(
                            sql,
                            insert_values(M::spec_columns(), model.spec_values(), M::spec_primary_key()).map_values(
                                |v: ValueModel| value_param(v),
                            ),
                        ),
                    )
                    &&& one_more(old(self).counts(), final(self).counts())
                    &&& match final(self).counts().last() {
                        Ok(_) => one_more(old(self).ids(), final(self).ids()) && r == final(self).ids().last(),
                        Err(e) => r == Err::<Option<i64>, Error>(e) && final(self).ids() == old(self).ids(),
                    }
                })
            }),
            final(self).spec_active() == old(self).spec_active(),
    {
        self.qb.insert(model)
    }

    /// Sets one column on the rows matching the chained conditions (see
    /// [`QueryBuilder::update_one`]).
    pub fn update_one(&mut self, column: &str, value: Value) -> (r: Result<u64, Error>)
        ensures
            old(self).chain().rejected matches Some(m) ==> refused(m, r) && final(self).calls() == old(self).calls()
                && final(self).answers() == old(self).answers() && final(self).counts() == old(self).counts()
                && final(self).chain() == empty_chain(),
            old(self).chain().rejected is None ==> ({
                &&& (old(self).chain().conditions.len() == 0 ==> (r matches Err(e) && e is Protocol
                    && final(self).calls() == old(self).calls() && final(self).chain() == old(self).chain()))
                &&& old(self).chain().conditions.len() > 0 ==> ({
                    let sql = "UPDATE "@ + M::spec_table_name() + " SET "@ + column@ + " = ?"@ + chain_where(
                        old(self).chain().conditions,
                    );
                    &&& final(self).chain() == empty_chain()
                    &&& has_injection(sql) ==> refused(injection_message(sql), r) && final(self).calls() == old(self).calls()
                        && final(self).counts() == old(self).counts()
                    &&& !has_injection(sql) ==> final(self).calls() == old(self).calls().push(DriverCall::Execute(sql, seq![value_param(value@)] + chain_params(old(self).chain().conditions)))
                        && final(self).counts() == old(self).counts().push(r)
                })
            }),
            final(self).spec_active() == old(self).spec_active(),
    {
        self.qb.update_one(column, value)
    }

    /// Sets the non-zero columns of `model` on the rows matching the chained
    /// conditions (see [`QueryBuilder::update_model`]).
    pub fn update_model(&mut self, model: &M) -> (r: Result<u64, Error>)
        ensures
            old(self).chain().rejected matches Some(m) ==> refused(m, r) && final(self).calls() == old(self).calls()
                && final(self).answers() == old(self).answers() && final(self).counts() == old(self).counts()
                && final(self).chain() == empty_chain(),
            old(self).chain().rejected is None ==> ({
                let sets = model_conditions(M::spec_columns(), model.spec_values(), M::spec_columns().len() as int);
                &&& sets.len() == 0 ==> (r matches Err(e) && e is Protocol && final(self).calls() == old(
                    self,
                ).calls())
                &&& sets.len() > 0 && old(self).chain().conditions.len() == 0 ==> (r matches Err(e)
                    && e is Protocol && final(self).calls() == old(self).calls())
                &&& sets.len() > 0 && old(self).chain().conditions.len() > 0 ==> ({
                    let sql = "UPDATE "@ + M::spec_table_name() + " SET "@ + spec_join(
                        sets.map_values(|c: WhereModel| c.0),
                        ", "@,
                    ) + chain_where(old(self).chain().conditions);
                    &&& final(self).chain() == empty_chain()
                    &&& has_injection(sql) ==> refused(injection_message(sql), r) && final(self).calls() == old(self).calls()
                        && final(self).counts() == old(self).counts()
                    &&& !has_injection(sql) ==> final(self).calls() == old(self).calls().push(DriverCall::Execute(sql, chain_params(sets) + chain_params(old(self).chain().conditions)))
                        && final(self).counts() == old(self).counts().push(r)
                })
            }),
            final(self).spec_active() == old(self).spec_active(),
    {
        self.qb.update_model(model)
    }

    /// Deletes the rows matching the chained conditions (see
    /// [`QueryBuilder::delete`]).
    pub fn delete(&mut self) -> (r: Result<u64, Error>)
        ensures
            old(self).chain().rejected matches Some(m) ==> refused(m, r) && final(self).calls() == old(self).calls()
                && final(self).answers() == old(self).answers() && final(self).counts() == old(self).counts()
                && final(self).chain() == empty_chain(),
            old(self).chain().rejected is None ==> ({
                &&& (old(self).chain().conditions.len() == 0 ==> (r matches Err(e) && e is Protocol
                    && final(self).calls() == old(self).calls()))
                &&& old(self).chain().conditions.len() > 0 ==> ({
                    let sql = "DELETE FROM "@ + M::spec_table_name() + chain_where(old(self).chain().conditions);
                    &&& final(self).chain() == empty_chain()
                    &&& has_injection(sql) ==> refused(injection_message(sql), r) && final(self).calls() == old(self).calls()
                        && final(self).counts() == old(self).counts()
                    &&& !has_injection(sql) ==> final(self).calls() == old(self).calls().push(DriverCall::Execute(sql, chain_params(old(self).chain().conditions)))
                        && final(self).counts() == old(self).counts().push(r)
                })
            }),
            final(self).spec_active() == old(self).spec_active(),
    {
        self.qb.delete()
    }
}

} // verus!
