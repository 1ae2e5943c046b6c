//! Chainable query builder bound to a driver and a model type.
//!
//! Values always travel as parameters. Columns given to `where_in` and
//! `order`, and the tables and conditions of joins, are checked when they
//! are chained; a refused one is kept, and the next statement run from the
//! chain gives the injection error instead. Every statement is checked for
//! injection patterns ([`check_sql_injection`]) before it reaches the driver.
use vstd::prelude::*;
use std::marker::PhantomData;
use crate::driver::{SqliteDriver, DatabaseDriver, DriverCall, ParamModel, Parameter, QueryResult, Row, param_models};

use crate::error::Error;
pub use crate::orm::injection::{check_sql_injection, validate_identifier};
use crate::orm::injection::{is_identifier, identifier_message, refused, has_injection, injection_message};
use crate::orm::model::Model;
use crate::orm::ddl::{table_statements, table_statements_exec};
use crate::query::select::{order_part, order_item, limit_part, offset_part, order_models, push_order, push_keyword_number};
use crate::query::insert::{placeholders, placeholders_exec};
use crate::text::{ends_with, chars_of, position_from, copy_str, push_str, join_strings, spec_join, views, parse_i64, spec_parse_i64, str_eq};
use crate::types::value::{Value, ValueModel, model_is_default, FloatValue};

verus! {

/// SQL JOIN type.
#[derive(Debug, Clone, Copy, PartialEq, Eq, Structural)]
pub enum JoinType {
    /// `LEFT JOIN`
    Left,
    /// `INNER JOIN`
    Inner,
    /// `RIGHT JOIN`
    Right,
}

pub open spec fn join_keyword(j: JoinType) -> Seq<char> {
    match j {
        JoinType::Left => "LEFT JOIN"@,
        JoinType::Inner => "INNER JOIN"@,
        JoinType::Right => "RIGHT JOIN"@,
    }
}

impl JoinType {
    /// The SQL keyword of the join.
    pub fn as_sql(&self) -> (r: &'static str)
        ensures
            r@ == join_keyword(*self),
    {
        match self {
            JoinType::Left => "LEFT JOIN",
            JoinType::Inner => "INNER JOIN",
            JoinType::Right => "RIGHT JOIN",
        }
    }
}

/// A JOIN clause: type, target table and ON condition.
#[derive(Debug, Clone)]
pub struct JoinClause {
    pub join_type: JoinType,
    pub table: String,
    pub on_clause: String,
}

/// The model of a join clause.
pub type JoinModel = (JoinType, Seq<char>, Seq<char>);

/// The model of a condition: its SQL text and its parameters.
pub type WhereModel = (Seq<char>, Seq<ParamModel>);

/// The state a chain of builder calls has set.
pub struct ChainModel {
    pub conditions: Seq<WhereModel>,
    pub limit: Option<usize>,
    pub offset: Option<usize>,
    pub order_by: Seq<(Seq<char>, bool)>,
    pub joins: Seq<JoinModel>,
    /// The message of the first identifier the chain refused, if any.
    pub rejected: Option<Seq<char>>,
}

/// The state of a builder with nothing chained.
pub open spec fn empty_chain() -> ChainModel {
    ChainModel {
        conditions: Seq::empty(),
        limit: None,
        offset: None,
        order_by: Seq::empty(),
        joins: Seq::empty(),
        rejected: None,
    }
}

/// The chain after an identifier was refused with message `m`: the first
/// refusal is kept.
pub open spec fn with_rejection(c: ChainModel, m: Seq<char>) -> ChainModel {
    ChainModel { rejected: if c.rejected is Some { c.rejected } else { Some(m) }, ..c }
}

/// Why a join on `table` with condition `on` is refused, if it is: a table
/// that is not a plain identifier, or a condition with an injection pattern.
pub open spec fn join_refusal(table: Seq<char>, on: Seq<char>) -> Option<Seq<char>> {
    if !is_identifier(table) {
        Some(identifier_message(table))
    } else if has_injection(on) {
        Some(injection_message(on))
    } else {
        None
    }
}


/// The parameter a value is passed as: integers widen to `i64` (`u64` by
/// wrapping), floats pass as floats, the rest as themselves.
pub open spec fn value_param(v: ValueModel) -> ParamModel {
    match v {
        ValueModel::Null => ParamModel::Null,
        ValueModel::Bool(b) => ParamModel::Bool(b),
        ValueModel::I8(x) => ParamModel::Int(x as i64),
        ValueModel::I16(x) => ParamModel::Int(x as i64),
        ValueModel::I32(x) => ParamModel::Int(x as i64),
        ValueModel::I64(x) => ParamModel::Int(x),
        ValueModel::U8(x) => ParamModel::Int(x as i64),
        ValueModel::U16(x) => ParamModel::Int(x as i64),
        ValueModel::U32(x) => ParamModel::Int(x as i64),
        ValueModel::U64(x) => ParamModel::Int(x as i64),
        ValueModel::F32(b, t) => ParamModel::Float(b, t),
        ValueModel::F64(b, t) => ParamModel::Float(b, t),
        ValueModel::String(s) => ParamModel::String(s),
        ValueModel::Bytes(b) => ParamModel::Bytes(b),
    }
}

/// The parameter a value is passed as.
pub fn value_to_param(value: &Value) -> (r: Parameter)
    ensures
        r@ == value_param(value@),
{
    match value {
        Value::Null => Parameter::Null,
        Value::Bool(v) => Parameter::Bool(*v),
        Value::I8(v) => Parameter::Int(*v as i64),
        Value::I16(v) => Parameter::Int(*v as i64),
        Value::I32(v) => Parameter::Int(*v as i64),
        Value::I64(v) => Parameter::Int(*v),
        Value::U8(v) => Parameter::Int(*v as i64),
        Value::U16(v) => Parameter::Int(*v as i64),
        Value::U32(v) => Parameter::Int(*v as i64),
        Value::U64(v) => Parameter::Int(*v as i64),
        Value::F32(f) => Parameter::Float(f.copy()),
        Value::F64(f) => Parameter::Float(f.copy()),
        Value::String(s) => Parameter::String(s.clone()),
        Value::Bytes(b) => Parameter::Bytes(crate::types::value::copy_bytes(b)),
    }
}

/// Whether a value is its type's zero.
pub fn is_value_default(value: &Value) -> (r: bool)
    ensures
        r == model_is_default(value@),
{
    value.is_default()
}

/// The value a textual cell denotes: `NULL` is null, an `i64` literal is an
/// `I64`, `true`/`false` are booleans, any other text is a string.
pub open spec fn text_value(s: Seq<char>) -> ValueModel {
    if s == "NULL"@ {
        ValueModel::Null
    } else if spec_parse_i64(s) is Some {
        ValueModel::I64(spec_parse_i64(s).unwrap())
    } else if s == "true"@ {
        ValueModel::Bool(true)
    } else if s == "false"@ {
        ValueModel::Bool(false)
    } else {
        ValueModel::String(s)
    }
}

/// The value of a cell; an absent cell is null.
pub open spec fn cell_value(c: Option<Seq<char>>) -> ValueModel {
    match c {
        Some(s) => text_value(s),
        None => ValueModel::Null,
    }
}

/// The value a textual cell denotes.
pub fn text_to_value(val: &str) -> (r: Value)
    ensures
        r@ == text_value(val@),
{
    if str_eq(val, "NULL") {
        Value::Null
    } else {
        match parse_i64(val) {
            Some(i) => Value::I64(i),
            None => {
                if str_eq(val, "true") {
                    Value::Bool(true)
                } else if str_eq(val, "false") {
                    Value::Bool(false)
                } else {
                    Value::String(copy_str(val))
                }
            },
        }
    }
}

/// The values of a row, one per column: the value of its cell, or null
/// where the column has no cell.
pub open spec fn row_values(names: Seq<Seq<char>>, cells: Seq<Option<Seq<char>>>) -> Seq<ValueModel> {
    Seq::new(names.len(), |i: int| if i < cells.len() { cell_value(cells[i]) } else { ValueModel::Null })
}

/// The values of the cells of `r`, one per column.
pub open spec fn row_model_values(r: Row) -> Seq<ValueModel> {
    row_values(r.spec_names(), r.spec_cells())
}

/// Whether every row converts to a model.
pub open spec fn all_rows_convert<M: Model>(rows: Seq<Row>) -> bool {
    forall|i: int| 0 <= i < rows.len() ==> (#[trigger] M::spec_from_row(row_model_values(rows[i]))) is Some
}

/// `r` is what converting `rows` gives: the model of each row, in order,
/// when every row converts; else a protocol error.
pub open spec fn rows_convert<M: Model>(rows: Seq<Row>, r: Result<Vec<M>, Error>) -> bool {
    &&& (r is Ok <==> all_rows_convert::<M>(rows))
    &&& (r matches Ok(v) ==> v@.len() == rows.len() && forall|i: int|
        0 <= i < rows.len() ==> M::spec_from_row(row_model_values(rows[i])) == Some(#[trigger] v@[i]))
    &&& (r matches Err(e) ==> e is Protocol)
}

/// Builds models from result rows; a row that does not convert gives a
/// protocol error with the model's message.
pub fn models_of_rows<M: Model>(rows: &Vec<Row>) -> (r: Result<Vec<M>, Error>)
    ensures
        rows_convert::<M>(rows@, r),
{
    let mut results: Vec<M> = Vec::new();
    let mut i: usize = 0;
    while i < rows.len()
        invariant
            i <= rows@.len(),
            results@.len() == i,
            forall|k: int|
                0 <= k < i ==> M::spec_from_row(row_model_values(rows@[k])) == Some(#[trigger] results@[k]),
        decreases rows@.len() - i,
    {
        let values = row_to_values(&rows[i]);
        match M::from_row(values.as_slice()) {
            Ok(m) => {
                results.push(m);
            },
            Err(e) => {
                assert(!all_rows_convert::<M>(rows@)) by {
                    assert(M::spec_from_row(row_model_values(rows@[i as int])) is None);
                }
                return Err(Error::Protocol(e));
            },
        }
        i += 1;
    }
    assert forall|k: int| 0 <= k < rows@.len() implies (#[trigger] M::spec_from_row(
        row_model_values(rows@[k]),
    )) is Some by {
        assert(M::spec_from_row(row_model_values(rows@[k])) == Some(results@[k]));
    }
    Ok(results)
}

/// The values of a row's cells, in order.
pub fn row_to_values(row: &Row) -> (r: Vec<Value>)
    ensures
        r@.map_values(|v: Value| v@) == row_values(row.spec_names(), row.spec_cells()),
{
    let ghost target = row_values(row.spec_names(), row.spec_cells());
    let n = row.column_count();
    let mut values: Vec<Value> = Vec::new();
    let mut i: usize = 0;
    while i < n
        invariant
            i <= n,
            n == row.spec_names().len(),
            target == row_values(row.spec_names(), row.spec_cells()),
            values@.map_values(|v: Value| v@) == target.take(i as int),
        decreases n - i,
    {
        let v = match row.get(i) {
            Some(val) => text_to_value(val),
            None => Value::Null,
        };
        assert(v@ == target[i as int]);
        let ghost before = values@;
        values.push(v);
        assert(values@.map_values(|v: Value| v@) =~= before.map_values(|v: Value| v@).push(v@));
        assert(target.take(i + 1) =~= target.take(i as int).push(target[i as int]));
        i += 1;
    }
    assert(target.take(n as int) =~= target);
    values
}


/// `" WHERE c1 AND c2 ..."` when there are conditions, else nothing.
pub open spec fn chain_where(conds: Seq<WhereModel>) -> Seq<char> {
    if conds.len() == 0 {
        Seq::empty()
    } else {
        " WHERE "@ + spec_join(conds.map_values(|c: WhereModel| c.0), " AND "@)
    }
}

/// The parameters of the conditions, condition after condition.
pub open spec fn chain_params(conds: Seq<WhereModel>) -> Seq<ParamModel>
    decreases conds.len(),
{
    if conds.len() == 0 {
        Seq::empty()
    } else {
        chain_params(conds.drop_last()) + conds.last().1
    }
}

/// `" <JOIN TYPE> <table> ON <condition>"`.
pub open spec fn join_sql(j: JoinModel) -> Seq<char> {
    seq![' '] + join_keyword(j.0) + seq![' '] + j.1 + " ON "@ + j.2
}

pub open spec fn joins_sql(js: Seq<JoinModel>) -> Seq<char>
    decreases js.len(),
{
    if js.len() == 0 {
        Seq::empty()
    } else {
        joins_sql(js.drop_last()) + join_sql(js.last())
    }
}

/// The `SELECT` a chain builds for `table`.
pub open spec fn chain_select_sql(table: Seq<char>, c: ChainModel) -> Seq<char> {
    "SELECT * FROM "@ + table + joins_sql(c.joins) + chain_where(c.conditions) + order_part(c.order_by)
        + limit_part(c.limit) + offset_part(c.offset)
}

/// The conditions `where_model` adds for the first `n` columns: one
/// `column = ?` per column whose value is not its type's zero.
pub open spec fn model_conditions(cols: Seq<Seq<char>>, vals: Seq<ValueModel>, n: int) -> Seq<WhereModel>
    decreases n,
{
    if n <= 0 {
        Seq::empty()
    } else {
        model_conditions(cols, vals, n - 1) + if n - 1 < vals.len() && !model_is_default(vals[n - 1]) {
            seq![(cols[n - 1] + " = ?"@, seq![value_param(vals[n - 1])])]
        } else {
            Seq::empty()
        }
    }
}

pub open spec fn join_models(v: Seq<JoinClause>) -> Seq<JoinModel> {
    v.map_values(|j: JoinClause| (j.join_type, j.table@, j.on_clause@))
}

pub open spec fn where_models(v: Seq<(String, Vec<Parameter>)>) -> Seq<WhereModel> {
    v.map_values(|c: (String, Vec<Parameter>)| (c.0@, param_models(c.1@)))
}

/// Whether a primary-key value asks for an automatic key: `0` or null.
pub open spec fn is_auto_value(v: ValueModel) -> bool {
    v == ValueModel::I64(0) || v == ValueModel::I32(0) || v == ValueModel::Null
}

/// The position of the primary key when its value asks for an automatic key.
pub open spec fn auto_key_position(cols: Seq<Seq<char>>, vals: Seq<ValueModel>, pk: Seq<char>) -> Option<int> {
    match position_from(cols, pk, 0) {
        Some(i) => if i < vals.len() && is_auto_value(vals[i]) { Some(i) } else { None },
        None => None,
    }
}

pub open spec fn remove_at<A>(s: Seq<A>, i: int) -> Seq<A> {
    s.take(i) + s.skip(i + 1)
}

pub open spec fn min_len(a: nat, b: nat) -> nat {
    if a <= b { a } else { b }
}

/// The columns an insert names: all of them, or, when the key is automatic,
/// all but the key (paired with the values, so no more than there are values).
pub open spec fn insert_columns(cols: Seq<Seq<char>>, vals: Seq<ValueModel>, pk: Seq<char>) -> Seq<Seq<char>> {
    match auto_key_position(cols, vals, pk) {
        Some(i) => remove_at(cols, i).take(min_len(remove_at(cols, i).len(), remove_at(vals, i).len()) as int),
        None => cols,
    }
}

/// The values an insert passes, matching [`insert_columns`].
pub open spec fn insert_values(cols: Seq<Seq<char>>, vals: Seq<ValueModel>, pk: Seq<char>) -> Seq<ValueModel> {
    match auto_key_position(cols, vals, pk) {
        Some(i) => remove_at(vals, i).take(min_len(remove_at(cols, i).len(), remove_at(vals, i).len()) as int),
        None => vals,
    }
}

/// The driver calls that run each of `stmts` without parameters.
pub open spec fn executes(stmts: Seq<Seq<char>>) -> Seq<DriverCall> {
    stmts.map_values(|q: Seq<char>| DriverCall::Execute(q, Seq::empty()))
}

/// `INSERT INTO <table> (<columns>) VALUES (?, ..., ?)`.
pub open spec fn insert_statement(table: Seq<char>, cols: Seq<Seq<char>>) -> Seq<char> {
    "INSERT INTO "@ + table + " ("@ + spec_join(cols, ", "@) + ") VALUES ("@ + placeholders(cols.len()) + seq![')']
}

/// Chainable query builder for model `M` over driver `D`.
pub struct QueryBuilder<'a, M: Model, D: DatabaseDriver = SqliteDriver> {
    driver: &'a mut D,
    marker: PhantomData<M>,
    conditions: Vec<(String, Vec<Parameter>)>,
    limit_val: Option<usize>,
    offset_val: Option<usize>,
    order_by: Vec<(String, bool)>,
    joins: Vec<JoinClause>,
    rejected: Option<String>,
}

/// A copy of a parameter list.
pub fn copy_params(p: &Vec<Parameter>) -> (r: Vec<Parameter>)
    ensures
        param_models(r@) == param_models(p@),
{
    let mut r: Vec<Parameter> = Vec::new();
    let mut i: usize = 0;
    while i < p.len()
        invariant
            i <= p.len(),
            param_models(r@) == param_models(p@).take(i as int),
        decreases p.len() - i,
    {
        let ghost before = r@;
        let x = p[i].copy();
        r.push(x);
        assert(param_models(r@) =~= param_models(before).push(x@));
        assert(param_models(p@).take(i + 1) =~= param_models(p@).take(i as int).push(p@[i as int]@));
        i += 1;
    }
    assert(param_models(p@).take(p.len() as int) =~= param_models(p@));
    r
}

impl<'a, M: Model, D: DatabaseDriver> QueryBuilder<'a, M, D> {
    /// The chained state.
    pub closed spec fn chain(&self) -> ChainModel {
        ChainModel {
            conditions: where_models(self.conditions@),
            limit: self.limit_val,
            offset: self.offset_val,
            order_by: order_models(self.order_by@),
            joins: join_models(self.joins@),
            rejected: match &self.rejected {
                Some(m) => Some(m@),
                None => None,
            },
        }
    }

    /// The statements and commands handed to the driver so far.
    pub closed spec fn calls(&self) -> Seq<DriverCall> {
        self.driver.spec_calls()
    }

    /// The driver's answers to queries, in order.
    pub closed spec fn answers(&self) -> Seq<Result<QueryResult, Error>> {
        self.driver.spec_answers()
    }

    /// The driver's outcomes of commands, in order.
    pub closed spec fn counts(&self) -> Seq<Result<u64, Error>> {
        self.driver.spec_counts()
    }

    /// The driver's answers to requests for the last inserted id, in order.
    pub closed spec fn ids(&self) -> Seq<Result<Option<i64>, Error>> {
        self.driver.spec_ids()
    }

    /// The driver's outcomes of transaction commands, in order.
    pub closed spec fn tx_results(&self) -> Seq<Result<(), Error>> {
        self.driver.spec_tx_results()
    }

    /// The driver's database type.
    pub closed spec fn db(&self) -> crate::driver::DatabaseType {
        self.driver.spec_db_type()
    }

    /// A builder with nothing chained.
    pub fn new(driver: &'a mut D) -> (r: Self)
        ensures
            r.chain() == empty_chain(),
            r.calls() == old(driver).spec_calls(),
            r.tx_results() == old(driver).spec_tx_results(),
    {
        let r = QueryBuilder {
            driver,
            marker: PhantomData,
            conditions: Vec::new(),
            limit_val: None,
            offset_val: None,
            order_by: Vec::new(),
            joins: Vec::new(),
            rejected: None,
        };
        assert(where_models(r.conditions@) =~= Seq::empty());
        assert(order_models(r.order_by@) =~= Seq::empty());
        assert(join_models(r.joins@) =~= Seq::empty());
        r
    }

    fn reset_chain(&mut self)
        ensures
            final(self).chain() == empty_chain(),
            final(self).calls() == old(self).calls(),
            final(self).answers() == old(self).answers(),
            final(self).counts() == old(self).counts(),
            final(self).ids() == old(self).ids(),
            final(self).tx_results() == old(self).tx_results(),
    {
        self.conditions.clear();
        self.limit_val = None;
        self.offset_val = None;
        self.order_by.clear();
        self.joins.clear();
        self.rejected = None;
        assert(where_models(self.conditions@) =~= Seq::empty());
        assert(order_models(self.order_by@) =~= Seq::empty());
        assert(join_models(self.joins@) =~= Seq::empty());
    }

    /// The model's table name.
    pub fn table_name(&self) -> (r: &str)
        ensures
            r@ == M::spec_table_name(),
    {
        M::table_name()
    }

    /// Keeps the message of `e`, an injection error, unless a refusal is
    /// already kept.
    fn reject(&mut self, e: Error)
        requires
            e is SqlInjection,
        ensures
            final(self).chain() == with_rejection(old(self).chain(), e.spec_message()),
            final(self).calls() == old(self).calls(),
            final(self).answers() == old(self).answers(),
            final(self).counts() == old(self).counts(),
    {
        if self.rejected.is_none() {
            match e {
                Error::SqlInjection(m) => {
                    self.rejected = Some(m);
                },
                _ => {},
            }
        }
    }

    /// When the chain holds a refusal, resets the chain and gives the
    /// injection error; else leaves everything as it is.
    fn take_rejection(&mut self) -> (r: Option<Error>)
        ensures
            match old(self).chain().rejected {
                Some(m) => (r matches Some(Error::SqlInjection(t)) && t@ == m) && final(self).chain() == empty_chain(),
                None => r is None && final(self).chain() == old(self).chain(),
            },
            final(self).calls() == old(self).calls(),
            final(self).answers() == old(self).answers(),
            final(self).counts() == old(self).counts(),
            final(self).ids() == old(self).ids(),
            final(self).tx_results() == old(self).tx_results(),
    {
        match self.rejected.take() {
            Some(m) => {
                self.reset_chain();
                Some(Error::SqlInjection(m))
            },
            None => None,
        }
    }

    /// Runs `sql` as a query unless it shows an injection pattern, which is
    /// refused without reaching the driver.
    fn guarded_query(&mut self, sql: &str, params: &[Parameter]) -> (r: Result<QueryResult, Error>)
        ensures
            final(self).chain() == old(self).chain(),
            final(self).counts() == old(self).counts(),
            final(self).ids() == old(self).ids(),
            has_injection(sql@) ==> refused(injection_message(sql@), r) && final(self).calls() == old(self).calls()
                && final(self).answers() == old(self).answers(),
            !has_injection(sql@) ==> final(self).calls() == old(self).calls().push(
                DriverCall::Query(sql@, param_models(params@)),
            ) && final(self).answers() == old(self).answers().push(r),
    {
        match check_sql_injection(sql) {
            Ok(()) => self.driver.query(sql, params),
            Err(e) => Err(e),
        }
    }

    /// Runs `sql` as a command unless it shows an injection pattern, which
    /// is refused without reaching the driver.
    fn guarded_execute(&mut self, sql: &str, params: &[Parameter]) -> (r: Result<u64, Error>)
        ensures
            final(self).chain() == old(self).chain(),
            final(self).answers() == old(self).answers(),
            final(self).ids() == old(self).ids(),
            has_injection(sql@) ==> refused(injection_message(sql@), r) && final(self).calls() == old(self).calls()
                && final(self).counts() == old(self).counts(),
            !has_injection(sql@) ==> final(self).calls() == old(self).calls().push(
                DriverCall::Execute(sql@, param_models(params@)),
            ) && final(self).counts() == old(self).counts().push(r),
    {
        match check_sql_injection(sql) {
            Ok(()) => self.driver.execute(sql, params),
            Err(e) => Err(e),
        }
    }

    fn push_condition(&mut self, clause: String, params: Vec<Parameter>)
        ensures
            final(self).chain() == (ChainModel {
                conditions: old(self).chain().conditions.push((clause@, param_models(params@))),
                ..old(self).chain()
            }),
            final(self).calls() == old(self).calls(),
    {
        let ghost before = self.conditions@;
        let ghost c = (clause@, param_models(params@));
        self.conditions.push((clause, params));
        assert(where_models(self.conditions@) =~= where_models(before).push(c));
    }

    /// Adds `column = ?` with `value` as its parameter.
    pub fn where_eq(&mut self, column: &str, value: Value) -> (r: &mut Self)
        ensures
            r.chain() == (ChainModel {
                conditions: old(self).chain().conditions.push((column@ + " = ?"@, seq![value_param(value@)])),
                ..old(self).chain()
            }),
            r.calls() == old(self).calls(),
            *final(self) == *final(r),
    {
        let mut clause = copy_str(column);
        push_str(&mut clause, " = ?");
        let mut params: Vec<Parameter> = Vec::new();
        params.push(value_to_param(&value));
        assert(param_models(params@) =~= seq![value_param(value@)]);
        self.push_condition(clause, params);
        self
    }

    /// Adds `column = ?` for every column whose value in `model` is not its
    /// type's zero.
    pub fn where_model(&mut self, model: &M) -> (r: &mut Self)
        ensures
            r.chain() == (ChainModel {
                conditions: old(self).chain().conditions + model_conditions(
                    M::spec_columns(),
                    model.spec_values(),
                    M::spec_columns().len() as int,
                ),
                ..old(self).chain()
            }),
            r.calls() == old(self).calls(),
            *final(self) == *final(r),
    {
        let values = M::to_values(model);
        let columns = M::columns();
        let ghost cols = M::spec_columns();
        let ghost vals = model.spec_values();
        let ghost start = self.chain();
        let mut i: usize = 0;
        while i < columns.len()
            invariant
                i <= columns.len(),
                cols == columns@.map_values(|s: &str| s@),
                vals == values@.map_values(|v: Value| v@),
                self.chain() == (ChainModel {
                    conditions: start.conditions + model_conditions(cols, vals, i as int),
                    ..start
                }),
                self.calls() == old(self).calls(),
            decreases columns.len() - i,
        {
            let ghost prev = start.conditions + model_conditions(cols, vals, i as int);
            if i < values.len() && !is_value_default(&values[i]) {
                let mut clause = copy_str(columns[i]);
                push_str(&mut clause, " = ?");
                let mut params: Vec<Parameter> = Vec::new();
                params.push(value_to_param(&values[i]));
                assert(param_models(params@) =~= seq![value_param(vals[i as int])]);
                self.push_condition(clause, params);
                let ghost item = (cols[i as int] + " = ?"@, seq![value_param(vals[i as int])]);
                assert(model_conditions(cols, vals, i + 1) == model_conditions(cols, vals, i as int) + seq![item]);
                assert(start.conditions + model_conditions(cols, vals, i + 1) =~= prev.push(item));
            } else {
                assert(model_conditions(cols, vals, i + 1) == model_conditions(cols, vals, i as int) + Seq::<WhereModel>::empty());
                assert(start.conditions + model_conditions(cols, vals, i + 1) =~= prev);
            }
            i += 1;
        }
        self
    }

    /// Adds `column IN (?, ..., ?)` with the values as parameters; with no
    /// values, adds the never-true `1 = 0`. A column that is not a plain
    /// identifier is refused: nothing is added, and the next statement run
    /// from the chain gives the injection error instead.
    pub fn where_in(&mut self, column: &str, values: Vec<Value>) -> (r: &mut Self)
        ensures
            !is_identifier(column@) ==> r.chain() == with_rejection(old(self).chain(), identifier_message(column@)),
            is_identifier(column@) ==> r.chain() == (ChainModel {
                conditions: old(self).chain().conditions.push(
                    if values@.len() == 0 {
                        ("1 = 0"@, Seq::<ParamModel>::empty())
                    } else {
                        (
                            column@ + " IN ("@ + placeholders(values@.len()) + seq![')'],
                            values@.map_values(|v: Value| value_param(v@)),
                        )
                    },
                ),
                ..old(self).chain()
            }),
            r.calls() == old(self).calls(),
            *final(self) == *final(r),
    {
        match validate_identifier(column) {
            Ok(()) => {},
            Err(e) => {
                self.reject(e);
                return self;
            },
        }
        if values.len() == 0 {
            let p: Vec<Parameter> = Vec::new();
            assert(param_models(p@) =~= Seq::<ParamModel>::empty());
            self.push_condition(String::from_str("1 = 0"), p);
            return self;
        }
        let mut clause = copy_str(column);
        push_str(&mut clause, " IN (");
        let q = placeholders_exec(values.len());
        push_str(&mut clause, q.as_str());
        clause.push(')');
        let ghost target = values@.map_values(|v: Value| value_param(v@));
        let mut params: Vec<Parameter> = Vec::new();
        let mut i: usize = 0;
        while i < values.len()
            invariant
                i <= values.len(),
                target == values@.map_values(|v: Value| value_param(v@)),
                param_models(params@) == target.take(i as int),
            decreases values.len() - i,
        {
            let ghost before = params@;
            let p = value_to_param(&values[i]);
            params.push(p);
            assert(param_models(params@) =~= param_models(before).push(p@));
            assert(target.take(i + 1) =~= target.take(i as int).push(target[i as int]));
            i += 1;
        }
        assert(target.take(values.len() as int) =~= target);
        assert(clause@ =~= column@ + " IN ("@ + placeholders(values@.len()) + seq![')']);
        self.push_condition(clause, params);
        self
    }

    /// Sets the `LIMIT`.
    pub fn limit(&mut self, n: usize) -> (r: &mut Self)
        ensures
            r.chain() == (ChainModel { limit: Some(n), ..old(self).chain() }),
            r.calls() == old(self).calls(),
            *final(self) == *final(r),
    {
        self.limit_val = Some(n);
        self
    }

    /// Sets the `OFFSET`.
    pub fn offset(&mut self, n: usize) -> (r: &mut Self)
        ensures
            r.chain() == (ChainModel { offset: Some(n), ..old(self).chain() }),
            r.calls() == old(self).calls(),
            *final(self) == *final(r),
    {
        self.offset_val = Some(n);
        self
    }

    /// Adds an `ORDER BY` item: ascending when `asc`, else descending. A
    /// column that is not a plain identifier is refused: nothing is added,
    /// and the next statement run from the chain gives the injection error.
    pub fn order(&mut self, column: &str, asc: bool) -> (r: &mut Self)
        ensures
            !is_identifier(column@) ==> r.chain() == with_rejection(old(self).chain(), identifier_message(column@)),
            is_identifier(column@) ==> r.chain() == (ChainModel {
                order_by: old(self).chain().order_by.push((column@, asc)),
                ..old(self).chain()
            }),
            r.calls() == old(self).calls(),
            r.answers() == old(self).answers(),
            r.counts() == old(self).counts(),
            *final(self) == *final(r),
    {
        match validate_identifier(column) {
            Ok(()) => {},
            Err(e) => {
                self.reject(e);
                return self;
            },
        }
        let ghost before = self.order_by@;
        self.order_by.push((copy_str(column), asc));
        assert(order_models(self.order_by@) =~= order_models(before).push((column@, asc)));
        self
    }

    fn push_join(&mut self, kind: JoinType, table: &str, on_clause: &str)
        ensures
            final(self).chain() == match join_refusal(table@, on_clause@) {
                Some(m) => with_rejection(old(self).chain(), m),
                None => ChainModel { joins: old(self).chain().joins.push((kind, table@, on_clause@)), ..old(self).chain() },
            },
            final(self).calls() == old(self).calls(),
    {
        match validate_identifier(table) {
            Ok(()) => {},
            Err(e) => {
                self.reject(e);
                return;
            },
        }
        match check_sql_injection(on_clause) {
            Ok(()) => {},
            Err(e) => {
                self.reject(e);
                return;
            },
        }
        let ghost before = self.joins@;
        self.joins.push(JoinClause { join_type: kind, table: copy_str(table), on_clause: copy_str(on_clause) });
        assert(join_models(self.joins@) =~= join_models(before).push((kind, table@, on_clause@)));
    }

    /// Adds a `LEFT JOIN`; a refused table or condition (see
    /// [`join_refusal`]) adds nothing and is kept for the next statement.
    pub fn left_join(&mut self, table: &str, on_clause: &str) -> (r: &mut Self)
        ensures
            r.chain() == match join_refusal(table@, on_clause@) {
                Some(m) => with_rejection(old(self).chain(), m),
                None => ChainModel {
                    joins: old(self).chain().joins.push((JoinType::Left, table@, on_clause@)),
                    ..old(self).chain()
                },
            },
            r.calls() == old(self).calls(),
            *final(self) == *final(r),
    {
        self.push_join(JoinType::Left, table, on_clause);
        self
    }

    /// Adds an `INNER JOIN`; a refused table or condition (see
    /// [`join_refusal`]) adds nothing and is kept for the next statement.
    pub fn inner_join(&mut self, table: &str, on_clause: &str) -> (r: &mut Self)
        ensures
            r.chain() == match join_refusal(table@, on_clause@) {
                Some(m) => with_rejection(old(self).chain(), m),
                None => ChainModel {
                    joins: old(self).chain().joins.push((JoinType::Inner, table@, on_clause@)),
                    ..old(self).chain()
                },
            },
            r.calls() == old(self).calls(),
            *final(self) == *final(r),
    {
        self.push_join(JoinType::Inner, table, on_clause);
        self
    }

    /// Adds a `RIGHT JOIN`; a refused table or condition (see
    /// [`join_refusal`]) adds nothing and is kept for the next statement.
    pub fn right_join(&mut self, table: &str, on_clause: &str) -> (r: &mut Self)
        ensures
            r.chain() == match join_refusal(table@, on_clause@) {
                Some(m) => with_rejection(old(self).chain(), m),
                None => ChainModel {
                    joins: old(self).chain().joins.push((JoinType::Right, table@, on_clause@)),
                    ..old(self).chain()
                },
            },
            r.calls() == old(self).calls(),
            *final(self) == *final(r),
    {
        self.push_join(JoinType::Right, table, on_clause);
        self
    }

    /// Appends the `WHERE` part of the chain to `sql` and returns the
    /// conditions' parameters.
    fn flatten_conditions(&self, sql: &mut String) -> (r: Vec<Parameter>)
        ensures
            final(sql)@ == old(sql)@ + chain_where(self.chain().conditions),
            param_models(r@) == chain_params(self.chain().conditions),
    {
        let ghost cm = where_models(self.conditions@);
        let mut params: Vec<Parameter> = Vec::new();
        if self.conditions.len() == 0 {
            assert(param_models(params@) =~= chain_params(cm));
            assert(sql@ =~= old(sql)@ + chain_where(cm));
            return params;
        }
        let ghost texts = cm.map_values(|c: WhereModel| c.0);
        let mut clauses: Vec<String> = Vec::new();
        let mut i: usize = 0;
        while i < self.conditions.len()
            invariant
                i <= self.conditions.len(),
                cm == where_models(self.conditions@),
                texts == cm.map_values(|c: WhereModel| c.0),
                views(clauses@) == texts.take(i as int),
                param_models(params@) == chain_params(cm.take(i as int)),
            decreases self.conditions.len() - i,
        {
            let ghost cb = clauses@;
            let ghost pb = params@;
            let c = self.conditions[i].0.clone();
            clauses.push(c);
            let ps = &self.conditions[i].1;
            let mut k: usize = 0;
            while k < ps.len()
                invariant
                    k <= ps.len(),
                    param_models(params@) == param_models(pb) + param_models(ps@).take(k as int),
                decreases ps.len() - k,
            {
                let ghost b = params@;
                let x = ps[k].copy();
                params.push(x);
                assert(param_models(params@) =~= param_models(b).push(x@));
                assert(param_models(ps@).take(k + 1) =~= param_models(ps@).take(k as int).push(ps@[k as int]@));
                k += 1;
            }
            proof {
                assert(param_models(ps@).take(ps.len() as int) =~= param_models(ps@));
                assert(cm[i as int] == (self.conditions@[i as int].0@, param_models(ps@)));
                assert(views(clauses@) =~= views(cb).push(c@));
                assert(texts.take(i + 1) =~= texts.take(i as int).push(texts[i as int]));
                let t = cm.take(i + 1);
                assert(t.drop_last() =~= cm.take(i as int));
            }
            i += 1;
        }
        assert(texts.take(self.conditions.len() as int) =~= texts);
        assert(cm.take(self.conditions.len() as int) =~= cm);
        push_str(sql, " WHERE ");
        let j = join_strings(&clauses, " AND ");
        push_str(sql, j.as_str());
        params
    }

    /// The `SELECT` the chain builds, and its parameters.
    pub fn build_select_sql(&self) -> (r: (String, Vec<Parameter>))
        ensures
            r.0@ == chain_select_sql(M::spec_table_name(), self.chain()),
            param_models(r.1@) == chain_params(self.chain().conditions),
    {
        let mut sql = String::from_str("SELECT * FROM ");
        push_str(&mut sql, M::table_name());
        let ghost head = sql@;
        let ghost jm = join_models(self.joins@);
        let mut i: usize = 0;
        while i < self.joins.len()
            invariant
                i <= self.joins.len(),
                jm == join_models(self.joins@),
                sql@ == head + joins_sql(jm.take(i as int)),
            decreases self.joins.len() - i,
        {
            let j = &self.joins[i];
            sql.push(' ');
            push_str(&mut sql, j.join_type.as_sql());
            sql.push(' ');
            push_str(&mut sql, j.table.as_str());
            push_str(&mut sql, " ON ");
            push_str(&mut sql, j.on_clause.as_str());
            proof {
                let t = jm.take(i + 1);
                assert(t.drop_last() =~= jm.take(i as int));
                assert(t.last() == jm[i as int]);
            }
            i += 1;
        }
        assert(jm.take(self.joins.len() as int) =~= jm);
        let params = self.flatten_conditions(&mut sql);
        push_order(&mut sql, &self.order_by);
        push_keyword_number(&mut sql, " LIMIT ", self.limit_val);
        push_keyword_number(&mut sql, " OFFSET ", self.offset_val);
        assert(sql@ =~= chain_select_sql(M::spec_table_name(), self.chain()));
        (sql, params)
    }

    /// Builds models from result rows (see [`models_of_rows`]).
    fn parse_rows(&self, rows: &Vec<Row>) -> (r: Result<Vec<M>, Error>)
        ensures
            rows_convert::<M>(rows@, r),
    {
        models_of_rows::<M>(rows)
    }

    /// Runs the chained `SELECT` and returns the models of all rows. The
    /// chain is reset once the query has run.
    pub fn find(&mut self) -> (r: Result<Vec<M>, Error>)
        ensures
            old(self).chain().rejected matches Some(m) ==> refused(m, r) && final(self).calls() == old(self).calls()
                && final(self).answers() == old(self).answers() && final(self).counts() == old(self).counts()
                && final(self).chain() == empty_chain(),
            old(self).chain().rejected is None ==> ({
                let sql = chain_select_sql(M::spec_table_name(), old(self).chain());
                &&& has_injection(sql) ==> refused(injection_message(sql), r) && final(self).calls() == old(self).calls()
                    && final(self).answers() == old(self).answers() && final(self).counts() == old(self).counts() && final(self).chain() == old(self).chain()
                &&& !has_injection(sql) ==> ({
                    &&& (final(self).calls() == old(self).calls().push(
                        DriverCall::Query(
                            sql,
                            chain_params(old(self).chain().conditions),
                        ),
                    ))
                    &&& (one_more(old(self).answers(), final(self).answers()))
                    &&& (models_of_answer::<M>(final(self).answers().last(), r))
                    &&& (final(self).answers().last() is Ok ==> final(self).chain() == empty_chain())
                    &&& (final(self).answers().last() is Err ==> final(self).chain() == old(self).chain())
                })
            }),
    {
        match self.take_rejection() {
            Some(e) => {
                return Err(e);
            },
            None => {},
        }
        let (sql, params) = self.build_select_sql();
        let result = self.guarded_query(sql.as_str(), params.as_slice());
        match result {
            Ok(res) => {
                self.reset_chain();
                self.parse_rows(&res.rows)
            },
            Err(e) => Err(e),
        }
    }

    /// Returns the models of all rows of the table, whatever conditions are
    /// chained. The chain is reset once the query has run.
    pub fn find_all(&mut self) -> (r: Result<Vec<M>, Error>)
        ensures
            ({
                let sql = "SELECT * FROM "@ + M::spec_table_name();
                &&& has_injection(sql) ==> refused(injection_message(sql), r) && final(self).calls() == old(self).calls()
                    && final(self).answers() == old(self).answers() && final(self).chain() == old(self).chain()
                &&& !has_injection(sql) ==> ({
                    &&& final(self).calls() == old(self).calls().push(DriverCall::Query(sql, Seq::<ParamModel>::empty()))
                    &&& one_more(old(self).answers(), final(self).answers())
                    &&& models_of_answer::<M>(final(self).answers().last(), r)
                    &&& final(self).answers().last() is Ok ==> final(self).chain() == empty_chain()
                    &&& final(self).answers().last() is Err ==> final(self).chain() == old(self).chain()
                })
            }),
    {
        let mut sql = String::from_str("SELECT * FROM ");
        push_str(&mut sql, M::table_name());
        let params: Vec<Parameter> = Vec::new();
        assert(param_models(params@) =~= Seq::<ParamModel>::empty());
        let result = self.guarded_query(sql.as_str(), params.as_slice());
        match result {
            Ok(res) => {
                self.reset_chain();
                self.parse_rows(&res.rows)
            },
            Err(e) => Err(e),
        }
    }

    /// Runs the chained `SELECT` with `LIMIT 1` and returns the first row's
    /// model, if any. The chain is reset once the query has run.
    pub fn find_one(&mut self) -> (r: Result<Option<M>, Error>)
        ensures
            old(self).chain().rejected matches Some(m) ==> refused(m, r) && final(self).calls() == old(self).calls()
                && final(self).answers() == old(self).answers() && final(self).counts() == old(self).counts()
                && final(self).chain() == empty_chain(),
            old(self).chain().rejected is None ==> ({
                let sql = chain_select_sql(M::spec_table_name(), ChainModel { limit: Some(1), ..old(self).chain() });
                &&& has_injection(sql) ==> refused(injection_message(sql), r) && final(self).calls() == old(self).calls()
                    && final(self).answers() == old(self).answers() && final(self).counts() == old(self).counts() && final(self).chain() == (ChainModel { limit: Some(1), ..old(self).chain() })
                &&& !has_injection(sql) ==> ({
                    &&& (final(self).calls() == old(self).calls().push(
                        DriverCall::Query(
                            sql,
                            chain_params(old(self).chain().conditions),
                        ),
                    ))
                    &&& (one_more(old(self).answers(), final(self).answers()))
                    &&& (first_of_answer::<M>(final(self).answers().last(), r))
                    &&& (final(self).answers().last() is Ok ==> final(self).chain() == empty_chain())
                    &&& (final(self).answers().last() is Err ==> final(self).chain() == (ChainModel {
                        limit: Some(1),
                        ..old(self).chain()
                    }))
                })
            }),
    {
        match self.take_rejection() {
            Some(e) => {
                return Err(e);
            },
            None => {},
        }
        self.limit_val = Some(1);
        let (sql, params) = self.build_select_sql();
        let result = self.guarded_query(sql.as_str(), params.as_slice());
        match result {
            Ok(res) => {
                self.reset_chain();
                if res.rows.len() == 0 {
                    Ok(None)
                } else {
                    let values = row_to_values(&res.rows[0]);
                    match M::from_row(values.as_slice()) {
                        Ok(m) => Ok(Some(m)),
                        Err(e) => Err(Error::Protocol(e)),
                    }
                }
            },
            Err(e) => Err(e),
        }
    }

    /// The first row ordered by primary key ascending.
    pub fn first(&mut self) -> (r: Result<Option<M>, Error>)
        ensures
            old(self).chain().rejected matches Some(m) ==> refused(m, r) && final(self).calls() == old(self).calls()
                && final(self).answers() == old(self).answers() && final(self).counts() == old(self).counts()
                && final(self).chain() == empty_chain(),
            old(self).chain().rejected is None && !is_identifier(M::spec_primary_key()) ==> refused(
                identifier_message(M::spec_primary_key()),
                r,
            ) && final(self).calls() == old(self).calls() && final(self).answers() == old(self).answers()
                && final(self).chain() == empty_chain(),
            old(self).chain().rejected is None && is_identifier(M::spec_primary_key()) ==> ({
                let sql = chain_select_sql(
                    M::spec_table_name(),
                    ChainModel {
                        limit: Some(1),
                        order_by: old(self).chain().order_by.push((M::spec_primary_key(), true)),
                        ..old(self).chain()
                    },
                );
                &&& has_injection(sql) ==> refused(injection_message(sql), r) && final(self).calls() == old(self).calls()
                    && final(self).answers() == old(self).answers() && final(self).counts() == old(self).counts()
                &&& !has_injection(sql) ==> ({
                    &&& (final(self).calls() == old(self).calls().push(
                        DriverCall::Query(
                            sql,
                            chain_params(old(self).chain().conditions),
                        ),
                    ))
                    &&& (one_more(old(self).answers(), final(self).answers()))
                    &&& (first_of_answer::<M>(final(self).answers().last(), r))
                })
            }),
    {
        self.order(M::primary_key(), true);
        self.find_one()
    }

    /// The last row: the first ordered by primary key descending.
    pub fn last(&mut self) -> (r: Result<Option<M>, Error>)
        ensures
            old(self).chain().rejected matches Some(m) ==> refused(m, r) && final(self).calls() == old(self).calls()
                && final(self).answers() == old(self).answers() && final(self).counts() == old(self).counts()
                && final(self).chain() == empty_chain(),
            old(self).chain().rejected is None && !is_identifier(M::spec_primary_key()) ==> refused(
                identifier_message(M::spec_primary_key()),
                r,
            ) && final(self).calls() == old(self).calls() && final(self).answers() == old(self).answers()
                && final(self).chain() == empty_chain(),
            old(self).chain().rejected is None && is_identifier(M::spec_primary_key()) ==> ({
                let sql = chain_select_sql(
                    M::spec_table_name(),
                    ChainModel {
                        limit: Some(1),
                        order_by: old(self).chain().order_by.push((M::spec_primary_key(), false)),
                        ..old(self).chain()
                    },
                );
                &&& has_injection(sql) ==> refused(injection_message(sql), r) && final(self).calls() == old(self).calls()
                    && final(self).answers() == old(self).answers() && final(self).counts() == old(self).counts()
                &&& !has_injection(sql) ==> ({
                    &&& (final(self).calls() == old(self).calls().push(
                        DriverCall::Query(
                            sql,
                            chain_params(old(self).chain().conditions),
                        ),
                    ))
                    &&& (one_more(old(self).answers(), final(self).answers()))
                    &&& (first_of_answer::<M>(final(self).answers().last(), r))
                })
            }),
    {
        self.order(M::primary_key(), false);
        self.find_one()
    }

    /// Counts the rows matching the chained conditions. The chain is reset
    /// before the query runs.
    pub fn count(&mut self) -> (r: Result<i64, Error>)
        ensures
            old(self).chain().rejected matches Some(m) ==> refused(m, r) && final(self).calls() == old(self).calls()
                && final(self).answers() == old(self).answers() && final(self).counts() == old(self).counts()
                && final(self).chain() == empty_chain(),
            old(self).chain().rejected is None ==> ({
                let sql = "SELECT COUNT(*) FROM "@ + M::spec_table_name() + chain_where(old(self).chain().conditions);
                &&& has_injection(sql) ==> refused(injection_message(sql), r) && final(self).calls() == old(self).calls()
                    && final(self).answers() == old(self).answers() && final(self).counts() == old(self).counts() && final(self).chain() == empty_chain()
                &&& !has_injection(sql) ==> ({
                    &&& (final(self).calls() == old(self).calls().push(
                        DriverCall::Query(
                            sql,
                            chain_params(old(self).chain().conditions),
                        ),
                    ))
                    &&& (final(self).chain() == empty_chain())
                    &&& (one_more(old(self).answers(), final(self).answers()))
                    &&& (match final(self).answers().last() {
                        Ok(res) => r == Ok::<i64, Error>(spec_count(res.rows@)),
                        Err(e) => r == Err::<i64, Error>(e),
                    })
                })
            }),
    {
        match self.take_rejection() {
            Some(e) => {
                return Err(e);
            },
            None => {},
        }
        let mut sql = String::from_str("SELECT COUNT(*) FROM ");
        push_str(&mut sql, M::table_name());
        let params = self.flatten_conditions(&mut sql);
        self.reset_chain();
        let result = self.guarded_query(sql.as_str(), params.as_slice());
        match result {
            Ok(res) => Ok(count_from_rows(&res.rows)),
            Err(e) => Err(e),
        }
    }

    /// Finds the row whose primary key is `id`. The chain is left as it is.
    pub fn find_by_id(&mut self, id: i64) -> (r: Result<Option<M>, Error>)
        ensures
            final(self).chain() == old(self).chain(),
            ({
                let sql = "SELECT * FROM "@ + M::spec_table_name() + " WHERE "@ + M::spec_primary_key() + " = ?"@;
                &&& has_injection(sql) ==> refused(injection_message(sql), r) && final(self).calls() == old(self).calls()
                    && final(self).answers() == old(self).answers()
                &&& !has_injection(sql) ==> final(self).calls() == old(self).calls().push(
                    DriverCall::Query(sql, seq![ParamModel::Int(id)]),
                ) && one_more(old(self).answers(), final(self).answers()) && first_of_answer::<M>(
                    final(self).answers().last(),
                    r,
                )
            }),
    {
        let mut sql = String::from_str("SELECT * FROM ");
        push_str(&mut sql, M::table_name());
        push_str(&mut sql, " WHERE ");
        push_str(&mut sql, M::primary_key());
        push_str(&mut sql, " = ?");
        let mut params: Vec<Parameter> = Vec::new();
        params.push(Parameter::Int(id));
        assert(param_models(params@) =~= seq![ParamModel::Int(id)]);
        let result = self.guarded_query(sql.as_str(), params.as_slice());
        match result {
            Ok(res) => {
                if res.rows.len() == 0 {
                    Ok(None)
                } else {
                    let values = row_to_values(&res.rows[0]);
                    match M::from_row(values.as_slice()) {
                        Ok(m) => Ok(Some(m)),
                        Err(e) => Err(Error::Protocol(e)),
                    }
                }
            },
            Err(e) => Err(e),
        }
    }

    /// Finds the rows where `column` equals `value`. The chain is left as it is.
    pub fn find_where(&mut self, column: &str, value: Value) -> (r: Result<Vec<M>, Error>)
        ensures
            final(self).chain() == old(self).chain(),
            ({
                let sql = "SELECT * FROM "@ + M::spec_table_name() + " WHERE "@ + column@ + " = ?"@;
                &&& has_injection(sql) ==> refused(injection_message(sql), r) && final(self).calls() == old(self).calls()
                    && final(self).answers() == old(self).answers()
                &&& !has_injection(sql) ==> final(self).calls() == old(self).calls().push(
                    DriverCall::Query(sql, seq![value_param(value@)]),
                ) && one_more(old(self).answers(), final(self).answers()) && models_of_answer::<M>(
                    final(self).answers().last(),
                    r,
                )
            }),
    {
        let mut sql = String::from_str("SELECT * FROM ");
        push_str(&mut sql, M::table_name());
        push_str(&mut sql, " WHERE ");
        push_str(&mut sql, column);
        push_str(&mut sql, " = ?");
        let mut params: Vec<Parameter> = Vec::new();
        params.push(value_to_param(&value));
        assert(param_models(params@) =~= seq![value_param(value@)]);
        let result = self.guarded_query(sql.as_str(), params.as_slice());
        match result {
            Ok(res) => self.parse_rows(&res.rows),
            Err(e) => Err(e),
        }
    }

    pub(crate) fn commit_tx(&mut self) -> (r: Result<(), Error>)
        ensures
            final(self).calls() == old(self).calls().push(DriverCall::Commit),
            final(self).tx_results() == old(self).tx_results().push(r),
            final(self).chain() == old(self).chain(),
    {
        self.driver.commit()
    }

    pub(crate) fn rollback_tx(&mut self) -> (r: Result<(), Error>)
        ensures
            final(self).calls() == old(self).calls().push(DriverCall::Rollback),
            final(self).tx_results() == old(self).tx_results().push(r),
            final(self).chain() == old(self).chain(),
    {
        self.driver.rollback()
    }
}

/// The count a `COUNT(*)` result gives: the first cell of the first row read
/// as an `i64`, or zero when there is none or it is not a number.
pub open spec fn spec_count(rows: Seq<Row>) -> i64 {
    if rows.len() > 0 && rows[0].spec_cells().len() > 0 && rows[0].spec_cells()[0] is Some {
        match spec_parse_i64(rows[0].spec_cells()[0].unwrap()) {
            Some(v) => v,
            None => 0,
        }
    } else {
        0
    }
}

/// `after` is `before` with one more entry.
pub open spec fn one_more<T>(before: Seq<T>, after: Seq<T>) -> bool {
    &&& after.len() == before.len() + 1
    &&& forall|i: int| 0 <= i < before.len() ==> #[trigger] after[i] == before[i]
}

/// `r` is what the models of an answer give: the models of its rows, or the
/// driver's error.
pub open spec fn models_of_answer<M: Model>(a: Result<QueryResult, Error>, r: Result<Vec<M>, Error>) -> bool {
    match a {
        Ok(res) => rows_convert::<M>(res.rows@, r),
        Err(e) => r == Err::<Vec<M>, Error>(e),
    }
}

/// `r` is what the first row of an answer gives: nothing for no rows, the
/// first row's model, a protocol error when it does not convert, or the
/// driver's error.
pub open spec fn first_of_answer<M: Model>(a: Result<QueryResult, Error>, r: Result<Option<M>, Error>) -> bool {
    match a {
        Ok(res) => if res.rows@.len() == 0 {
            r == Ok::<Option<M>, Error>(None)
        } else {
            match M::spec_from_row(row_model_values(res.rows@[0])) {
                Some(m) => r == Ok::<Option<M>, Error>(Some(m)),
                None => r matches Err(e) && e is Protocol,
            }
        },
        Err(e) => r == Err::<Option<M>, Error>(e),
    }
}

/// The count a `COUNT(*)` result gives.
pub fn count_from_rows(rows: &Vec<Row>) -> (r: i64)
    ensures
        r == spec_count(rows@),
{
    if rows.len() > 0 {
        match rows[0].get(0) {
            Some(val) => match parse_i64(val) {
                Some(v) => v,
                None => 0,
            },
            None => 0,
        }
    } else {
        0
    }
}


impl<'a, M: Model, D: DatabaseDriver> QueryBuilder<'a, M, D> {
    /// Inserts a model. When the primary key's value is `0` or null, the key
    /// column is left out so that the database assigns it. Returns what the
    /// driver reports as the last inserted id.
    pub fn insert(&mut self, model: &M) -> (r: Result<Option<i64>, Error>)
        ensures
            final(self).chain() == old(self).chain(),
            ({
                let sql = insert_statement(
                    M::spec_table_name(),
                    insert_columns(M::spec_columns(), model.spec_values(), M::spec_primary_key()),
                );
                &&& has_injection(sql) ==> refused(injection_message(sql), r) && final(self).calls() == old(self).calls()
                    && final(self).counts() == old(self).counts() && final(self).ids() == old(self).ids()
                &&& !has_injection(sql) ==> ({
                    &&& final(self).calls() == old(self).calls().push(
                        DriverCall::Execute(
                            sql,
                            insert_values(M::spec_columns(), model.spec_values(), M::spec_primary_key()).map_values(
                                |v: ValueModel| value_param(v),
                            ),
                        ),
                    )
                    &&& one_more(old(self).counts(), final(self).counts())
                    &&& match final(self).counts().last() {
                        Ok(_) => one_more(old(self).ids(), final(self).ids()) && r == final(self).ids().last(),
                        Err(e) => r == Err::<Option<i64>, Error>(e) && final(self).ids() == old(self).ids(),
                    }
                })
            }),
    {
        let values = M::to_values(model);
        let columns = M::columns();
        let pk = M::primary_key();
        let ghost cols = M::spec_columns();
        let ghost vals = model.spec_values();
        let mut pk_idx: Option<usize> = None;
        let mut i: usize = 0;
        while i < columns.len()
            invariant
                i <= columns.len(),
                cols == columns@.map_values(|s: &str| s@),
                pk_idx is None ==> position_from(cols, pk@, 0) == position_from(cols, pk@, i as int),
                pk_idx matches Some(k) ==> k < columns.len() && position_from(cols, pk@, 0) == Some(k as int)
                    && i == columns.len(),
            decreases columns.len() - i,
        {
            assert(cols[i as int] == columns@[i as int]@);
            if str_eq(columns[i], pk) {
                pk_idx = Some(i);
                i = columns.len();
            } else {
                i += 1;
            }
        }
        proof {
            if pk_idx is None {
                assert(position_from(cols, pk@, i as int) is None);
            }
        }
        let auto_idx: Option<usize> = match pk_idx {
            Some(k) => if k < values.len() && (match &values[k] {
                Value::I64(0) => true,
                Value::I32(0) => true,
                Value::Null => true,
                _ => false,
            }) {
                Some(k)
            } else {
                None
            },
            None => None,
        };
        assert(vals == values@.map_values(|v: Value| v@));
        proof {
            match pk_idx {
                Some(k) => {
                    if k < values.len() {
                        assert(vals[k as int] == values@[k as int]@);
                    }
                },
                None => {},
            }
            assert(auto_idx == (match auto_key_position(cols, vals, pk@) {
                Some(x) => Some(x as usize),
                None => None::<usize>,
            }));
        }
        let ghost ins_cols = insert_columns(cols, vals, pk@);
        let ghost ins_vals = insert_values(cols, vals, pk@);
        let mut names: Vec<String> = Vec::new();
        let mut params: Vec<Parameter> = Vec::new();
        match auto_idx {
            Some(k) => {
                let ghost rc = remove_at(cols, k as int);
                let ghost rv = remove_at(vals, k as int);
                let nc = columns.len() - 1;
                let nv = values.len() - 1;
                let n = if nc <= nv { nc } else { nv };
                assert(rc.len() == nc && rv.len() == nv);
                let mut j: usize = 0;
                while j < n
                    invariant
                        j <= n,
                        n <= nc,
                        n <= nv,
                        nc + 1 == columns.len(),
                        nv + 1 == values.len(),
                        k < columns.len(),
                        k < values.len(),
                        cols == columns@.map_values(|s: &str| s@),
                        vals == values@.map_values(|v: Value| v@),
                        rc == remove_at(cols, k as int),
                        rv == remove_at(vals, k as int),
                        views(names@) == rc.take(j as int),
                        param_models(params@) == rv.take(j as int).map_values(|v: ValueModel| value_param(v)),
                    decreases n - j,
                {
                    let src: usize = if j < k { j } else { j + 1 };
                    assert(rc[j as int] == cols[src as int]);
                    assert(rv[j as int] == vals[src as int]);
                    let ghost nb = names@;
                    let ghost pb = params@;
                    let c = copy_str(columns[src]);
                    let p = value_to_param(&values[src]);
                    names.push(c);
                    params.push(p);
                    assert(views(names@) =~= views(nb).push(c@));
                    assert(rc.take(j + 1) =~= rc.take(j as int).push(rc[j as int]));
                    assert(param_models(params@) =~= param_models(pb).push(p@));
                    assert(rv.take(j + 1).map_values(|v: ValueModel| value_param(v)) =~= rv.take(j as int).map_values(
                        |v: ValueModel| value_param(v),
                    ).push(value_param(rv[j as int])));
                    j += 1;
                }
                assert(views(names@) =~= ins_cols);
                assert(param_models(params@) =~= ins_vals.map_values(|v: ValueModel| value_param(v)));
            },
            None => {
                let mut j: usize = 0;
                while j < columns.len()
                    invariant
                        j <= columns.len(),
                        cols == columns@.map_values(|s: &str| s@),
                        views(names@) == cols.take(j as int),
                    decreases columns.len() - j,
                {
                    let ghost nb = names@;
                    let c = copy_str(columns[j]);
                    names.push(c);
                    assert(views(names@) =~= views(nb).push(c@));
                    assert(cols.take(j + 1) =~= cols.take(j as int).push(cols[j as int]));
                    j += 1;
                }
                let mut j: usize = 0;
                while j < values.len()
                    invariant
                        j <= values.len(),
                        vals == values@.map_values(|v: Value| v@),
                        param_models(params@) == vals.take(j as int).map_values(|v: ValueModel| value_param(v)),
                    decreases values.len() - j,
                {
                    let ghost pb = params@;
                    let p = value_to_param(&values[j]);
                    params.push(p);
                    assert(param_models(params@) =~= param_models(pb).push(p@));
                    assert(vals.take(j + 1).map_values(|v: ValueModel| value_param(v)) =~= vals.take(j as int).map_values(
                        |v: ValueModel| value_param(v),
                    ).push(value_param(vals[j as int])));
                    j += 1;
                }
                assert(cols.take(columns.len() as int) =~= cols);
                assert(vals.take(values.len() as int) =~= vals);
                assert(views(names@) =~= ins_cols);
                assert(param_models(params@) =~= ins_vals.map_values(|v: ValueModel| value_param(v)));
            },
        }
        let mut sql = String::from_str("INSERT INTO ");
        push_str(&mut sql, M::table_name());
        push_str(&mut sql, " (");
        let cl = join_strings(&names, ", ");
        push_str(&mut sql, cl.as_str());
        push_str(&mut sql, ") VALUES (");
        let q = placeholders_exec(names.len());
        push_str(&mut sql, q.as_str());
        sql.push(')');
        assert(sql@ =~= insert_statement(M::spec_table_name(), ins_cols));
        let done = self.guarded_execute(sql.as_str(), params.as_slice());
        match done {
            Ok(_) => self.driver.last_insert_id(),
            Err(e) => Err(e),
        }
    }

    /// Sets `column` to `value` on the rows matching the chained
    /// conditions, and returns the number of affected rows. Without a
    /// condition nothing runs and the result is an error. The chain is reset
    /// once the statement is built.
    pub fn update_one(&mut self, column: &str, value: Value) -> (r: Result<u64, Error>)
        ensures
            old(self).chain().rejected matches Some(m) ==> refused(m, r) && final(self).calls() == old(self).calls()
                && final(self).answers() == old(self).answers() && final(self).counts() == old(self).counts()
                && final(self).chain() == empty_chain(),
            old(self).chain().rejected is None ==> ({
                &&& (old(self).chain().conditions.len() == 0 ==> (r matches Err(e) && e is Protocol
                    && e.spec_message() == "update requires at least one WHERE condition"@
                    && final(self).calls() == old(self).calls() && final(self).chain() == old(self).chain()))
                &&& old(self).chain().conditions.len() > 0 ==> ({
                    let sql = "UPDATE "@ + M::spec_table_name() + " SET "@ + column@ + " = ?"@ + chain_where(
                        old(self).chain().conditions,
                    );
                    &&& final(self).chain() == empty_chain()
                    &&& has_injection(sql) ==> refused(injection_message(sql), r) && final(self).calls() == old(self).calls()
                        && final(self).counts() == old(self).counts()
                    &&& !has_injection(sql) ==> final(self).calls() == old(self).calls().push(DriverCall::Execute(sql, seq![value_param(value@)] + chain_params(old(self).chain().conditions)))
                        && final(self).counts() == old(self).counts().push(r)
                })
            }),
    {
        match self.take_rejection() {
            Some(e) => {
                return Err(e);
            },
            None => {},
        }
        if self.conditions.len() == 0 {
            return Err(Error::Protocol(String::from_str("update requires at least one WHERE condition")));
        }
        let mut sql = String::from_str("UPDATE ");
        push_str(&mut sql, M::table_name());
        push_str(&mut sql, " SET ");
        push_str(&mut sql, column);
        push_str(&mut sql, " = ?");
        let mut params: Vec<Parameter> = Vec::new();
        params.push(value_to_param(&value));
        let where_params = self.flatten_conditions(&mut sql);
        let mut k: usize = 0;
        let ghost p0 = params@;
        while k < where_params.len()
            invariant
                k <= where_params.len(),
                param_models(params@) == param_models(p0) + param_models(where_params@).take(k as int),
            decreases where_params.len() - k,
        {
            let ghost b = params@;
            let x = where_params[k].copy();
            params.push(x);
            assert(param_models(params@) =~= param_models(b).push(x@));
            assert(param_models(where_params@).take(k + 1) =~= param_models(where_params@).take(k as int).push(
                where_params@[k as int]@,
            ));
            k += 1;
        }
        assert(param_models(where_params@).take(where_params.len() as int) =~= param_models(where_params@));
        assert(param_models(p0) =~= seq![value_param(value@)]);
        self.reset_chain();
        self.guarded_execute(sql.as_str(), params.as_slice())
    }

    /// Sets every column whose value in `model` is not its type's zero, on
    /// the rows matching the chained conditions, and returns the number of
    /// affected rows. With no such column, or without a condition, nothing
    /// runs and the result is an error.
    pub fn update_model(&mut self, model: &M) -> (r: Result<u64, Error>)
        ensures
            old(self).chain().rejected matches Some(m) ==> refused(m, r) && final(self).calls() == old(self).calls()
                && final(self).answers() == old(self).answers() && final(self).counts() == old(self).counts()
                && final(self).chain() == empty_chain(),
            old(self).chain().rejected is None ==> ({
                let sets = model_conditions(M::spec_columns(), model.spec_values(), M::spec_columns().len() as int);
                &&& sets.len() == 0 ==> (r matches Err(e) && e is Protocol
                    && e.spec_message() == "no non-zero fields to update"@
                    && final(self).calls() == old(self).calls() && final(self).chain() == old(self).chain())
                &&& sets.len() > 0 && old(self).chain().conditions.len() == 0 ==> (r matches Err(e) && e is Protocol
                    && e.spec_message() == "update requires at least one WHERE condition"@
                    && final(self).calls() == old(self).calls() && final(self).chain() == old(self).chain())
                &&& sets.len() > 0 && old(self).chain().conditions.len() > 0 ==> ({
                    let sql = "UPDATE "@ + M::spec_table_name() + " SET "@ + spec_join(
                        sets.map_values(|c: WhereModel| c.0),
                        ", "@,
                    ) + chain_where(old(self).chain().conditions);
                    &&& final(self).chain() == empty_chain()
                    &&& has_injection(sql) ==> refused(injection_message(sql), r) && final(self).calls() == old(self).calls()
                        && final(self).counts() == old(self).counts()
                    &&& !has_injection(sql) ==> final(self).calls() == old(self).calls().push(DriverCall::Execute(sql, chain_params(sets) + chain_params(old(self).chain().conditions)))
                        && final(self).counts() == old(self).counts().push(r)
                })
            }),
    {
        match self.take_rejection() {
            Some(e) => {
                return Err(e);
            },
            None => {},
        }
        let values = M::to_values(model);
        let columns = M::columns();
        let ghost cols = M::spec_columns();
        let ghost vals = model.spec_values();
        let mut items: Vec<String> = Vec::new();
        let mut params: Vec<Parameter> = Vec::new();
        let mut i: usize = 0;
        while i < columns.len()
            invariant
                i <= columns.len(),
                cols == columns@.map_values(|s: &str| s@),
                vals == values@.map_values(|v: Value| v@),
                views(items@) == model_conditions(cols, vals, i as int).map_values(|c: WhereModel| c.0),
                param_models(params@) == chain_params(model_conditions(cols, vals, i as int)),
                model_conditions(cols, vals, i as int).len() == items@.len(),
            decreases columns.len() - i,
        {
            let ghost prev = model_conditions(cols, vals, i as int);
            if i < values.len() && !is_value_default(&values[i]) {
                let mut item = copy_str(columns[i]);
                push_str(&mut item, " = ?");
                let p = value_to_param(&values[i]);
                let ghost ib = items@;
                let ghost pb = params@;
                items.push(item);
                params.push(p);
                proof {
                    let it = (cols[i as int] + " = ?"@, seq![value_param(vals[i as int])]);
                    assert(vals[i as int] == values@[i as int]@);
                    assert(model_conditions(cols, vals, i + 1) == prev + seq![it]);
                    assert(prev + seq![it] =~= prev.push(it));
                    assert(views(items@) =~= views(ib).push(item@));
                    assert(prev.push(it).map_values(|c: WhereModel| c.0) =~= prev.map_values(|c: WhereModel| c.0).push(it.0));
                    assert(prev.push(it).drop_last() =~= prev);
                    assert(param_models(params@) =~= param_models(pb).push(p@));
                    assert(param_models(pb).push(p@) =~= param_models(pb) + it.1);
                }
            } else {
                assert(model_conditions(cols, vals, i + 1) =~= prev);
            }
            i += 1;
        }
        let ghost sets = model_conditions(cols, vals, columns.len() as int);
        if items.len() == 0 {
            return Err(Error::Protocol(String::from_str("no non-zero fields to update")));
        }
        if self.conditions.len() == 0 {
            return Err(Error::Protocol(String::from_str("update requires at least one WHERE condition")));
        }
        let mut sql = String::from_str("UPDATE ");
        push_str(&mut sql, M::table_name());
        push_str(&mut sql, " SET ");
        let j = join_strings(&items, ", ");
        push_str(&mut sql, j.as_str());
        let where_params = self.flatten_conditions(&mut sql);
        let mut k: usize = 0;
        let ghost p0 = params@;
        while k < where_params.len()
            invariant
                k <= where_params.len(),
                param_models(params@) == param_models(p0) + param_models(where_params@).take(k as int),
            decreases where_params.len() - k,
        {
            let ghost b = params@;
            let x = where_params[k].copy();
            params.push(x);
            assert(param_models(params@) =~= param_models(b).push(x@));
            assert(param_models(where_params@).take(k + 1) =~= param_models(where_params@).take(k as int).push(
                where_params@[k as int]@,
            ));
            k += 1;
        }
        assert(param_models(where_params@).take(where_params.len() as int) =~= param_models(where_params@));
        self.reset_chain();
        self.guarded_execute(sql.as_str(), params.as_slice())
    }

    /// Deletes the rows matching the chained conditions and returns the
    /// number of affected rows. Without a condition nothing runs and the
    /// result is an error.
    pub fn delete(&mut self) -> (r: Result<u64, Error>)
        ensures
            old(self).chain().rejected matches Some(m) ==> refused(m, r) && final(self).calls() == old(self).calls()
                && final(self).answers() == old(self).answers() && final(self).counts() == old(self).counts()
                && final(self).chain() == empty_chain(),
            old(self).chain().rejected is None ==> ({
                &&& (old(self).chain().conditions.len() == 0 ==> (r matches Err(e) && e is Protocol
                    && e.spec_message() == "delete requires at least one WHERE condition"@
                    && final(self).calls() == old(self).calls() && final(self).chain() == old(self).chain()))
                &&& old(self).chain().conditions.len() > 0 ==> ({
                    let sql = "DELETE FROM "@ + M::spec_table_name() + chain_where(old(self).chain().conditions);
                    &&& final(self).chain() == empty_chain()
                    &&& has_injection(sql) ==> refused(injection_message(sql), r) && final(self).calls() == old(self).calls()
                        && final(self).counts() == old(self).counts()
                    &&& !has_injection(sql) ==> final(self).calls() == old(self).calls().push(DriverCall::Execute(sql, chain_params(old(self).chain().conditions)))
                        && final(self).counts() == old(self).counts().push(r)
                })
            }),
    {
        match self.take_rejection() {
            Some(e) => {
                return Err(e);
            },
            None => {},
        }
        if self.conditions.len() == 0 {
            return Err(Error::Protocol(String::from_str("delete requires at least one WHERE condition")));
        }
        let mut sql = String::from_str("DELETE FROM ");
        push_str(&mut sql, M::table_name());
        let params = self.flatten_conditions(&mut sql);
        self.reset_chain();
        self.guarded_execute(sql.as_str(), params.as_slice())
    }

    /// Creates the model's table, then an index for each indexed column, a
    /// unique index for each unique column and one for each composite
    /// unique group, stopping at the first statement the driver refuses.
    /// When some column's type has no column type nothing runs and the result
    /// is a model error.
    pub fn create_table(&mut self) -> (r: Result<(), Error>)
        ensures
            final(self).chain() == old(self).chain(),
            table_statements(M::spec_table_name(), M::spec_schema(), old(self).db()) is None ==> (r matches Err(e)
                && e is Model && e.spec_message() == "unsupported column type"@ && final(self).calls() == old(
                self,
            ).calls() && final(self).counts() == old(self).counts()),
            table_statements(M::spec_table_name(), M::spec_schema(), old(self).db()) is Some ==> ({
                let stmts = table_statements(M::spec_table_name(), M::spec_schema(), old(self).db()).unwrap();
                let made = final(self).calls().len() - old(self).calls().len();
                &&& 0 <= made <= stmts.len()
                &&& final(self).calls() == old(self).calls() + executes(stmts.take(made))
                &&& final(self).counts().len() == old(self).counts().len() + made
                &&& forall|k: int| 0 <= k < old(self).counts().len() ==> #[trigger] final(self).counts()[k]
                    == old(self).counts()[k]
                &&& forall|k: int|
                    old(self).counts().len() <= k < final(self).counts().len() - 1 ==> (
                    #[trigger] final(self).counts()[k]) is Ok
                &&& forall|k: int| 0 <= k < made ==> !has_injection(#[trigger] stmts[k])
                &&& (made < stmts.len() && has_injection(stmts[made]) && (made == 0 || final(self).counts().last() is Ok)
                    && refused(injection_message(stmts[made]), r)) || (made >= 1 && match final(self).counts().last() {
                    Ok(_) => made == stmts.len() && r is Ok,
                    Err(e) => r == Err::<(), Error>(e),
                })
            }),
    {
        let schema = M::table_schema();
        let db = self.driver.db_type();
        let table = M::table_name();
        let stmts = match table_statements_exec(table, schema, db) {
            Some(v) => v,
            None => {
                return Err(Error::Model(String::from_str("unsupported column type")));
            },
        };
        let ghost all = views(stmts@);
        let ghost start = self.calls();
        let ghost outcomes = self.counts();
        let empty: Vec<Parameter> = Vec::new();
        assert(param_models(empty@) =~= Seq::<ParamModel>::empty());
        let mut i: usize = 0;
        assert(executes(all.take(0)) =~= Seq::<DriverCall>::empty());
        assert(start + Seq::<DriverCall>::empty() =~= start);
        while i < stmts.len()
            invariant
                i <= stmts.len(),
                all == views(stmts@),
                all.len() >= 1,
                table_statements(M::spec_table_name(), M::spec_schema(), old(self).db()) == Some(all),
                start == old(self).calls(),
                param_models(empty@) == Seq::<ParamModel>::empty(),
                self.calls() == start + executes(all.take(i as int)),
                self.chain() == old(self).chain(),
                outcomes == old(self).counts(),
                self.counts().len() == outcomes.len() + i,
                forall|k: int| 0 <= k < outcomes.len() ==> #[trigger] self.counts()[k] == outcomes[k],
                forall|k: int| outcomes.len() <= k < self.counts().len() ==> (#[trigger] self.counts()[k]) is Ok,
                forall|k: int| 0 <= k < i ==> !has_injection(#[trigger] all[k]),
            decreases stmts.len() - i,
        {
            let ghost before = self.calls();
            match check_sql_injection(stmts[i].as_str()) {
                Ok(()) => {},
                Err(e) => {
                    assert(self.calls().len() - old(self).calls().len() == i) by {
                        assert(executes(all.take(i as int)).len() == i);
                    }
                    return Err(e);
                },
            }
            let res = self.driver.execute(stmts[i].as_str(), empty.as_slice());
            assert(all.take(i + 1) =~= all.take(i as int).push(all[i as int]));
            assert(executes(all.take(i + 1)) =~= executes(all.take(i as int)).push(
                DriverCall::Execute(all[i as int], Seq::empty()),
            ));
            assert(self.calls() =~= start + executes(all.take(i + 1)));
            if let Err(e) = res {
                return Err(e);
            }
            i += 1;
        }
        assert(all.take(stmts.len() as int) =~= all);
        Ok(())
    }
}

/// The text of an ordering item: the column, then `" ASC"` when it sorts
/// ascending and `" DESC"` when descending.
pub open spec fn directed(o: (Seq<char>, bool)) -> Seq<char> {
    if o.1 {
        o.0 + " ASC"@
    } else {
        o.0 + " DESC"@
    }
}

/// A chained `SELECT` with ordering items and no limit or offset is the
/// `SELECT` of the same chain without them, followed by `" ORDER BY "` and
/// the items in the order they were chained, each with its own direction;
/// so it ends with the last item's column and direction.
pub proof fn law_select_order(table: Seq<char>, c: ChainModel)
    requires
        c.order_by.len() > 0,
        c.limit is None,
        c.offset is None,
    ensures
        chain_select_sql(table, c) == chain_select_sql(table, ChainModel { order_by: Seq::empty(), ..c })
            + " ORDER BY "@ + spec_join(c.order_by.map_values(|o: (Seq<char>, bool)| directed(o)), ", "@),
        ends_with(chain_select_sql(table, c), directed(c.order_by.last())),
{
    let items = c.order_by.map_values(|o: (Seq<char>, bool)| directed(o));
    assert(c.order_by.map_values(|o: (Seq<char>, bool)| order_item(o)) =~= items);
    let e = ChainModel { order_by: Seq::empty(), ..c };
    let head = "SELECT * FROM "@ + table + joins_sql(c.joins) + chain_where(c.conditions);
    assert(order_part(e.order_by) =~= Seq::<char>::empty());
    assert(limit_part(c.limit) =~= Seq::<char>::empty());
    assert(offset_part(c.offset) =~= Seq::<char>::empty());
    assert(chain_select_sql(table, e) =~= head);
    let j = spec_join(items, ", "@);
    assert(chain_select_sql(table, c) =~= head + " ORDER BY "@ + j);
    let last = directed(c.order_by.last());
    assert(items.last() == last);
    let pre = if items.len() == 1 {
        Seq::<char>::empty()
    } else {
        spec_join(items.drop_last(), ", "@) + ", "@
    };
    assert(j =~= pre + last);
    let s = chain_select_sql(table, c);
    assert(s =~= (head + " ORDER BY "@ + pre) + last);
    assert(s.subrange(s.len() - last.len(), s.len() as int) =~= last);
}

proof fn lemma_first_position(cols: Seq<Seq<char>>, pk: Seq<char>, from: int, k: int)
    requires
        0 <= from <= k < cols.len(),
        cols[k] == pk,
        forall|j: int| 0 <= j < k ==> cols[j] != pk,
    ensures
        position_from(cols, pk, from) == Some(k),
    decreases k - from,
{
    if from < k {
        lemma_first_position(cols, pk, from + 1, k);
    }
}

/// Inserting a model whose primary key holds a value that the database
/// assigns in its place (`0` as an `i32` or an `i64`, or null) names every
/// column but the key and passes every value but the key's, in order; with
/// any other key value every column and value goes in. The key is the first
/// column with the key's name.
pub proof fn law_insert_key(cols: Seq<Seq<char>>, vals: Seq<ValueModel>, pk: Seq<char>, k: int)
    requires
        cols.len() == vals.len(),
        0 <= k < cols.len(),
        cols[k] == pk,
        forall|j: int| 0 <= j < k ==> cols[j] != pk,
    ensures
        (vals[k] == ValueModel::I32(0) || vals[k] == ValueModel::I64(0) || vals[k] == ValueModel::Null) ==> (
        insert_columns(cols, vals, pk) == cols.take(k) + cols.skip(k + 1) && insert_values(cols, vals, pk)
            == vals.take(k) + vals.skip(k + 1) && insert_columns(cols, vals, pk).len() + 1 == cols.len()),
        !(vals[k] == ValueModel::I32(0) || vals[k] == ValueModel::I64(0) || vals[k] == ValueModel::Null) ==> (
        insert_columns(cols, vals, pk) == cols && insert_values(cols, vals, pk) == vals),
{
    lemma_first_position(cols, pk, 0, k);
    let rc = remove_at(cols, k);
    let rv = remove_at(vals, k);
    assert(rc.len() == rv.len());
    assert(rc.take(rc.len() as int) =~= rc);
    assert(rv.take(rv.len() as int) =~= rv);
}

} // verus!
