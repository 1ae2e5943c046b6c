//! A MySQL driver that keeps no connection: it records whether it was
//! connected and answers every statement with an empty result.
use vstd::prelude::*;
use super::{DriverCall, param_models, ConnectionConfig, DatabaseDriver, DatabaseType, DriverFactory, Parameter, PlaceholderStyle, QueryResult, push_doubled, spec_double};
use crate::error::Error;
use crate::text::{push_str, push_decimal, spec_decimal};

verus! {

pub struct MysqlDriver {
    pub connected: bool,
    pub calls: Ghost<Seq<DriverCall>>,
    pub answers: Ghost<Seq<Result<QueryResult, Error>>>,
    pub counts: Ghost<Seq<Result<u64, Error>>>,
    pub ids: Ghost<Seq<Result<Option<i64>, Error>>>,
    pub tx_results: Ghost<Seq<Result<(), Error>>>,
}

impl MysqlDriver {
    /// A driver that is not connected and has been handed nothing yet.
    pub fn new() -> (d: Self)
        ensures
            !d.connected,
            d.calls@ == Seq::<DriverCall>::empty(),
            d.answers@ == Seq::<Result<QueryResult, Error>>::empty(),
            d.counts@ == Seq::<Result<u64, Error>>::empty(),
            d.ids@ == Seq::<Result<Option<i64>, Error>>::empty(),
            d.tx_results@ == Seq::<Result<(), Error>>::empty(),
    {
        MysqlDriver {
            connected: false,
            calls: Ghost(Seq::empty()),
            answers: Ghost(Seq::empty()),
            counts: Ghost(Seq::empty()),
            ids: Ghost(Seq::empty()),
            tx_results: Ghost(Seq::empty()),
        }
    }
}

/// `LIMIT` clause in MySQL's `LIMIT offset, count` form.
pub open spec fn mysql_limit_offset(limit: Option<usize>, offset: Option<usize>) -> Seq<char> {
    match (limit, offset) {
        (Some(l), Some(o)) => "LIMIT "@ + spec_decimal(o as nat) + ", "@ + spec_decimal(l as nat),
        (Some(l), None) => "LIMIT "@ + spec_decimal(l as nat),
        (None, Some(o)) => "LIMIT "@ + spec_decimal(o as nat) + ", 18446744073709551615"@,
        (None, None) => Seq::empty(),
    }
}

fn empty_result() -> (r: QueryResult)
    ensures
        r.rows@.len() == 0,
        r.affected_rows == 0,
        r.last_insert_id is None,
{
    QueryResult { rows: Vec::new(), affected_rows: 0, last_insert_id: None }
}

impl DatabaseDriver for MysqlDriver {
    open spec fn spec_calls(&self) -> Seq<DriverCall> {
        self.calls@
    }

    open spec fn spec_db_type(&self) -> DatabaseType {
        DatabaseType::Mysql
    }

    open spec fn spec_answers(&self) -> Seq<Result<QueryResult, Error>> {
        self.answers@
    }

    open spec fn spec_counts(&self) -> Seq<Result<u64, Error>> {
        self.counts@
    }

    open spec fn spec_ids(&self) -> Seq<Result<Option<i64>, Error>> {
        self.ids@
    }

    open spec fn spec_tx_results(&self) -> Seq<Result<(), Error>> {
        self.tx_results@
    }

    open spec fn spec_connected(&self) -> bool {
        self.connected
    }

    fn db_type(&self) -> (r: DatabaseType)
        ensures
            r == DatabaseType::Mysql,
    {
        DatabaseType::Mysql
    }

    fn connect(&mut self, config: &ConnectionConfig) -> (r: Result<(), Error>)
        ensures
            final(self).connected,
            r is Ok,
    {
        self.calls = Ghost(self.calls@.push(DriverCall::Connect(*config)));
        self.connected = true;
        Ok(())
    }

    fn close(&mut self) -> (r: Result<(), Error>)
        ensures
            !final(self).connected,
            r is Ok,
    {
        self.connected = false;
        Ok(())
    }

    fn query(&mut self, sql: &str, params: &[Parameter]) -> (r: Result<QueryResult, Error>)
        ensures
            final(self).connected == old(self).connected,
            r matches Ok(q) && q.rows@.len() == 0 && q.affected_rows == 0 && q.last_insert_id is None,
    {
        self.calls = Ghost(self.calls@.push(DriverCall::Query(sql@, param_models(params@))));
        let r = Ok(empty_result());
        self.answers = Ghost(self.answers@.push(r));
        r
    }

    fn execute(&mut self, sql: &str, params: &[Parameter]) -> (r: Result<u64, Error>)
        ensures
            final(self).connected == old(self).connected,
            r == Ok::<u64, Error>(0),
    {
        self.calls = Ghost(self.calls@.push(DriverCall::Execute(sql@, param_models(params@))));
        let r = Ok(0);
        self.counts = Ghost(self.counts@.push(r));
        r
    }

    fn prepare(&mut self, _name: &str, _sql: &str) -> (r: Result<(), Error>)
        ensures
            *final(self) == *old(self),
            r is Ok,
    {
        Ok(())
    }

    fn execute_prepared(&mut self, _name: &str, _params: &[Parameter]) -> (r: Result<QueryResult, Error>)
        ensures
            *final(self) == *old(self),
            r matches Ok(q) && q.rows@.len() == 0 && q.affected_rows == 0 && q.last_insert_id is None,
    {
        Ok(empty_result())
    }

    fn begin(&mut self) -> (r: Result<(), Error>)
        ensures
            final(self).connected == old(self).connected,
            r is Ok,
    {
        self.calls = Ghost(self.calls@.push(DriverCall::Begin));
        let r = Ok(());
        self.tx_results = Ghost(self.tx_results@.push(r));
        r
    }

    fn commit(&mut self) -> (r: Result<(), Error>)
        ensures
            final(self).connected == old(self).connected,
            r is Ok,
    {
        self.calls = Ghost(self.calls@.push(DriverCall::Commit));
        let r = Ok(());
        self.tx_results = Ghost(self.tx_results@.push(r));
        r
    }

    fn rollback(&mut self) -> (r: Result<(), Error>)
        ensures
            final(self).connected == old(self).connected,
            r is Ok,
    {
        self.calls = Ghost(self.calls@.push(DriverCall::Rollback));
        let r = Ok(());
        self.tx_results = Ghost(self.tx_results@.push(r));
        r
    }

    /// `` `ident` `` with every backquote doubled.
    fn escape_identifier(&self, ident: &str) -> (r: String)
        ensures
            r@ == seq!['`'] + spec_double(ident@, '`') + seq!['`'],
    {
        let mut s = String::new();
        s.push('`');
        push_doubled(&mut s, ident, '`');
        s.push('`');
        assert(s@ =~= seq!['`'] + spec_double(ident@, '`') + seq!['`']);
        s
    }

    fn last_insert_id(&mut self) -> (r: Result<Option<i64>, Error>)
        ensures
            final(self).connected == old(self).connected,
            final(self).calls == old(self).calls,
            final(self).answers == old(self).answers,
            final(self).counts == old(self).counts,
            final(self).ids@ == old(self).ids@.push(r),
            r == Ok::<Option<i64>, Error>(None),
    {
        let r = Ok(None);
        self.ids = Ghost(self.ids@.push(r));
        r
    }

    fn is_connected(&self) -> (r: bool)
        ensures
            r == self.connected,
    {
        self.connected
    }

    fn version(&mut self) -> (r: Result<String, Error>)
        ensures
            *final(self) == *old(self),
            r matches Ok(v) && v@ == "MySQL 8.0"@,
    {
        Ok(String::from_str("MySQL 8.0"))
    }

    fn limit_offset_clause(&self, limit: Option<usize>, offset: Option<usize>) -> (r: String)
        ensures
            r@ == mysql_limit_offset(limit, offset),
    {
        let mut s = String::new();
        match (limit, offset) {
            (Some(l), Some(o)) => {
                push_str(&mut s, "LIMIT ");
                push_decimal(&mut s, o as u64);
                push_str(&mut s, ", ");
                push_decimal(&mut s, l as u64);
            },
            (Some(l), None) => {
                push_str(&mut s, "LIMIT ");
                push_decimal(&mut s, l as u64);
            },
            (None, Some(o)) => {
                push_str(&mut s, "LIMIT ");
                push_decimal(&mut s, o as u64);
                push_str(&mut s, ", 18446744073709551615");
            },
            (None, None) => {},
        }
        assert(s@ =~= mysql_limit_offset(limit, offset));
        s
    }

    fn placeholder_style(&self) -> (r: PlaceholderStyle)
        ensures
            r == PlaceholderStyle::Positional,
    {
        PlaceholderStyle::Positional
    }
}

pub struct MysqlDriverFactory;

impl DriverFactory for MysqlDriverFactory {
    type Driver = MysqlDriver;

    /// A new, unconnected driver.
    fn create(&self) -> (d: MysqlDriver)
        ensures
            !d.connected,
            d.calls@ == Seq::<DriverCall>::empty(),
    {
        MysqlDriver::new()
    }

    fn db_type(&self) -> (r: DatabaseType)
        ensures
            r == DatabaseType::Mysql,
    {
        DatabaseType::Mysql
    }
}

} // verus!
