//! The embedded driver: statements run on a [`SqliteConnection`], with the
//! parameters written into the SQL text.
use vstd::prelude::*;
use super::{
    Column, ConnectionConfig, DataType, DatabaseDriver, DatabaseType, DriverCall, DriverFactory, ParamModel,
    Parameter, PlaceholderStyle, QueryResult, Row, param_models, push_doubled, spec_double, spec_param_sql,
};
use crate::error::Error;
use crate::protocol::sqlite_proto::{
    SqliteConnection, SqliteResult, SqliteColumnInfo, EngineModel, ResultModel, run_sql, statement_head,
    table_rows, outcome, row_views, info_views,
};
use crate::protocol::sqltext::{name_after, no_table_name, insert_table_name};
use crate::text::{
    chars_of, string_of, copy_str, push_str, push_decimal, spec_decimal, trim_chars, upper_chars,
    starts_with_chars, find_char, slice_chars, spec_find_char, starts_with, str_eq, lemma_find_bounds,
};

verus! {

/// The text of a cell: none for `NULL`.
pub open spec fn cell_of(v: Seq<char>) -> Option<Seq<char>> {
    if v == "NULL"@ {
        None
    } else {
        Some(v)
    }
}

/// The name of result column `j`; empty past the last column.
pub open spec fn info_name(infos: Seq<(Seq<char>, Seq<char>)>, j: int) -> Seq<char> {
    if 0 <= j < infos.len() {
        infos[j].0
    } else {
        Seq::empty()
    }
}

/// A row holding `values` under the result's column names.
pub open spec fn row_matches(row: Row, values: Seq<Seq<char>>, infos: Seq<(Seq<char>, Seq<char>)>) -> bool {
    &&& row.wf()
    &&& row.spec_names() == Seq::new(values.len(), |j: int| info_name(infos, j))
    &&& row.spec_cells() == values.map_values(|v: Seq<char>| cell_of(v))
}

/// The query result that an engine result gives.
pub open spec fn result_matches(q: QueryResult, m: ResultModel) -> bool {
    &&& q.last_insert_id is None
    &&& match m {
        ResultModel::Rows(rows, infos) => {
            &&& q.rows@.len() == rows.len()
            &&& forall|i: int| 0 <= i < rows.len() ==> row_matches(#[trigger] q.rows@[i], rows[i], infos)
            &&& q.affected_rows == 0
        },
        ResultModel::Done(n) => q.rows@.len() == 0 && q.affected_rows == n,
    }
}

/// The SQL text with each parameter's literal written, in turn, in place of
/// the first `?` left; a parameter with no `?` left is dropped.
pub open spec fn substituted(sql: Seq<char>, params: Seq<ParamModel>) -> Seq<char>
    decreases params.len(),
{
    if params.len() == 0 {
        sql
    } else {
        let s = substituted(sql, params.drop_last());
        match spec_find_char(s, '?') {
            Some(pos) => s.take(pos) + spec_param_sql(params.last()) + s.skip(pos + 1),
            None => s,
        }
    }
}

/// The table an `INSERT` names; empty when it names none.
pub open spec fn insert_target(sql: Seq<char>) -> Seq<char> {
    match name_after(sql, "INTO"@, 4, seq!['(']) {
        Some(t) => t,
        None => Seq::empty(),
    }
}

/// The file an embedded database is kept in.
pub open spec fn database_file(config_host: Seq<char>, config_database: Seq<char>) -> Seq<char> {
    if config_host == ":memory:"@ {
        ":memory:"@
    } else {
        config_database + ".db"@
    }
}

/// The driver of the embedded database.
pub struct SqliteDriver {
    conn: Option<SqliteConnection>,
    db_path: String,
    last_row_id: i64,
    calls: Ghost<Seq<DriverCall>>,
    answers: Ghost<Seq<Result<QueryResult, Error>>>,
    counts: Ghost<Seq<Result<u64, Error>>>,
    ids: Ghost<Seq<Result<Option<i64>, Error>>>,
    tx_results: Ghost<Seq<Result<(), Error>>>,
}

impl SqliteDriver {
    /// The engine's state; none when not connected.
    pub closed spec fn engine(&self) -> Option<EngineModel> {
        match self.conn {
            Some(c) => Some(c@),
            None => None,
        }
    }

    /// The number of rows counted after the last `INSERT`.
    pub closed spec fn spec_last_row_id(&self) -> i64 {
        self.last_row_id
    }

    /// The database file of the last connection.
    pub closed spec fn spec_db_path(&self) -> Seq<char> {
        self.db_path@
    }

    /// A driver that is not connected.
    pub fn new() -> (d: Self)
        ensures
            d.engine() is None,
            d.spec_last_row_id() == 0,
            d.spec_db_path() == Seq::<char>::empty(),
            d.spec_calls() == Seq::<DriverCall>::empty(),
    {
        SqliteDriver {
            conn: None,
            db_path: String::new(),
            last_row_id: 0,
            calls: Ghost(Seq::empty()),
            answers: Ghost(Seq::empty()),
            counts: Ghost(Seq::empty()),
            ids: Ghost(Seq::empty()),
            tx_results: Ghost(Seq::empty()),
        }
    }

    /// The table an `INSERT` names; empty when it names none.
    fn extract_table_name(&self, sql: &str) -> (r: String)
        ensures
            r@ == insert_target(sql@),
    {
        match insert_table_name(sql) {
            Ok(t) => t,
            Err(_) => String::new(),
        }
    }

    /// The SQL text with each parameter's literal in place of a `?`.
    pub fn substitute_params(sql: &str, params: &[Parameter]) -> (r: String)
        ensures
            r@ == substituted(sql@, param_models(params@)),
    {
        let ghost pm = param_models(params@);
        let mut result = chars_of(sql);
        let mut i: usize = 0;
        assert(pm.take(0) =~= Seq::<ParamModel>::empty());
        while i < params.len()
            invariant
                i <= params.len(),
                pm == param_models(params@),
                result@ == substituted(sql@, pm.take(i as int)),
            decreases params.len() - i,
        {
            assert(pm.take(i + 1).drop_last() =~= pm.take(i as int));
            assert(pm.take(i + 1).last() == params@[i as int]@);
            let replacement = params[i].as_sql_string(DatabaseType::Sqlite);
            proof {
                lemma_find_bounds(result@, seq!['?']);
            }
            match find_char(&result, '?') {
                Some(pos) => {
                    let n = result.len();
                    assert(pos < n);
                    let mut next = slice_chars(&result, 0, pos);
                    let rc = chars_of(replacement.as_str());
                    let mut k: usize = 0;
                    let ghost base = next@;
                    while k < rc.len()
                        invariant
                            k <= rc.len(),
                            next@ == base + rc@.take(k as int),
                        decreases rc.len() - k,
                    {
                        next.push(rc[k]);
                        assert(rc@.take(k + 1) =~= rc@.take(k as int).push(rc@[k as int]));
                        assert(next@ =~= base + rc@.take(k + 1));
                        k += 1;
                    }
                    assert(rc@.take(rc.len() as int) =~= rc@);
                    let tail = slice_chars(&result, pos + 1, result.len());
                    let ghost mid = next@;
                    let mut k: usize = 0;
                    while k < tail.len()
                        invariant
                            k <= tail.len(),
                            next@ == mid + tail@.take(k as int),
                        decreases tail.len() - k,
                    {
                        next.push(tail[k]);
                        assert(tail@.take(k + 1) =~= tail@.take(k as int).push(tail@[k as int]));
                        assert(next@ =~= mid + tail@.take(k + 1));
                        k += 1;
                    }
                    assert(tail@.take(tail.len() as int) =~= tail@);
                    assert(next@ =~= result@.take(pos as int) + spec_param_sql(params@[i as int]@) + result@.skip(
                        pos + 1,
                    ));
                    result = next;
                },
                None => {},
            }
            i += 1;
        }
        assert(pm.take(params.len() as int) =~= pm);
        string_of(&result)
    }
}

fn convert_rows(rows: Vec<Vec<String>>, infos: &Vec<SqliteColumnInfo>) -> (r: Vec<Row>)
    ensures
        r@.len() == rows@.len(),
        forall|i: int| 0 <= i < rows@.len() ==> row_matches(#[trigger] r@[i], row_views(rows@)[i], info_views(infos@)),
{
    let ghost iv = info_views(infos@);
    let mut out: Vec<Row> = Vec::new();
    let mut i: usize = 0;
    while i < rows.len()
        invariant
            i <= rows.len(),
            iv == info_views(infos@),
            out@.len() == i,
            forall|k: int| 0 <= k < i ==> row_matches(#[trigger] out@[k], row_views(rows@)[k], iv),
        decreases rows.len() - i,
    {
        let values = &rows[i];
        let ghost vv = values@.map_values(|s: String| s@);
        assert(vv == row_views(rows@)[i as int]);
        let mut row = Row::with_capacity(infos.len());
        let mut j: usize = 0;
        while j < values.len()
            invariant
                j <= values.len(),
                iv == info_views(infos@),
                vv == values@.map_values(|s: String| s@),
                row.wf(),
                row.spec_names() == Seq::new(j as nat, |k: int| info_name(iv, k)),
                row.spec_cells() == vv.take(j as int).map_values(|v: Seq<char>| cell_of(v)),
            decreases values.len() - j,
        {
            let name = if j < infos.len() {
                copy_str(infos[j].name.as_str())
            } else {
                String::new()
            };
            assert(name@ == info_name(iv, j as int));
            let column = Column::new(name.as_str(), DataType::Text);
            let is_null = str_eq(values[j].as_str(), "NULL");
            let cell = if is_null {
                None
            } else {
                Some(copy_str(values[j].as_str()))
            };
            let ghost nb = row.spec_names();
            let ghost cb = row.spec_cells();
            row.push(column, cell);
            assert(row.spec_names() =~= Seq::new((j + 1) as nat, |k: int| info_name(iv, k)));
            assert(vv.take(j + 1) =~= vv.take(j as int).push(vv[j as int]));
            assert(row.spec_cells() =~= vv.take(j + 1).map_values(|v: Seq<char>| cell_of(v)));
            j += 1;
        }
        assert(vv.take(values.len() as int) =~= vv);
        out.push(row);
        i += 1;
    }
    out
}

impl DatabaseDriver for SqliteDriver {
    closed spec fn spec_calls(&self) -> Seq<DriverCall> {
        self.calls@
    }

    open spec fn spec_db_type(&self) -> DatabaseType {
        DatabaseType::Sqlite
    }

    closed spec fn spec_answers(&self) -> Seq<Result<QueryResult, Error>> {
        self.answers@
    }

    closed spec fn spec_counts(&self) -> Seq<Result<u64, Error>> {
        self.counts@
    }

    closed spec fn spec_ids(&self) -> Seq<Result<Option<i64>, Error>> {
        self.ids@
    }

    closed spec fn spec_tx_results(&self) -> Seq<Result<(), Error>> {
        self.tx_results@
    }

    open spec fn spec_connected(&self) -> bool {
        self.engine() is Some
    }

    fn db_type(&self) -> (r: DatabaseType)
        ensures
            r == DatabaseType::Sqlite,
    {
        DatabaseType::Sqlite
    }

    /// Opens a new, empty database for the configuration's file: `:memory:`
    /// for the in-memory host, else the database name with `.db` added.
    fn connect(&mut self, config: &ConnectionConfig) -> (r: Result<(), Error>)
        ensures
            r is Ok,
            final(self).spec_db_path() == database_file(config.host@, config.database@),
            final(self).engine() == Some(
                EngineModel {
                    schema: Seq::empty(),
                    tables: Map::<Seq<char>, Seq<char>>::empty(),
                    backups: Map::<Seq<char>, Seq<char>>::empty(),
                },
            ),
            final(self).spec_last_row_id() == old(self).spec_last_row_id(),
    {
        self.calls = Ghost(self.calls@.push(DriverCall::Connect(*config)));
        let path = database_file_path(config);
        let conn = SqliteConnection::connect(path.as_str())?;
        assert(conn@.schema =~= Seq::<char>::empty());
        self.db_path = path;
        self.conn = Some(conn);
        Ok(())
    }

    fn close(&mut self) -> (r: Result<(), Error>)
        ensures
            r is Ok,
            final(self).engine() is None,
            final(self).spec_last_row_id() == old(self).spec_last_row_id(),
            final(self).spec_db_path() == old(self).spec_db_path(),
            final(self).spec_calls() == old(self).spec_calls(),
    {
        self.conn = None;
        Ok(())
    }

    /// Runs a statement with its parameters written in. Rows come back with
    /// every cell's text, `NULL` as no value; after an `INSERT` the driver
    /// counts the rows of the table it names.
    fn query(&mut self, sql: &str, params: &[Parameter]) -> (r: Result<QueryResult, Error>)
        ensures
            final(self).spec_calls() == old(self).spec_calls().push(DriverCall::Query(sql@, param_models(params@))),
            final(self).spec_db_path() == old(self).spec_db_path(),
            match old(self).engine() {
                None => final(self).engine() is None && (r matches Err(e) && e matches Error::Connection(m)
                    && m@ == "not connected"@) && final(self).spec_last_row_id() == old(self).spec_last_row_id(),
                Some(st) => {
                    let step = run_sql(st, substituted(sql@, param_models(params@)));
                    &&& final(self).engine() == Some(step.0)
                    &&& match step.1 {
                        None => (r matches Err(e) && no_table_name(e)) && final(self).spec_last_row_id() == old(
                            self,
                        ).spec_last_row_id(),
                        Some(m) => (r matches Ok(q) && result_matches(q, m)) && final(self).spec_last_row_id() == (
                        if m is Done && starts_with(statement_head(sql@), "INSERT"@) {
                            table_rows(step.0, insert_target(sql@)) as i64
                        } else {
                            old(self).spec_last_row_id()
                        }),
                    }
                },
            },
    {
        self.calls = Ghost(self.calls@.push(DriverCall::Query(sql@, param_models(params@))));
        let final_sql = Self::substitute_params(sql, params);
        let t = trim_chars(&chars_of(sql));
        let head = upper_chars(&t);
        let is_insert = starts_with_chars(&head, &chars_of("INSERT"));
        let table_name = self.extract_table_name(sql);
        let r = match &mut self.conn {
            None => Err(Error::Connection(String::from_str("not connected"))),
            Some(conn) => {
                let res = conn.execute_query(final_sql.as_str());
                match res {
                    Err(e) => Err(e),
                    Ok(SqliteResult::Rows(rows, infos)) => {
                        let converted = convert_rows(rows, &infos);
                        Ok(QueryResult { rows: converted, affected_rows: 0, last_insert_id: None })
                    },
                    Ok(SqliteResult::Done(affected)) => {
                        if is_insert {
                            match conn.count_rows(table_name.as_str()) {
                                Ok(n) => {
                                    self.last_row_id = n as i64;
                                    Ok(QueryResult { rows: Vec::new(), affected_rows: affected, last_insert_id: None })
                                },
                                Err(e) => Err(e),
                            }
                        } else {
                            Ok(QueryResult { rows: Vec::new(), affected_rows: affected, last_insert_id: None })
                        }
                    },
                }
            },
        };
        self.answers = Ghost(self.answers@.push(r));
        r
    }

    /// Runs a statement and returns the number of rows it changed.
    fn execute(&mut self, sql: &str, params: &[Parameter]) -> (r: Result<u64, Error>)
        ensures
            final(self).spec_calls() == old(self).spec_calls().push(DriverCall::Execute(sql@, param_models(params@))),
            final(self).spec_db_path() == old(self).spec_db_path(),
            match old(self).engine() {
                None => final(self).engine() is None && (r matches Err(e) && e matches Error::Connection(m)
                    && m@ == "not connected"@),
                Some(st) => {
                    let step = run_sql(st, substituted(sql@, param_models(params@)));
                    &&& final(self).engine() == Some(step.0)
                    &&& match step.1 {
                        None => r matches Err(e) && no_table_name(e),
                        Some(ResultModel::Done(n)) => r == Ok::<u64, Error>(n as u64),
                        Some(ResultModel::Rows(_, _)) => r == Ok::<u64, Error>(0),
                    }
                    &&& (step.1 matches Some(ResultModel::Done(_)) && starts_with(statement_head(sql@), "INSERT"@))
                        ==> final(self).spec_last_row_id() == table_rows(step.0, insert_target(sql@)) as i64
                },
            },
    {
        let ghost c0 = self.calls@;
        let ghost k0 = self.counts@;
        let ghost a0 = self.answers@;
        let result = self.query(sql, params);
        self.calls = Ghost(c0.push(DriverCall::Execute(sql@, param_models(params@))));
        self.answers = Ghost(a0);
        let r = match result {
            Ok(q) => Ok(q.affected_rows),
            Err(e) => Err(e),
        };
        self.counts = Ghost(k0.push(r));
        r
    }

    fn prepare(&mut self, _name: &str, _sql: &str) -> (r: Result<(), Error>)
        ensures
            r is Ok,
            *final(self) == *old(self),
    {
        Ok(())
    }

    fn execute_prepared(&mut self, _name: &str, _params: &[Parameter]) -> (r: Result<QueryResult, Error>)
        ensures
            *final(self) == *old(self),
            r matches Ok(q) && q.rows@.len() == 0 && q.affected_rows == 0 && q.last_insert_id is None,
    {
        Ok(QueryResult { rows: Vec::new(), affected_rows: 0, last_insert_id: None })
    }

    /// Begins a transaction: the engine saves the text of every table.
    fn begin(&mut self) -> (r: Result<(), Error>)
        ensures
            final(self).spec_calls() == old(self).spec_calls().push(DriverCall::Begin),
            final(self).spec_last_row_id() == old(self).spec_last_row_id(),
            final(self).spec_db_path() == old(self).spec_db_path(),
            match old(self).engine() {
                None => final(self).engine() is None && r is Err,
                Some(st) => r is Ok && final(self).engine() == Some(run_sql(st, "BEGIN"@).0),
            },
    {
        self.calls = Ghost(self.calls@.push(DriverCall::Begin));
        let r = match &mut self.conn {
            None => Err(Error::Connection(String::from_str("not connected"))),
            Some(conn) => {
                let _ = conn.execute_query("BEGIN");
                Ok(())
            },
        };
        self.tx_results = Ghost(self.tx_results@.push(r));
        r
    }

    /// Commits: the engine forgets the saved texts.
    fn commit(&mut self) -> (r: Result<(), Error>)
        ensures
            final(self).spec_calls() == old(self).spec_calls().push(DriverCall::Commit),
            final(self).spec_last_row_id() == old(self).spec_last_row_id(),
            final(self).spec_db_path() == old(self).spec_db_path(),
            match old(self).engine() {
                None => final(self).engine() is None && r is Err,
                Some(st) => r is Ok && final(self).engine() == Some(run_sql(st, "COMMIT"@).0),
            },
    {
        self.calls = Ghost(self.calls@.push(DriverCall::Commit));
        let r = match &mut self.conn {
            None => Err(Error::Connection(String::from_str("not connected"))),
            Some(conn) => {
                let _ = conn.execute_query("COMMIT");
                Ok(())
            },
        };
        self.tx_results = Ghost(self.tx_results@.push(r));
        r
    }

    /// Rolls back: the engine puts the saved texts back.
    fn rollback(&mut self) -> (r: Result<(), Error>)
        ensures
            final(self).spec_calls() == old(self).spec_calls().push(DriverCall::Rollback),
            final(self).spec_last_row_id() == old(self).spec_last_row_id(),
            final(self).spec_db_path() == old(self).spec_db_path(),
            match old(self).engine() {
                None => final(self).engine() is None && r is Err,
                Some(st) => r is Ok && final(self).engine() == Some(run_sql(st, "ROLLBACK"@).0),
            },
    {
        self.calls = Ghost(self.calls@.push(DriverCall::Rollback));
        let r = match &mut self.conn {
            None => Err(Error::Connection(String::from_str("not connected"))),
            Some(conn) => {
                let _ = conn.execute_query("ROLLBACK");
                Ok(())
            },
        };
        self.tx_results = Ghost(self.tx_results@.push(r));
        r
    }

    /// `"ident"` with every double quote doubled.
    fn escape_identifier(&self, ident: &str) -> (r: String)
        ensures
            r@ == seq!['"'] + spec_double(ident@, '"') + seq!['"'],
    {
        let mut s = String::new();
        s.push('"');
        push_doubled(&mut s, ident, '"');
        s.push('"');
        assert(s@ =~= seq!['"'] + spec_double(ident@, '"') + seq!['"']);
        s
    }

    fn last_insert_id(&mut self) -> (r: Result<Option<i64>, Error>)
        ensures
            final(self).engine() == old(self).engine(),
            final(self).spec_last_row_id() == old(self).spec_last_row_id(),
            final(self).spec_db_path() == old(self).spec_db_path(),
            final(self).spec_calls() == old(self).spec_calls(),
            final(self).spec_answers() == old(self).spec_answers(),
            final(self).spec_counts() == old(self).spec_counts(),
            final(self).spec_ids() == old(self).spec_ids().push(r),
            r == Ok::<Option<i64>, Error>(Some(old(self).spec_last_row_id())),
    {
        let r = Ok(Some(self.last_row_id));
        self.ids = Ghost(self.ids@.push(r));
        r
    }

    fn is_connected(&self) -> (r: bool)
        ensures
            r == (self.engine() is Some),
    {
        self.conn.is_some()
    }

    /// The text of the first cell of `SELECT sqlite_version()`, else
    /// `Unknown`.
    fn version(&mut self) -> (r: Result<String, Error>)
        ensures
            final(self).spec_calls() == old(self).spec_calls().push(
                DriverCall::Query("SELECT sqlite_version()"@, Seq::empty()),
            ),
            match old(self).engine() {
                None => final(self).engine() is None && (r matches Err(e) && e is Connection),
                Some(st) => {
                    let step = run_sql(st, "SELECT sqlite_version()"@);
                    &&& final(self).engine() == Some(step.0)
                    &&& match step.1 {
                        None => r is Err,
                        Some(ResultModel::Rows(rows, _)) => r matches Ok(v) && v@ == (if rows.len() > 0
                            && rows[0].len() > 0 && rows[0][0] != "NULL"@ {
                            rows[0][0]
                        } else {
                            "Unknown"@
                        }),
                        Some(ResultModel::Done(_)) => r matches Ok(v) && v@ == "Unknown"@,
                    }
                },
            },
    {
        let no_params: [Parameter; 0] = [];
        assert(param_models(no_params@) =~= Seq::<ParamModel>::empty());
        let result = self.query("SELECT sqlite_version()", &no_params)?;
        if result.rows.len() > 0 {
            match result.rows[0].get(0) {
                Some(v) => {
                    return Ok(copy_str(v));
                },
                None => {},
            }
        }
        Ok(String::from_str("Unknown"))
    }

    fn limit_offset_clause(&self, limit: Option<usize>, offset: Option<usize>) -> (r: String)
        ensures
            r@ == sqlite_limit_offset(limit, offset),
    {
        let mut s = String::new();
        match (limit, offset) {
            (Some(l), Some(o)) => {
                push_str(&mut s, "LIMIT ");
                push_decimal(&mut s, l as u64);
                push_str(&mut s, " OFFSET ");
                push_decimal(&mut s, o as u64);
            },
            (Some(l), None) => {
                push_str(&mut s, "LIMIT ");
                push_decimal(&mut s, l as u64);
            },
            (None, Some(o)) => {
                push_str(&mut s, "LIMIT -1 OFFSET ");
                push_decimal(&mut s, o as u64);
            },
            (None, None) => {},
        }
        assert(s@ =~= sqlite_limit_offset(limit, offset));
        s
    }

    fn placeholder_style(&self) -> (r: PlaceholderStyle)
        ensures
            r == PlaceholderStyle::PositionalSqlite,
    {
        PlaceholderStyle::PositionalSqlite
    }
}

/// The `LIMIT`/`OFFSET` clause of the embedded database; an offset alone
/// comes with `LIMIT -1`.
pub open spec fn sqlite_limit_offset(limit: Option<usize>, offset: Option<usize>) -> Seq<char> {
    match (limit, offset) {
        (Some(l), Some(o)) => "LIMIT "@ + spec_decimal(l as nat) + " OFFSET "@ + spec_decimal(o as nat),
        (Some(l), None) => "LIMIT "@ + spec_decimal(l as nat),
        (None, Some(o)) => "LIMIT -1 OFFSET "@ + spec_decimal(o as nat),
        (None, None) => Seq::empty(),
    }
}

/// The file an embedded database is kept in: `:memory:` for the host
/// `:memory:`, else the database name with `.db`.
pub fn database_file_path(config: &ConnectionConfig) -> (r: String)
    ensures
        r@ == database_file(config.host@, config.database@),
{
    if str_eq(config.host.as_str(), ":memory:") {
        String::from_str(":memory:")
    } else {
        let mut p = copy_str(config.database.as_str());
        push_str(&mut p, ".db");
        p
    }
}

impl SqliteDriver {
    /// Connects the driver to an engine already opened from `path`.
    pub fn attach(&mut self, path: &str, conn: SqliteConnection)
        ensures
            final(self).engine() == Some(conn@),
            final(self).spec_db_path() == path@,
            final(self).spec_last_row_id() == old(self).spec_last_row_id(),
            final(self).spec_calls() == old(self).spec_calls(),
    {
        self.db_path = copy_str(path);
        self.conn = Some(conn);
    }

    /// The engine the driver is connected to.
    pub fn connection(&self) -> (r: Option<&SqliteConnection>)
        ensures
            match r {
                Some(c) => self.engine() == Some(c@),
                None => self.engine() is None,
            },
    {
        match &self.conn {
            Some(c) => Some(c),
            None => None,
        }
    }

    /// The file of the last connection.
    pub fn db_path(&self) -> (r: &str)
        ensures
            r@ == self.spec_db_path(),
    {
        self.db_path.as_str()
    }
}

/// Creates embedded drivers.
pub struct SqliteDriverFactory;

impl DriverFactory for SqliteDriverFactory {
    type Driver = SqliteDriver;

    /// A new, unconnected driver.
    fn create(&self) -> (d: SqliteDriver)
        ensures
            d.engine() is None,
            d.spec_calls() == Seq::<DriverCall>::empty(),
    {
        SqliteDriver::new()
    }

    fn db_type(&self) -> (r: DatabaseType)
        ensures
            r == DatabaseType::Sqlite,
    {
        DatabaseType::Sqlite
    }
}

} // verus!
