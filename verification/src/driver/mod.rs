//! Connection configuration, result rows, parameters and the driver traits.
use vstd::prelude::*;
use crate::error::Error;
use crate::types::value::FloatValue;
use crate::text::{copy_str, push_str, push_int, spec_int_text, chars_of, str_eq};
use crate::hexenc::{push_hex, spec_hex};

pub mod mysql;
pub mod sqlite;
pub mod postgres;

pub use mysql::{MysqlDriver, MysqlDriverFactory};
pub use sqlite::{SqliteDriver, SqliteDriverFactory};

verus! {

/// TLS mode of a connection.
#[derive(Debug, Clone, Copy, PartialEq, Eq, Structural)]
pub enum SslMode {
    Disable,
    Prefer,
    Require,
    VerifyCa,
    VerifyFull,
}

/// Which database a driver speaks to.
#[derive(Debug, Clone, Copy, PartialEq, Eq, Hash, Structural)]
pub enum DatabaseType {
    Postgresql,
    Mysql,
    Sqlite,
}

/// Connection configuration.
#[derive(Debug, Clone)]
pub struct ConnectionConfig {
    pub db_type: String,
    pub host: String,
    pub port: u16,
    pub username: String,
    pub password: String,
    pub database: String,
    pub ssl_mode: SslMode,
    pub max_connections: usize,
}

impl ConnectionConfig {
    /// A configuration with no database type set, TLS disabled and ten
    /// connections at most.
    pub fn new(host: &str, port: u16, username: &str, password: &str, database: &str) -> (c: Self)
        ensures
            c.db_type@ == Seq::<char>::empty(),
            c.host@ == host@,
            c.port == port,
            c.username@ == username@,
            c.password@ == password@,
            c.database@ == database@,
            c.ssl_mode == SslMode::Disable,
            c.max_connections == 10,
    {
        ConnectionConfig {
            db_type: String::new(),
            host: copy_str(host),
            port,
            username: copy_str(username),
            password: copy_str(password),
            database: copy_str(database),
            ssl_mode: SslMode::Disable,
            max_connections: 10,
        }
    }

    /// A configuration for an embedded database at `db_path` (used as both
    /// host and database).
    pub fn sqlite(db_path: &str) -> (c: Self)
        ensures
            c.db_type@ == "sqlite"@,
            c.host@ == db_path@,
            c.port == 0,
            c.username@ == Seq::<char>::empty(),
            c.password@ == Seq::<char>::empty(),
            c.database@ == db_path@,
            c.ssl_mode == SslMode::Disable,
            c.max_connections == 10,
    {
        ConnectionConfig {
            db_type: String::from_str("sqlite"),
            host: copy_str(db_path),
            port: 0,
            username: String::new(),
            password: String::new(),
            database: copy_str(db_path),
            ssl_mode: SslMode::Disable,
            max_connections: 10,
        }
    }

    /// A configuration for a PostgreSQL server.
    pub fn postgres(host: &str, port: u16, database: &str, username: &str, password: &str) -> (c: Self)
        ensures
            c.db_type@ == "postgres"@,
            c.host@ == host@,
            c.port == port,
            c.username@ == username@,
            c.password@ == password@,
            c.database@ == database@,
            c.ssl_mode == SslMode::Disable,
            c.max_connections == 10,
    {
        ConnectionConfig {
            db_type: String::from_str("postgres"),
            host: copy_str(host),
            port,
            username: copy_str(username),
            password: copy_str(password),
            database: copy_str(database),
            ssl_mode: SslMode::Disable,
            max_connections: 10,
        }
    }

    /// A configuration for a MySQL server.
    pub fn mysql(host: &str, port: u16, database: &str, username: &str, password: &str) -> (c: Self)
        ensures
            c.db_type@ == "mysql"@,
            c.host@ == host@,
            c.port == port,
            c.username@ == username@,
            c.password@ == password@,
            c.database@ == database@,
            c.ssl_mode == SslMode::Disable,
            c.max_connections == 10,
    {
        ConnectionConfig {
            db_type: String::from_str("mysql"),
            host: copy_str(host),
            port,
            username: copy_str(username),
            password: copy_str(password),
            database: copy_str(database),
            ssl_mode: SslMode::Disable,
            max_connections: 10,
        }
    }

    /// The same configuration with TLS mode `mode`.
    pub fn with_ssl(self, mode: SslMode) -> (c: Self)
        ensures
            c == (ConnectionConfig { ssl_mode: mode, ..self }),
    {
        let mut s = self;
        s.ssl_mode = mode;
        s
    }

    /// The same configuration with at most `max` connections.
    pub fn with_max_connections(self, max: usize) -> (c: Self)
        ensures
            c == (ConnectionConfig { max_connections: max, ..self }),
    {
        let mut s = self;
        s.max_connections = max;
        s
    }
}

/// Database-independent column data types.
#[derive(Debug, PartialEq)]
pub enum DataType {
    Boolean,
    Int2,
    Int4,
    Int8,
    Float4,
    Float8,
    Text,
    Varchar(usize),
    Char(usize),
    Date,
    Time,
    Timestamp,
    Json,
    Jsonb,
    Uuid,
    Bytea,
    Array(Box<DataType>),
    Custom(String),
}

impl Clone for DataType {
    fn clone(&self) -> (r: Self)
        ensures
            r == *self,
        decreases self,
    {
        match self {
            DataType::Boolean => DataType::Boolean,
            DataType::Int2 => DataType::Int2,
            DataType::Int4 => DataType::Int4,
            DataType::Int8 => DataType::Int8,
            DataType::Float4 => DataType::Float4,
            DataType::Float8 => DataType::Float8,
            DataType::Text => DataType::Text,
            DataType::Varchar(n) => DataType::Varchar(*n),
            DataType::Char(n) => DataType::Char(*n),
            DataType::Date => DataType::Date,
            DataType::Time => DataType::Time,
            DataType::Timestamp => DataType::Timestamp,
            DataType::Json => DataType::Json,
            DataType::Jsonb => DataType::Jsonb,
            DataType::Uuid => DataType::Uuid,
            DataType::Bytea => DataType::Bytea,
            DataType::Array(inner) => {
                let c = (**inner).clone();
                DataType::Array(Box::new(c))
            },
            DataType::Custom(s) => {
                DataType::Custom(s.clone())
            },
        }
    }
}

/// A result column.
#[derive(Debug, Clone)]
pub struct Column {
    pub name: String,
    pub data_type: DataType,
    pub nullable: bool,
}

impl Column {
    /// A nullable column.
    pub fn new(name: &str, data_type: DataType) -> (c: Self)
        ensures
            c.name@ == name@,
            c.data_type == data_type,
            c.nullable,
    {
        Column { name: copy_str(name), data_type, nullable: true }
    }

    /// The same column, not nullable.
    pub fn not_null(self) -> (c: Self)
        ensures
            c.name == self.name,
            c.data_type == self.data_type,
            !c.nullable,
    {
        let mut s = self;
        s.nullable = false;
        s
    }
}

/// One result row: columns and their (possibly absent) textual values.
pub struct Row {
    columns: Vec<Column>,
    values: Vec<Option<String>>,
}

/// The position of the first of `names` that is `name`, if any.
pub open spec fn first_named(names: Seq<Seq<char>>, name: Seq<char>) -> Option<int>
    decreases names.len(),
{
    if names.len() == 0 {
        None
    } else {
        match first_named(names.drop_last(), name) {
            Some(i) => Some(i),
            None => if names.last() == name {
                Some(names.len() - 1)
            } else {
                None
            },
        }
    }
}

proof fn lemma_first_named(names: Seq<Seq<char>>, name: Seq<char>, i: int)
    requires
        0 <= i <= names.len(),
        forall|j: int| 0 <= j < i ==> names[j] != name,
    ensures
        i < names.len() && names[i] == name ==> first_named(names, name) == Some(i),
        i == names.len() ==> first_named(names, name) is None,
    decreases names.len(),
{
    if names.len() > 0 {
        let front = names.drop_last();
        if i < names.len() {
            if i < front.len() {
                lemma_first_named(front, name, i);
            } else {
                lemma_first_named(front, name, front.len() as int);
            }
        } else {
            lemma_first_named(front, name, front.len() as int);
        }
    }
}

/// The view of an optional cell text.
pub open spec fn cell_view(v: Option<String>) -> Option<Seq<char>> {
    match v {
        Some(s) => Some(s@),
        None => None,
    }
}

impl Row {
    /// The row's columns.
    pub closed spec fn spec_columns(&self) -> Seq<Column> {
        self.columns@
    }

    /// The names of the row's columns.
    pub closed spec fn spec_names(&self) -> Seq<Seq<char>> {
        self.columns@.map_values(|c: Column| c.name@)
    }

    /// The data types of the row's columns.
    pub closed spec fn spec_types(&self) -> Seq<DataType> {
        self.columns@.map_values(|c: Column| c.data_type)
    }

    /// The row's cells: `None` for SQL `NULL`.
    pub closed spec fn spec_cells(&self) -> Seq<Option<Seq<char>>> {
        self.values@.map_values(|v: Option<String>| match v {
            Some(s) => Some(s@),
            None => None,
        })
    }

    /// The row's columns, each with its cell, in order.
    pub open spec fn spec_items(&self) -> Seq<(Column, Option<Seq<char>>)> {
        Seq::new(self.spec_cells().len(), |i: int| (self.spec_columns()[i], self.spec_cells()[i]))
    }

    /// Every column has a cell.
    pub open spec fn wf(&self) -> bool {
        &&& self.spec_columns().len() == self.spec_cells().len()
        &&& self.spec_names().len() == self.spec_cells().len()
        &&& self.spec_types().len() == self.spec_cells().len()
    }

    /// An empty row.
    pub fn new() -> (r: Self)
        ensures
            r.wf(),
            r.spec_names().len() == 0,
            r.spec_types().len() == 0,
            r.spec_cells().len() == 0,
    {
        Row { columns: Vec::new(), values: Vec::new() }
    }

    /// An empty row with room for `capacity` columns.
    pub fn with_capacity(capacity: usize) -> (r: Self)
        ensures
            r.wf(),
            r.spec_names().len() == 0,
            r.spec_types().len() == 0,
            r.spec_cells().len() == 0,
    {
        Row { columns: Vec::with_capacity(capacity), values: Vec::with_capacity(capacity) }
    }

    /// Appends a column and its value.
    pub fn push(&mut self, column: Column, value: Option<String>)
        ensures
            old(self).wf() ==> final(self).wf(),
            final(self).spec_names() == old(self).spec_names().push(column.name@),
            final(self).spec_types() == old(self).spec_types().push(column.data_type),
            final(self).spec_cells() == old(self).spec_cells().push(cell_view(value)),
            final(self).spec_columns() == old(self).spec_columns().push(column),
            old(self).wf() ==> final(self).spec_items() == old(self).spec_items().push((column, cell_view(value))),
            forall|name: Seq<char>| #[trigger] first_named(final(self).spec_names(), name) == match first_named(
                old(self).spec_names(),
                name,
            ) {
                Some(i) => Some(i),
                None => if column.name@ == name {
                    Some(old(self).spec_names().len() as int)
                } else {
                    None
                },
            },
    {
        let ghost v = value;
        self.columns.push(column);
        self.values.push(value);
        assert(self.spec_names() =~= old(self).spec_names().push(column.name@));
        assert(self.spec_types() =~= old(self).spec_types().push(column.data_type));
        assert(self.spec_cells() =~= old(self).spec_cells().push(cell_view(v)));
        assert(self.spec_columns() =~= old(self).spec_columns().push(column));
        proof {
            if old(self).wf() {
                assert(self.spec_items() =~= old(self).spec_items().push((column, cell_view(v))));
            }
        }
        assert forall|name: Seq<char>| #[trigger] first_named(self.spec_names(), name) == match first_named(
            old(self).spec_names(),
            name,
        ) {
            Some(i) => Some(i),
            None => if column.name@ == name {
                Some(old(self).spec_names().len() as int)
            } else {
                None
            },
        } by {
            assert(self.spec_names().drop_last() =~= old(self).spec_names());
        }
    }

    /// The value of cell `idx`: `None` when out of range or `NULL`.
    pub fn get(&self, idx: usize) -> (r: Option<&str>)
        ensures
            match r {
                Some(s) => idx < self.spec_cells().len() && self.spec_cells()[idx as int] == Some(s@),
                None => idx >= self.spec_cells().len() || self.spec_cells()[idx as int] is None,
            },
    {
        if idx < self.values.len() {
            match &self.values[idx] {
                Some(s) => Some(s.as_str()),
                None => None,
            }
        } else {
            None
        }
    }

    /// The value of the first column called `name`.
    pub fn get_by_name(&self, name: &str) -> (r: Option<&str>)
        requires
            self.wf(),
        ensures
            match first_named(self.spec_names(), name@) {
                Some(i) => match self.spec_cells()[i] {
                    Some(t) => r matches Some(s) && s@ == t,
                    None => r is None,
                },
                None => r is None,
            },
    {
        let mut i: usize = 0;
        while i < self.columns.len()
            invariant
                i <= self.columns.len(),
                self.wf(),
                forall|j: int| 0 <= j < i ==> self.spec_names()[j] != name@,
            decreases self.columns.len() - i,
        {
            if str_eq(self.columns[i].name.as_str(), name) {
                assert(self.spec_names()[i as int] == name@);
                proof {
                    lemma_first_named(self.spec_names(), name@, i as int);
                }
                return self.get(i);
            }
            i += 1;
        }
        proof {
            lemma_first_named(self.spec_names(), name@, i as int);
        }
        None
    }

    /// The number of columns.
    pub fn column_count(&self) -> (r: usize)
        ensures
            r == self.spec_names().len(),
    {
        self.columns.len()
    }

    /// The column at `idx`.
    pub fn column(&self, idx: usize) -> (r: Option<&Column>)
        ensures
            match r {
                Some(c) => idx < self.spec_names().len() && *c == self.spec_columns()[idx as int] && c.name@
                    == self.spec_names()[idx as int],
                None => idx >= self.spec_names().len(),
            },
    {
        if idx < self.columns.len() {
            Some(&self.columns[idx])
        } else {
            None
        }
    }
}

impl Row {
    /// A cursor over the row's columns and values, from the first.
    pub fn iter(&self) -> (it: RowIter<'_>)
        ensures
            it.row == self,
            it.idx == 0,
            it.rest() == self.spec_items(),
    {
        RowIter { row: self, idx: 0 }
    }
}

/// A cursor over the columns and values of a row.
pub struct RowIter<'a> {
    pub row: &'a Row,
    pub idx: usize,
}

/// The view of a cell handed out by reference.
pub open spec fn str_cell_view(v: Option<&str>) -> Option<Seq<char>> {
    match v {
        Some(s) => Some(s@),
        None => None,
    }
}

/// One call of [`RowIter::next`]: with items `before` still to come, it
/// gives `r` and leaves `after`.
pub open spec fn next_step(
    before: Seq<(Column, Option<Seq<char>>)>,
    r: Option<(Column, Option<Seq<char>>)>,
    after: Seq<(Column, Option<Seq<char>>)>,
) -> bool {
    match r {
        Some(x) => before.len() > 0 && x == before[0] && after == before.drop_first(),
        None => before.len() == 0 && after == before,
    }
}

/// A run of calls of [`RowIter::next`] hands out the items still to come
/// one by one, in order, and `None` on every call after the last: the
/// `i`-th call gives the `i`-th item. From [`Row::iter`] the items still to
/// come are the row's items, the pushed columns with their values.
pub proof fn law_row_iter_sequence(
    rests: Seq<Seq<(Column, Option<Seq<char>>)>>,
    results: Seq<Option<(Column, Option<Seq<char>>)>>,
)
    requires
        rests.len() == results.len() + 1,
        forall|i: int| 0 <= i < results.len() ==> next_step(rests[i], #[trigger] results[i], rests[i + 1]),
    ensures
        forall|i: int| 0 <= i < results.len() ==> #[trigger] results[i] == if i < rests[0].len() {
            Some(rests[0][i])
        } else {
            None::<(Column, Option<Seq<char>>)>
        },
    decreases results.len(),
{
    if results.len() > 0 {
        let n = results.len() - 1;
        let rs = rests.take(n + 1);
        let res = results.take(n);
        assert forall|i: int| 0 <= i < res.len() implies next_step(rs[i], #[trigger] res[i], rs[i + 1]) by {
            assert(next_step(rests[i], results[i], rests[i + 1]));
        }
        law_row_iter_sequence(rs, res);
        lemma_rest_after(rests, results, n);
        assert forall|i: int| 0 <= i < results.len() implies #[trigger] results[i] == if i < rests[0].len() {
            Some(rests[0][i])
        } else {
            None::<(Column, Option<Seq<char>>)>
        } by {
            if i < n {
                assert(res[i] == results[i]);
                assert(rs[0] == rests[0]);
            } else {
                assert(next_step(rests[i], results[i], rests[i + 1]));
            }
        }
    }
}

/// After `k` steps, the items still to come are those of the start from
/// the `k`-th on.
proof fn lemma_rest_after(
    rests: Seq<Seq<(Column, Option<Seq<char>>)>>,
    results: Seq<Option<(Column, Option<Seq<char>>)>>,
    k: int,
)
    requires
        rests.len() == results.len() + 1,
        0 <= k <= results.len(),
        forall|i: int| 0 <= i < results.len() ==> next_step(rests[i], #[trigger] results[i], rests[i + 1]),
    ensures
        k <= rests[0].len() ==> rests[k] == rests[0].subrange(k, rests[0].len() as int),
        k > rests[0].len() ==> rests[k].len() == 0,
    decreases k,
{
    if k == 0 {
        assert(rests[0].subrange(0, rests[0].len() as int) =~= rests[0]);
    } else {
        lemma_rest_after(rests, results, k - 1);
        assert(next_step(rests[k - 1], results[k - 1], rests[k]));
        if k <= rests[0].len() {
            assert(rests[k] =~= rests[0].subrange(k, rests[0].len() as int));
        }
    }
}

impl<'a> RowIter<'a> {
    /// The items still to be handed out: the row's items from the cursor on.
    pub open spec fn rest(&self) -> Seq<(Column, Option<Seq<char>>)> {
        if self.idx <= self.row.spec_items().len() {
            self.row.spec_items().subrange(self.idx as int, self.row.spec_items().len() as int)
        } else {
            Seq::empty()
        }
    }

    /// The next column and its value (`None` for `NULL`), or `None` past the
    /// last column.
    pub fn next(&mut self) -> (r: Option<(&'a Column, Option<&'a str>)>)
        requires
            old(self).row.wf(),
        ensures
            final(self).row == old(self).row,
            old(self).idx < old(self).row.spec_names().len() ==> final(self).idx == old(self).idx + 1 && (r matches Some(
                (c, v),
            ) && *c == old(self).row.spec_columns()[old(self).idx as int] && c.name@ == old(
                self,
            ).row.spec_names()[old(self).idx as int] && match v {
                Some(s) => old(self).row.spec_cells()[old(self).idx as int] == Some(s@),
                None => old(self).row.spec_cells()[old(self).idx as int] is None,
            }),
            old(self).idx >= old(self).row.spec_names().len() ==> final(self).idx == old(self).idx && r is None,
            next_step(
                old(self).rest(),
                match r {
                    Some((c, v)) => Some((*c, str_cell_view(v))),
                    None => None,
                },
                final(self).rest(),
            ),
    {
        if self.idx >= self.row.columns.len() {
            None
        } else {
            let col = &self.row.columns[self.idx];
            let val = match &self.row.values[self.idx] {
                Some(s) => Some(s.as_str()),
                None => None,
            };
            let ghost before = self.rest();
            self.idx = self.idx + 1;
            proof {
                assert(self.rest() =~= before.drop_first());
                assert(str_cell_view(val) == self.row.spec_cells()[self.idx - 1]);
                assert((*col, str_cell_view(val)) == before[0]);
            }
            Some((col, val))
        }
    }
}

/// The result of a query.
pub struct QueryResult {
    pub rows: Vec<Row>,
    pub affected_rows: u64,
    pub last_insert_id: Option<i64>,
}

/// The model of a [`Parameter`].
pub enum ParamModel {
    Null,
    Int(i64),
    Float(u64, Seq<char>),
    String(Seq<char>),
    Bool(bool),
    Bytes(Seq<u8>),
}

/// A parameter of a parameterised query.
#[derive(Debug, Clone, PartialEq)]
pub enum Parameter {
    Null,
    Int(i64),
    Float(FloatValue),
    String(String),
    Bool(bool),
    Bytes(Vec<u8>),
}

impl View for Parameter {
    type V = ParamModel;

    open spec fn view(&self) -> ParamModel {
        match self {
            Parameter::Null => ParamModel::Null,
            Parameter::Int(v) => ParamModel::Int(*v),
            Parameter::Float(f) => ParamModel::Float(f.bits, f.text@),
            Parameter::String(s) => ParamModel::String(s@),
            Parameter::Bool(b) => ParamModel::Bool(*b),
            Parameter::Bytes(b) => ParamModel::Bytes(b@),
        }
    }
}

/// `s` with every occurrence of `q` doubled (`s.replace(q, qq)`).
pub open spec fn spec_double(s: Seq<char>, q: char) -> Seq<char>
    decreases s.len(),
{
    if s.len() == 0 {
        Seq::empty()
    } else {
        spec_double(s.drop_last(), q) + if s.last() == q { seq![q, q] } else { seq![s.last()] }
    }
}

/// `s` with every `'` doubled.
pub open spec fn spec_escape_quotes(s: Seq<char>) -> Seq<char> {
    spec_double(s, '\'')
}

/// The SQL literal a parameter is written as: `NULL`, decimal integers, the
/// float's text, `true`/`false`, `'text'` with quotes doubled, and
/// `'\x<hex>'` for bytes.
pub open spec fn spec_param_sql(p: ParamModel) -> Seq<char> {
    match p {
        ParamModel::Null => "NULL"@,
        ParamModel::Int(v) => spec_int_text(v as int),
        ParamModel::Float(_, t) => t,
        ParamModel::Bool(b) => if b { "true"@ } else { "false"@ },
        ParamModel::String(s) => seq!['\''] + spec_escape_quotes(s) + seq!['\''],
        ParamModel::Bytes(b) => seq!['\'', '\\', 'x'] + spec_hex(b) + seq!['\''],
    }
}

/// Appends `s` with every `'` doubled.
pub fn push_escaped(out: &mut String, s: &str)
    ensures
        final(out)@ == old(out)@ + spec_escape_quotes(s@),
{
    push_doubled(out, s, '\'');
}

/// Appends `s` with every `q` doubled.
pub fn push_doubled(out: &mut String, s: &str, q: char)
    ensures
        final(out)@ == old(out)@ + spec_double(s@, q),
{
    let v = chars_of(s);
    let mut i: usize = 0;
    while i < v.len()
        invariant
            i <= v.len(),
            v@ == s@,
            out@ == old(out)@ + spec_double(v@.subrange(0, i as int), q),
        decreases v.len() - i,
    {
        let c = v[i];
        if c == q {
            out.push(q);
            out.push(q);
        } else {
            out.push(c);
        }
        proof {
            let t = v@.subrange(0, i + 1);
            assert(t.drop_last() =~= v@.subrange(0, i as int));
            assert(t.last() == c);
        }
        i += 1;
        assert(out@ =~= old(out)@ + spec_double(v@.subrange(0, i as int), q));
    }
    assert(v@.subrange(0, v@.len() as int) =~= s@);
}

impl Parameter {
    /// A copy of the parameter.
    pub fn copy(&self) -> (r: Parameter)
        ensures
            r@ == self@,
    {
        match self {
            Parameter::Null => Parameter::Null,
            Parameter::Int(v) => Parameter::Int(*v),
            Parameter::Float(f) => Parameter::Float(f.copy()),
            Parameter::String(s) => Parameter::String(s.clone()),
            Parameter::Bool(b) => Parameter::Bool(*b),
            Parameter::Bytes(b) => Parameter::Bytes(crate::types::value::copy_bytes(b)),
        }
    }

    /// The SQL literal of the parameter, for inlining into SQL text. The
    /// literal does not depend on the database type.
    pub fn as_sql_string(&self, db_type: DatabaseType) -> (r: String)
        ensures
            r@ == spec_param_sql(self@),
    {
        let mut s = String::new();
        match self {
            Parameter::Null => push_str(&mut s, "NULL"),
            Parameter::Int(v) => push_int(&mut s, *v),
            Parameter::Float(f) => push_str(&mut s, f.text.as_str()),
            Parameter::Bool(b) => if *b { push_str(&mut s, "true") } else { push_str(&mut s, "false") },
            Parameter::String(t) => {
                s.push('\'');
                push_escaped(&mut s, t.as_str());
                s.push('\'');
            },
            Parameter::Bytes(b) => {
                s.push('\'');
                s.push('\\');
                s.push('x');
                push_hex(&mut s, b.as_slice());
                s.push('\'');
            },
        }
        assert(s@ =~= spec_param_sql(self@));
        s
    }
}

impl From<i32> for Parameter {
    fn from(v: i32) -> (r: Parameter) {
        Parameter::Int(v as i64)
    }
}

impl vstd::std_specs::convert::FromSpecImpl<i32> for Parameter {
    open spec fn obeys_from_spec() -> bool {
        true
    }

    open spec fn from_spec(v: i32) -> Parameter {
        Parameter::Int(v as i64)
    }
}

impl From<i64> for Parameter {
    fn from(v: i64) -> (r: Parameter) {
        Parameter::Int(v)
    }
}

impl vstd::std_specs::convert::FromSpecImpl<i64> for Parameter {
    open spec fn obeys_from_spec() -> bool {
        true
    }

    open spec fn from_spec(v: i64) -> Parameter {
        Parameter::Int(v)
    }
}

impl From<bool> for Parameter {
    fn from(v: bool) -> (r: Parameter) {
        Parameter::Bool(v)
    }
}

impl vstd::std_specs::convert::FromSpecImpl<bool> for Parameter {
    open spec fn obeys_from_spec() -> bool {
        true
    }

    open spec fn from_spec(v: bool) -> Parameter {
        Parameter::Bool(v)
    }
}

impl From<String> for Parameter {
    fn from(v: String) -> (r: Parameter) {
        Parameter::String(v)
    }
}

impl vstd::std_specs::convert::FromSpecImpl<String> for Parameter {
    open spec fn obeys_from_spec() -> bool {
        true
    }

    open spec fn from_spec(v: String) -> Parameter {
        Parameter::String(v)
    }
}

impl From<FloatValue> for Parameter {
    fn from(v: FloatValue) -> (r: Parameter) {
        Parameter::Float(v)
    }
}

impl vstd::std_specs::convert::FromSpecImpl<FloatValue> for Parameter {
    open spec fn obeys_from_spec() -> bool {
        true
    }

    open spec fn from_spec(v: FloatValue) -> Parameter {
        Parameter::Float(v)
    }
}

/// A text parameter (the `From<&str>` conversion).
pub fn text_param(v: &str) -> (r: Parameter)
    ensures
        r@ == ParamModel::String(v@),
{
    Parameter::String(copy_str(v))
}

/// Placeholder syntax of a database.
#[derive(Debug, Clone, Copy, PartialEq, Eq, Structural)]
pub enum PlaceholderStyle {
    /// `$1, $2, $3`
    DollarNumbered,
    /// `?, ?, ?`
    Positional,
    /// `?, ?, ?` (embedded database)
    PositionalSqlite,
    /// `:name, :name2`
    Named,
}

/// A connection request, statement or transaction command a driver was
/// handed.
pub enum DriverCall {
    Connect(ConnectionConfig),
    Query(Seq<char>, Seq<ParamModel>),
    Execute(Seq<char>, Seq<ParamModel>),
    Begin,
    Commit,
    Rollback,
}

/// The models of a parameter list.
pub open spec fn param_models(p: Seq<Parameter>) -> Seq<ParamModel> {
    p.map_values(|x: Parameter| x@)
}

/// The operations every database driver offers. Implementations talk to a
/// database, so nothing is promised of what they return; each records,
/// in `spec_calls`, the statements and transaction commands it was handed.
pub trait DatabaseDriver {
    /// Every statement and transaction command handed to the driver, in order.
    closed spec fn spec_calls(&self) -> Seq<DriverCall> {
        arbitrary()
    }

    /// The database type the driver speaks to.
    closed spec fn spec_db_type(&self) -> DatabaseType {
        arbitrary()
    }

    /// The answer to every query run, in order.
    closed spec fn spec_answers(&self) -> Seq<Result<QueryResult, Error>> {
        arbitrary()
    }

    /// The outcome of every command run, in order.
    closed spec fn spec_counts(&self) -> Seq<Result<u64, Error>> {
        arbitrary()
    }

    /// The outcome of every transaction command (begin, commit, rollback),
    /// in order.
    closed spec fn spec_tx_results(&self) -> Seq<Result<(), Error>> {
        arbitrary()
    }

    /// The outcome of every request for the last inserted id, in order.
    closed spec fn spec_ids(&self) -> Seq<Result<Option<i64>, Error>> {
        arbitrary()
    }

    /// The database type the driver speaks to.
    fn db_type(&self) -> (r: DatabaseType)
        ensures
            r == self.spec_db_type();

    /// Connects with `config`.
    fn connect(&mut self, config: &ConnectionConfig) -> (r: Result<(), Error>)
        ensures
            final(self).spec_calls() == old(self).spec_calls().push(DriverCall::Connect(*config));

    /// Closes the connection.
    fn close(&mut self) -> Result<(), Error>;

    /// Runs a query that returns rows.
    fn query(&mut self, sql: &str, params: &[Parameter]) -> (r: Result<QueryResult, Error>)
        ensures
            final(self).spec_calls() == old(self).spec_calls().push(DriverCall::Query(sql@, param_models(params@))),
            final(self).spec_answers() == old(self).spec_answers().push(r),
            final(self).spec_counts() == old(self).spec_counts(),
            final(self).spec_ids() == old(self).spec_ids();

    /// Runs a command and returns the number of affected rows.
    fn execute(&mut self, sql: &str, params: &[Parameter]) -> (r: Result<u64, Error>)
        ensures
            final(self).spec_calls() == old(self).spec_calls().push(DriverCall::Execute(sql@, param_models(params@))),
            final(self).spec_counts() == old(self).spec_counts().push(r),
            final(self).spec_answers() == old(self).spec_answers(),
            final(self).spec_ids() == old(self).spec_ids();

    /// Prepares a named statement.
    fn prepare(&mut self, name: &str, sql: &str) -> Result<(), Error>;

    /// Runs a prepared statement.
    fn execute_prepared(&mut self, name: &str, params: &[Parameter]) -> Result<QueryResult, Error>;

    /// Begins a transaction.
    fn begin(&mut self) -> (r: Result<(), Error>)
        ensures
            final(self).spec_calls() == old(self).spec_calls().push(DriverCall::Begin),
            final(self).spec_tx_results() == old(self).spec_tx_results().push(r);

    /// Commits the current transaction.
    fn commit(&mut self) -> (r: Result<(), Error>)
        ensures
            final(self).spec_calls() == old(self).spec_calls().push(DriverCall::Commit),
            final(self).spec_tx_results() == old(self).spec_tx_results().push(r);

    /// Rolls back the current transaction.
    fn rollback(&mut self) -> (r: Result<(), Error>)
        ensures
            final(self).spec_calls() == old(self).spec_calls().push(DriverCall::Rollback),
            final(self).spec_tx_results() == old(self).spec_tx_results().push(r);

    /// Quotes an identifier.
    fn escape_identifier(&self, ident: &str) -> String;

    /// The id of the last inserted row.
    fn last_insert_id(&mut self) -> (r: Result<Option<i64>, Error>)
        ensures
            final(self).spec_calls() == old(self).spec_calls(),
            final(self).spec_ids() == old(self).spec_ids().push(r),
            final(self).spec_counts() == old(self).spec_counts();

    /// Whether the driver is connected.
    closed spec fn spec_connected(&self) -> bool {
        arbitrary()
    }

    /// Whether the driver is connected.
    fn is_connected(&self) -> (r: bool)
        ensures
            r == self.spec_connected();

    /// The server's version text.
    fn version(&mut self) -> Result<String, Error>;

    /// The `LIMIT`/`OFFSET` clause for the database.
    fn limit_offset_clause(&self, limit: Option<usize>, offset: Option<usize>) -> String;

    /// The placeholder syntax of the database.
    fn placeholder_style(&self) -> PlaceholderStyle;
}

/// Creates drivers of one kind.
pub trait DriverFactory {
    type Driver: DatabaseDriver;

    /// A new driver, not yet connected, that has been handed nothing.
    fn create(&self) -> (d: Self::Driver)
        ensures
            !d.spec_connected(),
            d.spec_calls() == Seq::<DriverCall>::empty();

    fn db_type(&self) -> DatabaseType;
}

} // verus!
