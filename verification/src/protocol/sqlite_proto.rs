//! The embedded database engine: a schema text and one text per table,
//! changed by SQL statements.
//!
//! The engine keeps its texts in memory; whoever holds the database file
//! reads them in with [`SqliteConnection::open`] and writes them out from
//! [`SqliteConnection::table_texts`] and [`SqliteConnection::schema_text`].
use vstd::prelude::*;
use crate::error::Error;
use crate::text::{
    chars_of, string_of, copy_str, push_str, upper_chars, trim_chars, trim_end_set, find_chars,
    starts_with_chars, contains_chars, spec_upper, spec_trim, spec_find, starts_with, spec_decimal,
    trim_end_by, set_pred, u64_text, lemma_find_bounds,
};
use crate::protocol::sqltext::{
    after, after_chars, char_views, spec_lines, lines_of, name_after, create_table_name, no_table_name,
    insert_columns_of, insert_values_of, select_columns_of, insert_table_name, delete_table_name,
    update_table_name, select_table_name, create_table_name_of, insert_columns, insert_values, select_columns,
};
use crate::protocol::store::{TextMap, map_of, entry_views};
use crate::protocol::table::{
    row_count, read_rows_of, after_delete, after_update, stored_row, header_names, count_rows_in,
    read_rows_in, delete_in, update_in, store_row_in, header_names_of,
};

verus! {

/// The name and type of a result column.
#[derive(Debug, Clone)]
pub struct SqliteColumnInfo {
    pub name: String,
    pub data_type: String,
}

/// What a statement gives back: rows with their columns, or the number of
/// rows it changed.
pub enum SqliteResult {
    Rows(Vec<Vec<String>>, Vec<SqliteColumnInfo>),
    Done(u64),
}

/// The model of a statement's result.
pub enum ResultModel {
    Rows(Seq<Seq<Seq<char>>>, Seq<(Seq<char>, Seq<char>)>),
    Done(nat),
}

pub open spec fn row_views(rows: Seq<Vec<String>>) -> Seq<Seq<Seq<char>>> {
    rows.map_values(|r: Vec<String>| r@.map_values(|s: String| s@))
}

pub open spec fn info_views(infos: Seq<SqliteColumnInfo>) -> Seq<(Seq<char>, Seq<char>)> {
    infos.map_values(|c: SqliteColumnInfo| (c.name@, c.data_type@))
}

impl View for SqliteResult {
    type V = ResultModel;

    open spec fn view(&self) -> ResultModel {
        match self {
            SqliteResult::Rows(rows, infos) => ResultModel::Rows(row_views(rows@), info_views(infos@)),
            SqliteResult::Done(n) => ResultModel::Done(*n as nat),
        }
    }
}

/// The model of the engine: the schema text, the text of each table, and
/// the texts saved when the current transaction began.
pub struct EngineModel {
    pub schema: Seq<char>,
    pub tables: Map<Seq<char>, Seq<char>>,
    pub backups: Map<Seq<char>, Seq<char>>,
}

/// The text of a table; empty when it has none.
pub open spec fn table_text(st: EngineModel, t: Seq<char>) -> Seq<char> {
    if st.tables.dom().contains(t) {
        st.tables[t]
    } else {
        Seq::empty()
    }
}

/// The schema text with `[<table>]`, the statement and an empty line
/// appended, unless it already mentions the table.
pub open spec fn schema_with(schema: Seq<char>, t: Seq<char>, sql: Seq<char>) -> Seq<char> {
    let tag = "["@ + t + "]"@;
    if spec_find(schema, tag) is Some {
        schema
    } else {
        schema + tag + seq!['\n'] + sql + "\n\n"@
    }
}

/// The engine after `CREATE TABLE`: the statement recorded in the schema
/// and an empty text for a table that had none.
pub open spec fn with_table(st: EngineModel, t: Seq<char>, sql: Seq<char>) -> EngineModel {
    EngineModel {
        schema: schema_with(st.schema, t, sql),
        tables: if st.tables.dom().contains(t) {
            st.tables
        } else {
            st.tables.insert(t, Seq::empty())
        },
        backups: st.backups,
    }
}

pub open spec fn with_text(st: EngineModel, t: Seq<char>, text: Seq<char>) -> EngineModel {
    EngineModel { schema: st.schema, tables: st.tables.insert(t, text), backups: st.backups }
}

/// The statement in ASCII upper case, trimmed.
pub open spec fn statement_head(sql: Seq<char>) -> Seq<char> {
    spec_upper(spec_trim(sql))
}

/// Whether a table has at least its header line.
pub open spec fn has_lines(st: EngineModel, t: Seq<char>) -> bool {
    st.tables.dom().contains(t) && spec_lines(st.tables[t]).len() > 0
}

/// A data-definition statement: `CREATE TABLE` records the table; other
/// definitions change nothing. None when the table name cannot be read.
pub open spec fn run_ddl(st: EngineModel, sql: Seq<char>) -> (EngineModel, Option<ResultModel>) {
    if starts_with(statement_head(sql), "CREATE TABLE"@) {
        match create_table_name(sql) {
            Some(t) => (with_table(st, t, sql), Some(ResultModel::Done(0))),
            None => (st, None),
        }
    } else {
        (st, Some(ResultModel::Done(0)))
    }
}

/// A data-changing statement: `INSERT` stores one row, `DELETE` and
/// `UPDATE` change the rows their conditions select in a table that has a
/// header, and give their number; other statements change nothing.
pub open spec fn run_dml(st: EngineModel, sql: Seq<char>) -> (EngineModel, Option<ResultModel>) {
    let head = statement_head(sql);
    if starts_with(head, "INSERT"@) {
        match name_after(sql, "INTO"@, 4, seq!['(']) {
            Some(t) => (
                with_text(st, t, stored_row(table_text(st, t), insert_columns_of(sql), insert_values_of(sql))),
                Some(ResultModel::Done(1)),
            ),
            None => (st, None),
        }
    } else if starts_with(head, "DELETE"@) {
        match name_after(sql, "FROM"@, 4, seq![';']) {
            Some(t) => if has_lines(st, t) {
                let (text, n) = after_delete(st.tables[t], sql);
                (with_text(st, t, text), Some(ResultModel::Done(n)))
            } else {
                (st, Some(ResultModel::Done(0)))
            },
            None => (st, None),
        }
    } else if starts_with(head, "UPDATE"@) {
        match name_after(sql, "UPDATE"@, 6, Seq::empty()) {
            Some(t) => if has_lines(st, t) {
                let (text, n) = after_update(st.tables[t], sql);
                (with_text(st, t, text), Some(ResultModel::Done(n)))
            } else {
                (st, Some(ResultModel::Done(0)))
            },
            None => (st, None),
        }
    } else {
        (st, Some(ResultModel::Done(0)))
    }
}

/// The rows of a table; none when it has no text.
pub open spec fn table_rows(st: EngineModel, t: Seq<char>) -> nat {
    if st.tables.dom().contains(t) {
        row_count(st.tables[t])
    } else {
        0
    }
}

/// The columns of a table's header, each typed `TEXT`.
pub open spec fn header_infos(st: EngineModel, t: Seq<char>) -> Seq<(Seq<char>, Seq<char>)> {
    if st.tables.dom().contains(t) {
        header_names(st.tables[t]).map_values(|c: Seq<char>| (c, "TEXT"@))
    } else {
        Seq::empty()
    }
}

/// What a query gives. `SELECT` without `FROM` gives one row `0` in a column
/// named by the rest of the statement; a count gives the table's number of
/// rows; otherwise the selected columns of the rows that satisfy the
/// conditions. Other queries give nothing. None when the table name cannot
/// be read.
pub open spec fn select_result(st: EngineModel, sql: Seq<char>) -> Option<ResultModel> {
    let head = statement_head(sql);
    if starts_with(head, "SELECT"@) {
        if !(spec_find(head, "FROM"@) is Some) {
            let name = trim_end_by(spec_trim(after(sql, 6)), set_pred(seq![';']));
            Some(ResultModel::Rows(seq![seq!["0"@]], seq![(name, "TEXT"@)]))
        } else if spec_find(head, "COUNT(*)"@) is Some || spec_find(head, "COUNT("@) is Some {
            match name_after(sql, "FROM"@, 4, seq![';', ',']) {
                Some(t) => Some(
                    ResultModel::Rows(
                        seq![seq![spec_decimal(table_rows(st, t))]],
                        seq![("COUNT(*)"@, "INTEGER"@)],
                    ),
                ),
                None => None,
            }
        } else {
            match name_after(sql, "FROM"@, 4, seq![';', ',']) {
                Some(t) => {
                    let cols = select_columns_of(sql);
                    let rows = if st.tables.dom().contains(t) {
                        read_rows_of(st.tables[t], cols, sql)
                    } else {
                        Seq::empty()
                    };
                    let infos = if cols == seq!["*"@] {
                        header_infos(st, t)
                    } else {
                        cols.map_values(|c: Seq<char>| (c, "TEXT"@))
                    };
                    Some(ResultModel::Rows(rows, infos))
                },
                None => None,
            }
        }
    } else {
        Some(ResultModel::Rows(Seq::empty(), Seq::empty()))
    }
}

/// The engine after a statement, and its result; none when the table name
/// cannot be read. The kind of statement is told by how its trimmed upper
/// case begins.
pub open spec fn run_sql(st: EngineModel, sql: Seq<char>) -> (EngineModel, Option<ResultModel>) {
    let head = statement_head(sql);
    if starts_with(head, "CREATE TABLE"@) || starts_with(head, "CREATE INDEX"@) || starts_with(
        head,
        "CREATE VIEW"@,
    ) || starts_with(head, "CREATE TRIGGER"@) {
        run_ddl(st, sql)
    } else if starts_with(head, "INSERT"@) || starts_with(head, "UPDATE"@) || starts_with(head, "DELETE"@)
        || starts_with(head, "DROP"@) || starts_with(head, "ALTER"@) {
        run_dml(st, sql)
    } else if starts_with(head, "SELECT"@) || starts_with(head, "PRAGMA"@) || starts_with(head, "EXPLAIN"@) {
        (st, select_result(st, sql))
    } else if starts_with(head, "BEGIN"@) {
        (
            EngineModel {
                schema: st.schema,
                tables: st.tables,
                backups: st.backups.union_prefer_right(st.tables),
            },
            Some(ResultModel::Done(0)),
        )
    } else if starts_with(head, "COMMIT"@) {
        (EngineModel { schema: st.schema, tables: st.tables, backups: Map::empty() }, Some(ResultModel::Done(0)))
    } else if starts_with(head, "ROLLBACK"@) {
        (
            EngineModel {
                schema: st.schema,
                tables: st.tables.union_prefer_right(st.backups),
                backups: Map::empty(),
            },
            Some(ResultModel::Done(0)),
        )
    } else {
        (st, Some(ResultModel::Done(0)))
    }
}

/// The model of an engine result: none for an error.
pub open spec fn outcome(r: Result<SqliteResult, Error>) -> Option<ResultModel> {
    match r {
        Ok(x) => Some(x@),
        Err(_) => None,
    }
}

/// An engine error: only a statement whose table name cannot be read.
pub open spec fn engine_error(r: Result<SqliteResult, Error>) -> bool {
    r matches Err(e) ==> no_table_name(e)
}

/// The first bytes of every database file.
pub open spec fn file_magic() -> Seq<u8> {
    seq![
        0x53u8, 0x51u8, 0x4cu8, 0x69u8, 0x74u8, 0x65u8, 0x20u8, 0x66u8, 0x6fu8, 0x72u8, 0x6du8, 0x61u8,
        0x74u8, 0x20u8, 0x33u8, 0x00u8,
    ]
}

/// The page size of new database files.
pub open spec fn default_page_size() -> nat {
    4096
}

/// `n` bytes of `bytes` from `from` on, zero where `bytes` ends.
pub open spec fn padded(bytes: Seq<u8>, from: int, n: nat) -> Seq<u8> {
    Seq::new(n, |i: int| if from + i < bytes.len() { bytes[from + i] } else { 0u8 })
}

/// The page size a file's header gives: big-endian at offset 16, with 0
/// meaning the default.
pub open spec fn header_page_size(bytes: Seq<u8>) -> nat {
    let p = padded(bytes, 16, 2);
    let v = p[0] as nat * 256 + p[1] as nat;
    if v == 0 {
        default_page_size()
    } else {
        v
    }
}

/// The first page of a new database file: the magic bytes, the page size,
/// two format bytes of 1, and zeros.
pub open spec fn new_file_page() -> Seq<u8> {
    Seq::new(
        default_page_size(),
        |i: int|
            if i < 16 {
                file_magic()[i]
            } else if i == 16 {
                0x10u8
            } else if i == 18 || i == 19 {
                1u8
            } else {
                0u8
            },
    )
}

/// A connection to an embedded database.
pub struct SqliteConnection {
    db_path: String,
    page_size: usize,
    page_count: u64,
    schema: String,
    tables: TextMap,
    tx_backups: TextMap,
}

impl View for SqliteConnection {
    type V = EngineModel;

    closed spec fn view(&self) -> EngineModel {
        EngineModel { schema: self.schema@, tables: self.tables@, backups: self.tx_backups@ }
    }
}

impl SqliteConnection {
    /// The path of the database file.
    pub closed spec fn spec_path(&self) -> Seq<char> {
        self.db_path@
    }

    /// The page size and page count read from the file.
    pub closed spec fn spec_pages(&self) -> (nat, nat) {
        (self.page_size as nat, self.page_count as nat)
    }

    /// A connection to a new, empty database at `path`.
    pub fn connect(path: &str) -> (r: Result<Self, Error>)
        ensures
            r matches Ok(c) && c.spec_path() == path@ && c@.schema == Seq::<char>::empty() && c@.tables
                == Map::<Seq<char>, Seq<char>>::empty() && c@.backups == Map::<Seq<char>, Seq<char>>::empty()
                && c.spec_pages() == (default_page_size(), 1nat),
    {
        Ok(
            SqliteConnection {
                db_path: copy_str(path),
                page_size: 4096,
                page_count: 1,
                schema: String::new(),
                tables: TextMap::new(),
                tx_backups: TextMap::new(),
            },
        )
    }

    /// The first page of a new database file.
    pub fn new_file_page() -> (r: Vec<u8>)
        ensures
            r@ == new_file_page(),
    {
        let magic: [u8; 16] = [
            0x53, 0x51, 0x4c, 0x69, 0x74, 0x65, 0x20, 0x66, 0x6f, 0x72, 0x6d, 0x61, 0x74, 0x20, 0x33, 0x00,
        ];
        assert(magic@ =~= file_magic());
        let mut page: Vec<u8> = Vec::new();
        let mut i: usize = 0;
        while i < 4096
            invariant
                i <= 4096,
                magic@ == file_magic(),
                page@.len() == i,
                forall|k: int| 0 <= k < i ==> page@[k] == new_file_page()[k],
            decreases 4096 - i,
        {
            let b: u8 = if i < 16 {
                magic[i]
            } else if i == 16 {
                0x10
            } else if i == 18 || i == 19 {
                1
            } else {
                0
            };
            page.push(b);
            i += 1;
        }
        assert(page@ =~= new_file_page());
        page
    }

    /// A connection to an existing database file, given the file's first
    /// bytes (at least 18 when it has them), its size, its schema text and
    /// the text of each table. Fails when the file does not begin with the
    /// magic bytes.
    pub fn open(path: &str, head: &[u8], file_size: u64, schema: String, tables: Vec<(String, String)>) -> (r:
        Result<Self, Error>)
        ensures
            padded(head@, 0, 16) == file_magic() ==> (r matches Ok(c) && c.spec_path() == path@
                && c@.schema == schema@ && c.spec_pages() == (
                header_page_size(head@),
                (file_size as nat / header_page_size(head@)) as nat,
            ) && c@.backups == Map::<Seq<char>, Seq<char>>::empty() && c@.tables == map_of(
                entry_views(tables@),
            )),
            padded(head@, 0, 16) != file_magic() ==> (r matches Err(e) && e matches Error::Protocol(m) && m@
                == "Not a valid SQLite database file"@),
    {
        let magic: [u8; 16] = [
            0x53, 0x51, 0x4c, 0x69, 0x74, 0x65, 0x20, 0x66, 0x6f, 0x72, 0x6d, 0x61, 0x74, 0x20, 0x33, 0x00,
        ];
        assert(magic@ =~= file_magic());
        let mut i: usize = 0;
        while i < 16
            invariant
                i <= 16,
                magic@ == file_magic(),
                forall|k: int| 0 <= k < i ==> padded(head@, 0, 16)[k] == file_magic()[k],
            decreases 16 - i,
        {
            let b: u8 = if i < head.len() {
                head[i]
            } else {
                0
            };
            if b != magic[i] {
                assert(padded(head@, 0, 16)[i as int] != file_magic()[i as int]);
                return Err(Error::Protocol(String::from_str("Not a valid SQLite database file")));
            }
            i += 1;
        }
        assert(padded(head@, 0, 16) =~= file_magic());
        let b0: u8 = if 16 < head.len() {
            head[16]
        } else {
            0
        };
        let b1: u8 = if 17 < head.len() {
            head[17]
        } else {
            0
        };
        let v: usize = b0 as usize * 256 + b1 as usize;
        let page_size: usize = if v == 0 {
            4096
        } else {
            v
        };
        assert(padded(head@, 16, 2)[0] == b0 && padded(head@, 16, 2)[1] == b1);
        assert(page_size == header_page_size(head@));
        let count: u64 = file_size / (page_size as u64);
        let ghost ev = entry_views(tables@);
        let mut map = TextMap::new();
        let mut k: usize = 0;
        assert(map_of(ev.take(0)) =~= Map::<Seq<char>, Seq<char>>::empty());
        while k < tables.len()
            invariant
                k <= tables.len(),
                ev == entry_views(tables@),
                map@ == map_of(ev.take(k as int)),
            decreases tables.len() - k,
        {
            let t = copy_str(tables[k].1.as_str());
            map.set(tables[k].0.as_str(), t);
            assert(ev.take(k + 1).drop_last() =~= ev.take(k as int));
            assert(ev.take(k + 1).last() == ev[k as int]);
            k += 1;
        }
        assert(ev.take(tables.len() as int) =~= ev);
        Ok(
            SqliteConnection {
                db_path: copy_str(path),
                page_size,
                page_count: count,
                schema,
                tables: map,
                tx_backups: TextMap::new(),
            },
        )
    }

    /// The schema text.
    pub fn schema_text(&self) -> (r: String)
        ensures
            r@ == self@.schema,
    {
        copy_str(self.schema.as_str())
    }

    /// The names of the tables, each with its text.
    pub fn table_texts(&self) -> (r: Vec<(String, String)>)
        ensures
            forall|i: int|
                0 <= i < r@.len() ==> self@.tables.dom().contains(#[trigger] r@[i].0@) && self@.tables[r@[i].0@]
                    == r@[i].1@,
            forall|k: Seq<char>| self@.tables.dom().contains(k) ==> exists|i: int| 0 <= i < r@.len() && r@[i].0@ == k,
    {
        let names = self.tables.names();
        let mut r: Vec<(String, String)> = Vec::new();
        let mut i: usize = 0;
        while i < names.len()
            invariant
                i <= names.len(),
                forall|k: Seq<char>|
                    self.tables@.dom().contains(k) <==> exists|j: int| 0 <= j < names@.len() && names@[j]@ == k,
                r@.len() == i,
                forall|j: int| 0 <= j < i ==> #[trigger] r@[j].0@ == names@[j]@,
                forall|j: int|
                    0 <= j < i ==> self@.tables.dom().contains(#[trigger] r@[j].0@) && self@.tables[r@[j].0@]
                        == r@[j].1@,
            decreases names.len() - i,
        {
            match self.tables.get(names[i].as_str()) {
                Some(t) => {
                    r.push((copy_str(names[i].as_str()), t));
                },
                None => {
                    assert(!self.tables@.dom().contains(names@[i as int]@));
                    assert(false);
                },
            }
            i += 1;
        }
        proof {
            assert forall|k: Seq<char>| self@.tables.dom().contains(k) implies exists|i: int|
                0 <= i < r@.len() && r@[i].0@ == k by {
                let j = choose|j: int| 0 <= j < names@.len() && names@[j]@ == k;
                assert(r@[j].0@ == names@[j]@);
            }
        }
        r
    }

    fn table_chars(&self, t: &str) -> (r: Option<Vec<char>>)
        ensures
            match r {
                Some(c) => self@.tables.dom().contains(t@) && self@.tables[t@] == c@,
                None => !self@.tables.dom().contains(t@),
            },
    {
        match self.tables.get(t) {
            Some(text) => Some(chars_of(text.as_str())),
            None => None,
        }
    }

    /// The number of rows of a table; 0 when it has no text.
    pub fn count_rows(&self, table_name: &str) -> (r: Result<usize, Error>)
        ensures
            r matches Ok(n) && n == table_rows(self@, table_name@),
    {
        match self.table_chars(table_name) {
            Some(c) => Ok(count_rows_in(&c)),
            None => Ok(0),
        }
    }

    fn read_header_columns(&self, table_name: &str) -> (r: Vec<SqliteColumnInfo>)
        ensures
            info_views(r@) == header_infos(self@, table_name@),
    {
        let mut r: Vec<SqliteColumnInfo> = Vec::new();
        match self.table_chars(table_name) {
            Some(c) => {
                let names = header_names_of(&c);
                let ghost nv = char_views(names@);
                let mut i: usize = 0;
                while i < names.len()
                    invariant
                        i <= names.len(),
                        nv == char_views(names@),
                        info_views(r@) == nv.take(i as int).map_values(|c: Seq<char>| (c, "TEXT"@)),
                    decreases names.len() - i,
                {
                    let ghost before = info_views(r@);
                    let info = SqliteColumnInfo { name: string_of(&names[i]), data_type: String::from_str("TEXT") };
                    r.push(info);
                    assert(info_views(r@) =~= before.push((nv[i as int], "TEXT"@)));
                    assert(nv.take(i + 1) =~= nv.take(i as int).push(nv[i as int]));
                    i += 1;
                }
                assert(nv.take(names.len() as int) =~= nv);
            },
            None => {
                assert(info_views(r@) =~= Seq::<(Seq<char>, Seq<char>)>::empty());
            },
        }
        r
    }

    fn store_schema(&mut self, table_name: &str, sql: &str)
        ensures
            final(self)@ == with_table(old(self)@, table_name@, sql@),
            final(self).spec_path() == old(self).spec_path(),
            final(self).spec_pages() == old(self).spec_pages(),
    {
        let mut tag = String::from_str("[");
        push_str(&mut tag, table_name);
        push_str(&mut tag, "]");
        let sc = chars_of(self.schema.as_str());
        let tc = chars_of(tag.as_str());
        if !contains_chars(&sc, &tc) {
            push_str(&mut self.schema, tag.as_str());
            self.schema.push('\n');
            push_str(&mut self.schema, sql);
            push_str(&mut self.schema, "\n\n");
        }
        if !self.tables.contains(table_name) {
            self.tables.set(table_name, String::new());
        }
        assert(self@.schema =~= schema_with(old(self)@.schema, table_name@, sql@));
    }

    fn execute_ddl(&mut self, sql: &str) -> (r: Result<SqliteResult, Error>)
        ensures
            final(self)@ == run_ddl(old(self)@, sql@).0,
            outcome(r) == run_ddl(old(self)@, sql@).1,
            engine_error(r),
            final(self).spec_path() == old(self).spec_path(),
            final(self).spec_pages() == old(self).spec_pages(),
    {
        let t = trim_chars(&chars_of(sql));
        let head = upper_chars(&t);
        if starts_with_chars(&head, &chars_of("CREATE TABLE")) {
            let name = create_table_name_of(sql)?;
            self.store_schema(name.as_str(), sql);
        }
        Ok(SqliteResult::Done(0))
    }

    fn store_row(&mut self, table_name: &str, columns: &Vec<Vec<char>>, values: &Vec<Vec<char>>)
        ensures
            final(self)@ == with_text(
                old(self)@,
                table_name@,
                stored_row(table_text(old(self)@, table_name@), char_views(columns@), char_views(values@)),
            ),
            final(self).spec_path() == old(self).spec_path(),
            final(self).spec_pages() == old(self).spec_pages(),
    {
        let content = match self.table_chars(table_name) {
            Some(c) => c,
            None => Vec::new(),
        };
        let text = store_row_in(&content, columns, values);
        self.tables.set(table_name, string_of(&text));
    }

    fn delete_rows(&mut self, table_name: &str, sql: &str) -> (r: usize)
        ensures
            has_lines(old(self)@, table_name@) ==> final(self)@ == with_text(
                old(self)@,
                table_name@,
                after_delete(old(self)@.tables[table_name@], sql@).0,
            ) && r == after_delete(old(self)@.tables[table_name@], sql@).1,
            !has_lines(old(self)@, table_name@) ==> final(self)@ == old(self)@ && r == 0,
            final(self).spec_path() == old(self).spec_path(),
            final(self).spec_pages() == old(self).spec_pages(),
    {
        match self.table_chars(table_name) {
            Some(c) => {
                let ls = lines_of(&c);
                if ls.len() == 0 {
                    return 0;
                }
                let (text, n) = delete_in(&c, &chars_of(sql));
                self.tables.set(table_name, string_of(&text));
                n
            },
            None => 0,
        }
    }

    fn update_rows(&mut self, table_name: &str, sql: &str) -> (r: usize)
        ensures
            has_lines(old(self)@, table_name@) ==> final(self)@ == with_text(
                old(self)@,
                table_name@,
                after_update(old(self)@.tables[table_name@], sql@).0,
            ) && r == after_update(old(self)@.tables[table_name@], sql@).1,
            !has_lines(old(self)@, table_name@) ==> final(self)@ == old(self)@ && r == 0,
            final(self).spec_path() == old(self).spec_path(),
            final(self).spec_pages() == old(self).spec_pages(),
    {
        match self.table_chars(table_name) {
            Some(c) => {
                let ls = lines_of(&c);
                if ls.len() == 0 {
                    return 0;
                }
                let (text, n) = update_in(&c, &chars_of(sql));
                self.tables.set(table_name, string_of(&text));
                n
            },
            None => 0,
        }
    }

    fn execute_dml(&mut self, sql: &str) -> (r: Result<SqliteResult, Error>)
        ensures
            final(self)@ == run_dml(old(self)@, sql@).0,
            outcome(r) == run_dml(old(self)@, sql@).1,
            engine_error(r),
            final(self).spec_path() == old(self).spec_path(),
            final(self).spec_pages() == old(self).spec_pages(),
    {
        let cs = chars_of(sql);
        let t = trim_chars(&cs);
        let head = upper_chars(&t);
        if starts_with_chars(&head, &chars_of("INSERT")) {
            let table_name = insert_table_name(sql)?;
            let columns = insert_columns(&cs);
            let values = insert_values(&cs);
            self.store_row(table_name.as_str(), &columns, &values);
            Ok(SqliteResult::Done(1))
        } else if starts_with_chars(&head, &chars_of("DELETE")) {
            let table_name = delete_table_name(sql)?;
            let count = self.delete_rows(table_name.as_str(), sql);
            Ok(SqliteResult::Done(count as u64))
        } else if starts_with_chars(&head, &chars_of("UPDATE")) {
            let table_name = update_table_name(sql)?;
            let count = self.update_rows(table_name.as_str(), sql);
            Ok(SqliteResult::Done(count as u64))
        } else {
            Ok(SqliteResult::Done(0))
        }
    }

    fn execute_select(&self, sql: &str) -> (r: Result<SqliteResult, Error>)
        ensures
            outcome(r) == select_result(self@, sql@),
            engine_error(r),
    {
        let cs = chars_of(sql);
        let t = trim_chars(&cs);
        let head = upper_chars(&t);
        if !starts_with_chars(&head, &chars_of("SELECT")) {
            let rows: Vec<Vec<String>> = Vec::new();
            let infos: Vec<SqliteColumnInfo> = Vec::new();
            assert(row_views(rows@) =~= Seq::<Seq<Seq<char>>>::empty());
            assert(info_views(infos@) =~= Seq::<(Seq<char>, Seq<char>)>::empty());
            return Ok(SqliteResult::Rows(rows, infos));
        }
        if !contains_chars(&head, &chars_of("FROM")) {
            proof {
                lemma_find_bounds(head@, "SELECT"@);
            }
            let rest = after_chars(&cs, 0, 6);
            let rt = trim_chars(&rest);
            let semi = vec![';'];
            assert(semi@ =~= seq![';']);
            let name = trim_end_set(&rt, &semi);
            let info = SqliteColumnInfo { name: string_of(&name), data_type: String::from_str("TEXT") };
            let mut row: Vec<String> = Vec::new();
            row.push(String::from_str("0"));
            assert(row@.map_values(|s: String| s@) =~= seq!["0"@]);
            let mut rows: Vec<Vec<String>> = Vec::new();
            rows.push(row);
            let mut infos: Vec<SqliteColumnInfo> = Vec::new();
            infos.push(info);
            assert(row_views(rows@) =~= seq![seq!["0"@]]);
            assert(info_views(infos@) =~= seq![(name@, "TEXT"@)]);
            return Ok(SqliteResult::Rows(rows, infos));
        }
        if contains_chars(&head, &chars_of("COUNT(*)")) || contains_chars(&head, &chars_of("COUNT(")) {
            let table_name = select_table_name(sql)?;
            let count = self.count_rows(table_name.as_str())?;
            let info = SqliteColumnInfo { name: String::from_str("COUNT(*)"), data_type: String::from_str("INTEGER") };
            let mut row: Vec<String> = Vec::new();
            row.push(u64_text(count as u64));
            assert(row@.map_values(|s: String| s@) =~= seq![spec_decimal(table_rows(self@, table_name@))]);
            let mut rows: Vec<Vec<String>> = Vec::new();
            rows.push(row);
            let mut infos: Vec<SqliteColumnInfo> = Vec::new();
            infos.push(info);
            assert(row_views(rows@) =~= seq![seq![spec_decimal(table_rows(self@, table_name@))]]);
            assert(info_views(infos@) =~= seq![("COUNT(*)"@, "INTEGER"@)]);
            return Ok(SqliteResult::Rows(rows, infos));
        }
        let table_name = select_table_name(sql)?;
        let columns = select_columns(&cs);
        let ghost cols = char_views(columns@);
        let raw = match self.table_chars(table_name.as_str()) {
            Some(c) => read_rows_in(&c, &columns, &cs),
            None => {
                let v: Vec<Vec<Vec<char>>> = Vec::new();
                assert(v@.map_values(|row: Vec<Vec<char>>| char_views(row@)) =~= Seq::<Seq<Seq<char>>>::empty());
                v
            },
        };
        let ghost rv = raw@.map_values(|row: Vec<Vec<char>>| char_views(row@));
        let mut rows: Vec<Vec<String>> = Vec::new();
        let mut i: usize = 0;
        while i < raw.len()
            invariant
                i <= raw.len(),
                rv == raw@.map_values(|row: Vec<Vec<char>>| char_views(row@)),
                row_views(rows@) == rv.take(i as int),
            decreases raw.len() - i,
        {
            let src = &raw[i];
            let mut row: Vec<String> = Vec::new();
            let mut j: usize = 0;
            while j < src.len()
                invariant
                    j <= src.len(),
                    row@.map_values(|s: String| s@) == char_views(src@).take(j as int),
                decreases src.len() - j,
            {
                let ghost before = row@.map_values(|s: String| s@);
                let x = string_of(&src[j]);
                row.push(x);
                assert(row@.map_values(|s: String| s@) =~= before.push(x@));
                assert(char_views(src@).take(j + 1) =~= char_views(src@).take(j as int).push(src@[j as int]@));
                j += 1;
            }
            assert(char_views(src@).take(src.len() as int) =~= char_views(src@));
            let ghost before = row_views(rows@);
            rows.push(row);
            assert(row_views(rows@) =~= before.push(rv[i as int]));
            assert(rv.take(i + 1) =~= rv.take(i as int).push(rv[i as int]));
            i += 1;
        }
        assert(rv.take(raw.len() as int) =~= rv);
        let is_star = columns.len() == 1 && crate::text::chars_eq(&columns[0], &chars_of("*"));
        proof {
            if columns@.len() == 1 {
                assert(cols =~= seq![columns@[0]@]);
                if cols == seq!["*"@] {
                    assert(cols[0] == columns@[0]@);
                }
            } else {
                assert(cols.len() != 1);
            }
            assert(is_star == (cols == seq!["*"@]));
        }
        let infos = if is_star {
            self.read_header_columns(table_name.as_str())
        } else {
            let mut infos: Vec<SqliteColumnInfo> = Vec::new();
            let mut k: usize = 0;
            while k < columns.len()
                invariant
                    k <= columns.len(),
                    cols == char_views(columns@),
                    info_views(infos@) == cols.take(k as int).map_values(|c: Seq<char>| (c, "TEXT"@)),
                decreases columns.len() - k,
            {
                let ghost before = info_views(infos@);
                let info = SqliteColumnInfo { name: string_of(&columns[k]), data_type: String::from_str("TEXT") };
                infos.push(info);
                assert(info_views(infos@) =~= before.push((cols[k as int], "TEXT"@)));
                assert(cols.take(k + 1) =~= cols.take(k as int).push(cols[k as int]));
                k += 1;
            }
            assert(cols.take(columns.len() as int) =~= cols);
            infos
        };
        Ok(SqliteResult::Rows(rows, infos))
    }

    /// Runs one statement.
    pub fn execute_query(&mut self, sql: &str) -> (r: Result<SqliteResult, Error>)
        ensures
            final(self)@ == run_sql(old(self)@, sql@).0,
            outcome(r) == run_sql(old(self)@, sql@).1,
            engine_error(r),
            final(self).spec_path() == old(self).spec_path(),
            final(self).spec_pages() == old(self).spec_pages(),
    {
        let cs = chars_of(sql);
        let t = trim_chars(&cs);
        let head = upper_chars(&t);
        if starts_with_chars(&head, &chars_of("CREATE TABLE")) || starts_with_chars(&head, &chars_of("CREATE INDEX"))
            || starts_with_chars(&head, &chars_of("CREATE VIEW")) || starts_with_chars(
            &head,
            &chars_of("CREATE TRIGGER"),
        ) {
            return self.execute_ddl(sql);
        }
        if starts_with_chars(&head, &chars_of("INSERT")) || starts_with_chars(&head, &chars_of("UPDATE"))
            || starts_with_chars(&head, &chars_of("DELETE")) || starts_with_chars(&head, &chars_of("DROP"))
            || starts_with_chars(&head, &chars_of("ALTER")) {
            return self.execute_dml(sql);
        }
        if starts_with_chars(&head, &chars_of("SELECT")) || starts_with_chars(&head, &chars_of("PRAGMA"))
            || starts_with_chars(&head, &chars_of("EXPLAIN")) {
            return self.execute_select(sql);
        }
        if starts_with_chars(&head, &chars_of("BEGIN")) {
            self.tx_backups.set_all(&self.tables.copy());
            return Ok(SqliteResult::Done(0));
        }
        if starts_with_chars(&head, &chars_of("COMMIT")) {
            self.tx_backups = TextMap::new();
            return Ok(SqliteResult::Done(0));
        }
        if starts_with_chars(&head, &chars_of("ROLLBACK")) {
            let saved = self.tx_backups.copy();
            self.tables.set_all(&saved);
            self.tx_backups = TextMap::new();
            return Ok(SqliteResult::Done(0));
        }
        Ok(SqliteResult::Done(0))
    }
}

} // verus!
