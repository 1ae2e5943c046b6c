//! The computations of the PostgreSQL driver: the SQL it sends, how it
//! quotes and limits, and what it makes of the server's answers.
use vstd::prelude::*;
use super::{Column, ConnectionConfig, DataType, DatabaseType, ParamModel, Parameter, QueryResult, Row};
use super::{param_models, push_doubled, spec_double, spec_param_sql};
use crate::protocol::pg::{columns_view, rows_view, PgColumnInfo, PgColumnModel, PgResult, PgResultModel};
use crate::text::{copy_str, parse_i64, parse_u64, push_decimal, push_int, push_str, replace_all, str_eq, words};
use crate::text::{spec_decimal, spec_int_text, spec_parse_i64, spec_parse_u64, spec_replace, spec_words, views};

verus! {

/// Whether `t` is the data type the driver gives the type OID `oid`.
pub open spec fn is_pg_data_type(t: DataType, oid: int) -> bool {
    if oid == 16 {
        t == DataType::Boolean
    } else if oid == 21 {
        t == DataType::Int2
    } else if oid == 23 {
        t == DataType::Int4
    } else if oid == 20 {
        t == DataType::Int8
    } else if oid == 700 {
        t == DataType::Float4
    } else if oid == 701 {
        t == DataType::Float8
    } else if oid == 25 || oid == 1043 {
        t == DataType::Text
    } else if oid == 1042 {
        t == DataType::Char(0)
    } else if oid == 1082 {
        t == DataType::Date
    } else if oid == 1083 {
        t == DataType::Time
    } else if oid == 1114 {
        t == DataType::Timestamp
    } else if oid == 114 {
        t == DataType::Json
    } else if oid == 3802 {
        t == DataType::Jsonb
    } else if oid == 2950 {
        t == DataType::Uuid
    } else if oid == 17 {
        t == DataType::Bytea
    } else {
        t matches DataType::Custom(s) && s@ == "pg_oid_"@ + spec_int_text(oid)
    }
}

/// The data type for the PostgreSQL type OID `oid`.
pub fn pg_type_to_data_type(oid: i32) -> (t: DataType)
    ensures
        is_pg_data_type(t, oid as int),
{
    match oid {
        16 => DataType::Boolean,
        21 => DataType::Int2,
        23 => DataType::Int4,
        20 => DataType::Int8,
        700 => DataType::Float4,
        701 => DataType::Float8,
        25 | 1043 => DataType::Text,
        1042 => DataType::Char(0),
        1082 => DataType::Date,
        1083 => DataType::Time,
        1114 => DataType::Timestamp,
        114 => DataType::Json,
        3802 => DataType::Jsonb,
        2950 => DataType::Uuid,
        17 => DataType::Bytea,
        _ => {
            let mut s = String::from_str("pg_oid_");
            push_int(&mut s, oid as i64);
            proof {
                reveal_strlit("pg_oid_");
            }
            DataType::Custom(s)
        },
    }
}

/// The number of rows a command tag reports: its second word if that is a
/// number, else its last word if that is a number, else zero.
pub open spec fn spec_pg_affected(tag: Seq<char>) -> u64 {
    let parts = spec_words(tag);
    if parts.len() >= 2 && spec_parse_u64(parts[1]) is Some {
        spec_parse_u64(parts[1]).unwrap()
    } else if parts.len() > 0 && spec_parse_u64(parts.last()) is Some {
        spec_parse_u64(parts.last()).unwrap()
    } else {
        0
    }
}

/// The number of rows the command tag `cmd` reports.
pub fn parse_pg_affected_rows(cmd: &str) -> (n: u64)
    ensures
        n == spec_pg_affected(cmd@),
{
    let parts = words(cmd);
    if parts.len() >= 2 {
        if let Some(count) = parse_u64(parts[1].as_str()) {
            return count;
        }
    }
    if parts.len() > 0 {
        if let Some(count) = parse_u64(parts[parts.len() - 1].as_str()) {
            return count;
        }
    }
    0
}

/// `sql` with `$1`, `$2`, ... replaced, in that order and each everywhere,
/// by the SQL literals of the parameters.
pub open spec fn spec_pg_sql(sql: Seq<char>, ps: Seq<ParamModel>) -> Seq<char>
    decreases ps.len(),
{
    if ps.len() == 0 {
        sql
    } else {
        spec_replace(
            spec_pg_sql(sql, ps.drop_last()),
            seq!['$'] + spec_decimal(ps.len()),
            spec_param_sql(ps.last()),
        )
    }
}

/// The SQL text the driver sends for `sql` with `params` inlined.
pub fn pg_inline_params(sql: &str, params: &[Parameter]) -> (r: String)
    ensures
        r@ == spec_pg_sql(sql@, param_models(params@)),
{
    let ghost ps = param_models(params@);
    let mut r = copy_str(sql);
    let mut i: usize = 0;
    assert(ps.take(0) =~= Seq::<ParamModel>::empty());
    while i < params.len()
        invariant
            i <= params@.len(),
            ps == param_models(params@),
            ps.len() == params@.len(),
            r@ == spec_pg_sql(sql@, ps.take(i as int)),
        decreases params@.len() - i,
    {
        let value = params[i].as_sql_string(DatabaseType::Postgresql);
        let mut placeholder = String::new();
        placeholder.push('$');
        push_decimal(&mut placeholder, (i + 1) as u64);
        r = replace_all(r.as_str(), placeholder.as_str(), value.as_str());
        proof {
            let t = ps.take(i + 1);
            assert(t.drop_last() =~= ps.take(i as int));
            assert(t.last() == params@[i as int]@);
        }
        i = i + 1;
    }
    assert(ps.take(params@.len() as int) =~= ps);
    r
}

/// The cell of a value as the server sent it: the text `"NULL"` is SQL `NULL`.
pub open spec fn pg_cell(v: Seq<char>) -> Option<Seq<char>> {
    if v == "NULL"@ {
        None
    } else {
        Some(v)
    }
}

/// Every row has at most as many values as there are columns.
pub open spec fn rows_fit(rows: Seq<Seq<Seq<char>>>, ncols: int) -> bool {
    forall|i: int| 0 <= i < rows.len() ==> #[trigger] rows[i].len() <= ncols
}

/// `r` holds the values `vals`, each under the name and the data type of the
/// column at its position.
pub open spec fn pg_row_holds(r: Row, vals: Seq<Seq<char>>, cols: Seq<PgColumnModel>) -> bool {
    &&& r.wf()
    &&& r.spec_names() == cols.take(vals.len() as int).map_values(|c: PgColumnModel| c.name)
    &&& r.spec_cells() == vals.map_values(|v: Seq<char>| pg_cell(v))
    &&& r.spec_types().len() == vals.len()
    &&& forall|j: int|
        0 <= j < vals.len() ==> is_pg_data_type(#[trigger] r.spec_types()[j], cols[j].data_type)
}

fn pg_row(vals: &Vec<String>, cols: &Vec<PgColumnInfo>) -> (r: Row)
    requires
        vals@.len() <= cols@.len(),
    ensures
        pg_row_holds(r, vals@.map_values(|s: String| s@), columns_view(cols@)),
{
    let ghost vs = vals@.map_values(|s: String| s@);
    let ghost cs = columns_view(cols@);
    let mut row = Row::with_capacity(cols.len());
    let mut j: usize = 0;
    assert(cs.take(0).map_values(|c: PgColumnModel| c.name) =~= row.spec_names());
    assert(vs.take(0).map_values(|v: Seq<char>| pg_cell(v)) =~= row.spec_cells());
    while j < vals.len()
        invariant
            j <= vals@.len() <= cols@.len(),
            vs == vals@.map_values(|s: String| s@),
            cs == columns_view(cols@),
            row.wf(),
            row.spec_names() == cs.take(j as int).map_values(|c: PgColumnModel| c.name),
            row.spec_cells() == vs.take(j as int).map_values(|v: Seq<char>| pg_cell(v)),
            row.spec_types().len() == j,
            forall|k: int| 0 <= k < j ==> is_pg_data_type(#[trigger] row.spec_types()[k], cs[k].data_type),
        decreases vals@.len() - j,
    {
        let col = &cols[j];
        let data_type = pg_type_to_data_type(col.data_type);
        let column = Column::new(col.name.as_str(), data_type);
        let value = vals[j].as_str();
        let cell = if str_eq(value, "NULL") {
            None
        } else {
            Some(copy_str(value))
        };
        proof {
            assert(cs[j as int] == cols@[j as int]@);
            assert(vs[j as int] == vals@[j as int]@);
        }
        let ghost before = row;
        row.push(column, cell);
        proof {
            assert(cs.take(j + 1).map_values(|c: PgColumnModel| c.name) =~= cs.take(j as int).map_values(
                |c: PgColumnModel| c.name,
            ).push(cs[j as int].name));
            assert(vs.take(j + 1).map_values(|v: Seq<char>| pg_cell(v)) =~= vs.take(j as int).map_values(
                |v: Seq<char>| pg_cell(v),
            ).push(pg_cell(vs[j as int])));
            assert forall|k: int| 0 <= k < j + 1 implies is_pg_data_type(
                #[trigger] row.spec_types()[k],
                cs[k].data_type,
            ) by {
                if k < j {
                    assert(row.spec_types()[k] == before.spec_types()[k]);
                }
            }
        }
        j = j + 1;
    }
    assert(cs.take(j as int) =~= cs.take(vs.len() as int));
    assert(vs.take(j as int) =~= vs);
    row
}

/// The rows of an answer, each value under its column.
pub fn pg_rows(rows: &Vec<Vec<String>>, cols: &Vec<PgColumnInfo>) -> (r: Vec<Row>)
    requires
        rows_fit(rows_view(rows@), cols@.len() as int),
    ensures
        r@.len() == rows@.len(),
        forall|i: int|
            0 <= i < rows@.len() ==> pg_row_holds(#[trigger] r@[i], rows_view(rows@)[i], columns_view(cols@)),
{
    let mut r: Vec<Row> = Vec::new();
    let mut i: usize = 0;
    while i < rows.len()
        invariant
            i <= rows@.len(),
            rows_fit(rows_view(rows@), cols@.len() as int),
            r@.len() == i,
            forall|k: int|
                0 <= k < i ==> pg_row_holds(#[trigger] r@[k], rows_view(rows@)[k], columns_view(cols@)),
        decreases rows@.len() - i,
    {
        assert(rows_view(rows@)[i as int].len() <= cols@.len());
        let row = pg_row(&rows[i], cols);
        r.push(row);
        i = i + 1;
    }
    r
}

/// Whether the rows of `r` fit its columns (an answer whose rows have more
/// values than columns cannot be turned into rows).
pub open spec fn result_fits(r: PgResultModel) -> bool {
    match r {
        PgResultModel::Rows(rows, cols) => rows_fit(rows, cols.len() as int),
        _ => true,
    }
}

/// Whether the rows of `r` fit its columns.
pub fn pg_result_fits(r: &PgResult) -> (b: bool)
    ensures
        b == result_fits(r@),
{
    match r {
        PgResult::Rows(rows, cols) => {
            let mut i: usize = 0;
            while i < rows.len()
                invariant
                    i <= rows@.len(),
                    r@ == PgResultModel::Rows(rows_view(rows@), columns_view(cols@)),
                    forall|k: int| 0 <= k < i ==> #[trigger] rows_view(rows@)[k].len() <= cols@.len(),
                decreases rows@.len() - i,
            {
                if rows[i].len() > cols.len() {
                    assert(rows_view(rows@)[i as int].len() > cols@.len());
                    assert(!rows_fit(rows_view(rows@), columns_view(cols@).len() as int));
                    return false;
                }
                i = i + 1;
            }
            true
        },
        _ => true,
    }
}

/// `q` holds exactly the rows of the answer rows `rows` under `cols`.
pub open spec fn holds_rows(q: QueryResult, rows: Seq<Seq<Seq<char>>>, cols: Seq<PgColumnModel>) -> bool {
    &&& q.rows@.len() == rows.len()
    &&& forall|i: int| 0 <= i < rows.len() ==> pg_row_holds(#[trigger] q.rows@[i], rows[i], cols)
}

/// The query result for the answer `r` to a query: its rows, or the number
/// of rows its command tag reports.
pub open spec fn pg_query_result_holds(q: QueryResult, r: PgResultModel) -> bool {
    &&& q.last_insert_id is None
    &&& match r {
        PgResultModel::Rows(rows, cols) => holds_rows(q, rows, cols) && q.affected_rows == 0,
        PgResultModel::CommandComplete(tag) => q.rows@.len() == 0 && q.affected_rows == spec_pg_affected(tag),
        PgResultModel::Empty => q.rows@.len() == 0 && q.affected_rows == 0,
    }
}

/// The query result for the answer to a query.
pub fn pg_query_result(r: &PgResult) -> (q: QueryResult)
    requires
        result_fits(r@),
    ensures
        pg_query_result_holds(q, r@),
{
    match r {
        PgResult::Rows(rows, cols) => QueryResult { rows: pg_rows(rows, cols), affected_rows: 0, last_insert_id: None },
        PgResult::CommandComplete(tag) => QueryResult {
            rows: Vec::new(),
            affected_rows: parse_pg_affected_rows(tag.as_str()),
            last_insert_id: None,
        },
        PgResult::Empty => QueryResult { rows: Vec::new(), affected_rows: 0, last_insert_id: None },
    }
}

/// The query result for the answer to a prepared statement: its rows, or
/// nothing.
pub open spec fn pg_prepared_result_holds(q: QueryResult, r: PgResultModel) -> bool {
    &&& q.last_insert_id is None
    &&& q.affected_rows == 0
    &&& match r {
        PgResultModel::Rows(rows, cols) => holds_rows(q, rows, cols),
        _ => q.rows@.len() == 0,
    }
}

/// The query result for the answer to a prepared statement.
pub fn pg_prepared_result(r: &PgResult) -> (q: QueryResult)
    requires
        result_fits(r@),
    ensures
        pg_prepared_result_holds(q, r@),
{
    match r {
        PgResult::Rows(rows, cols) => QueryResult { rows: pg_rows(rows, cols), affected_rows: 0, last_insert_id: None },
        _ => QueryResult { rows: Vec::new(), affected_rows: 0, last_insert_id: None },
    }
}

/// The texts of the parameters of a prepared statement, as they are bound.
pub open spec fn spec_bound_texts(ps: Seq<ParamModel>) -> Seq<Seq<char>> {
    ps.map_values(|p: ParamModel| spec_param_sql(p))
}

/// The SQL literals of `params`, bound to a prepared statement.
pub fn pg_bound_texts(params: &[Parameter]) -> (r: Vec<String>)
    ensures
        views(r@) == spec_bound_texts(param_models(params@)),
{
    let mut r: Vec<String> = Vec::new();
    let mut i: usize = 0;
    while i < params.len()
        invariant
            i <= params@.len(),
            views(r@) == spec_bound_texts(param_models(params@)).take(i as int),
        decreases params@.len() - i,
    {
        let ghost before = views(r@);
        let t = params[i].as_sql_string(DatabaseType::Postgresql);
        r.push(t);
        assert(param_models(params@)[i as int] == params@[i as int]@);
        assert(views(r@) =~= before.push(t@));
        assert(spec_bound_texts(param_models(params@)).take(i + 1) =~= spec_bound_texts(param_models(params@)).take(
            i as int,
        ).push(spec_param_sql(params@[i as int]@)));
        i = i + 1;
    }
    assert(spec_bound_texts(param_models(params@)).take(params@.len() as int) =~= spec_bound_texts(
        param_models(params@),
    ));
    r
}

/// The first value of the first row, if there is one and it is not `NULL`.
pub open spec fn first_value(q: QueryResult) -> Option<Seq<char>> {
    if q.rows@.len() > 0 && q.rows@[0].spec_cells().len() > 0 {
        q.rows@[0].spec_cells()[0]
    } else {
        None
    }
}

fn first_value_of(q: &QueryResult) -> (r: Option<&str>)
    ensures
        match r {
            Some(s) => first_value(*q) == Some(s@),
            None => first_value(*q) is None,
        },
{
    if q.rows.len() > 0 {
        q.rows[0].get(0)
    } else {
        None
    }
}

/// The last inserted id read from the answer to `SELECT LASTVAL()`: the
/// first value, if it is an `i64`.
pub fn pg_last_insert_id(q: &QueryResult) -> (r: Option<i64>)
    ensures
        r == (match first_value(*q) {
            Some(v) => spec_parse_i64(v),
            None => None,
        }),
{
    match first_value_of(q) {
        Some(v) => parse_i64(v),
        None => None,
    }
}

/// The server version read from the answer to `SELECT version()`: the first
/// value, or `"Unknown"`.
pub fn pg_version(q: &QueryResult) -> (r: String)
    ensures
        r@ == (match first_value(*q) {
            Some(v) => v,
            None => "Unknown"@,
        }),
{
    match first_value_of(q) {
        Some(v) => copy_str(v),
        None => String::from_str("Unknown"),
    }
}

/// An identifier in double quotes, inner double quotes doubled.
pub fn pg_escape_identifier(ident: &str) -> (r: String)
    ensures
        r@ == seq!['"'] + spec_double(ident@, '"') + seq!['"'],
{
    let mut s = String::new();
    s.push('"');
    push_doubled(&mut s, ident, '"');
    s.push('"');
    assert(s@ =~= seq!['"'] + spec_double(ident@, '"') + seq!['"']);
    s
}

/// The `LIMIT`/`OFFSET` clause of PostgreSQL.
pub open spec fn pg_limit_offset(limit: Option<usize>, offset: Option<usize>) -> Seq<char> {
    match (limit, offset) {
        (Some(l), Some(o)) => "LIMIT "@ + spec_decimal(l as nat) + " OFFSET "@ + spec_decimal(o as nat),
        (Some(l), None) => "LIMIT "@ + spec_decimal(l as nat),
        (None, Some(o)) => "OFFSET "@ + spec_decimal(o as nat),
        (None, None) => Seq::empty(),
    }
}

/// The `LIMIT`/`OFFSET` clause of PostgreSQL.
pub fn pg_limit_offset_clause(limit: Option<usize>, offset: Option<usize>) -> (r: String)
    ensures
        r@ == pg_limit_offset(limit, offset),
{
    let mut s = String::new();
    match (limit, offset) {
        (Some(l), Some(o)) => {
            push_str(&mut s, "LIMIT ");
            push_decimal(&mut s, l as u64);
            push_str(&mut s, " OFFSET ");
            push_decimal(&mut s, o as u64);
        },
        (Some(l), None) => {
            push_str(&mut s, "LIMIT ");
            push_decimal(&mut s, l as u64);
        },
        (None, Some(o)) => {
            push_str(&mut s, "OFFSET ");
            push_decimal(&mut s, o as u64);
        },
        (None, None) => {},
    }
    assert(s@ =~= pg_limit_offset(limit, offset));
    s
}

/// The libpq connection string of `config`.
pub open spec fn spec_connection_string(c: ConnectionConfig) -> Seq<char> {
    "host="@ + c.host@ + " port="@ + spec_decimal(c.port as nat) + " user="@ + c.username@
        + " password="@ + c.password@ + " dbname="@ + c.database@
}

/// The libpq connection string of `config`.
pub fn pg_connection_string(config: &ConnectionConfig) -> (r: String)
    ensures
        r@ == spec_connection_string(*config),
{
    let mut s = String::from_str("host=");
    push_str(&mut s, config.host.as_str());
    push_str(&mut s, " port=");
    push_decimal(&mut s, config.port as u64);
    push_str(&mut s, " user=");
    push_str(&mut s, config.username.as_str());
    push_str(&mut s, " password=");
    push_str(&mut s, config.password.as_str());
    push_str(&mut s, " dbname=");
    push_str(&mut s, config.database.as_str());
    proof {
        reveal_strlit("host=");
    }
    assert(s@ =~= spec_connection_string(*config));
    s
}

} // verus!
