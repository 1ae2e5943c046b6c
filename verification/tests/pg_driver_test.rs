use grorm::driver::postgres::{
    parse_pg_affected_rows, pg_bound_texts, pg_connection_string, pg_escape_identifier, pg_inline_params,
    pg_last_insert_id, pg_limit_offset_clause, pg_prepared_result, pg_query_result, pg_result_fits,
    pg_type_to_data_type, pg_version,
};
use grorm::driver::{Column, DataType, Parameter, QueryResult, Row};
use grorm::protocol::pg::{PgColumnInfo, PgResult};
use grorm::ConnectionConfig;

fn col(name: &str, oid: i32) -> PgColumnInfo {
    PgColumnInfo {
        name: name.to_string(),
        table_oid: 0,
        column_attr: 0,
        data_type: oid,
        type_size: 0,
        type_modifier: 0,
        format_code: 0,
    }
}

fn one_value(v: Option<&str>) -> QueryResult {
    let mut row = Row::new();
    row.push(Column::new("v", DataType::Text), v.map(|s| s.to_string()));
    QueryResult { rows: vec![row], affected_rows: 0, last_insert_id: None }
}

#[test]
fn pg_type_mapping() {
    assert_eq!(pg_type_to_data_type(16), DataType::Boolean);
    assert_eq!(pg_type_to_data_type(21), DataType::Int2);
    assert_eq!(pg_type_to_data_type(23), DataType::Int4);
    assert_eq!(pg_type_to_data_type(20), DataType::Int8);
    assert_eq!(pg_type_to_data_type(700), DataType::Float4);
    assert_eq!(pg_type_to_data_type(701), DataType::Float8);
    assert_eq!(pg_type_to_data_type(25), DataType::Text);
    assert_eq!(pg_type_to_data_type(1043), DataType::Text);
    assert_eq!(pg_type_to_data_type(1042), DataType::Char(0));
    assert_eq!(pg_type_to_data_type(1082), DataType::Date);
    assert_eq!(pg_type_to_data_type(1083), DataType::Time);
    assert_eq!(pg_type_to_data_type(1114), DataType::Timestamp);
    assert_eq!(pg_type_to_data_type(114), DataType::Json);
    assert_eq!(pg_type_to_data_type(3802), DataType::Jsonb);
    assert_eq!(pg_type_to_data_type(2950), DataType::Uuid);
    assert_eq!(pg_type_to_data_type(17), DataType::Bytea);
    assert_eq!(pg_type_to_data_type(1700), DataType::Custom("pg_oid_1700".to_string()));
    assert_eq!(pg_type_to_data_type(-5), DataType::Custom("pg_oid_-5".to_string()));
}

#[test]
fn pg_affected_rows_from_tags() {
    assert_eq!(parse_pg_affected_rows("UPDATE 3"), 3);
    assert_eq!(parse_pg_affected_rows("DELETE 0"), 0);
    assert_eq!(parse_pg_affected_rows("SELECT 12"), 12);
    // The second word of an INSERT tag is the (zero) object id.
    assert_eq!(parse_pg_affected_rows("INSERT 0 5"), 0);
    assert_eq!(parse_pg_affected_rows("MOVE  \t 7"), 7);
    assert_eq!(parse_pg_affected_rows("CREATE TABLE"), 0);
    assert_eq!(parse_pg_affected_rows("BEGIN"), 0);
    assert_eq!(parse_pg_affected_rows("42"), 42);
    assert_eq!(parse_pg_affected_rows(""), 0);
}

#[test]
fn pg_inline_parameters() {
    let params = vec![Parameter::Int(5), Parameter::String("O'Neil".to_string()), Parameter::Null];
    assert_eq!(
        pg_inline_params("SELECT * FROM t WHERE a = $1 AND b = $2 OR c = $3 OR d = $1", &params),
        "SELECT * FROM t WHERE a = 5 AND b = 'O''Neil' OR c = NULL OR d = 5"
    );
    // `$1` is replaced inside `$10` as well.
    let ten: Vec<Parameter> = (1..=10).map(|i| Parameter::Int(i)).collect();
    assert_eq!(pg_inline_params("$10", &ten), "10");
    assert_eq!(pg_inline_params("no placeholders", &[]), "no placeholders");
}

#[test]
fn pg_rows_of_an_answer() {
    let answer = PgResult::Rows(
        vec![vec!["1".to_string(), "NULL".to_string()], vec!["2".to_string()]],
        vec![col("id", 20), col("name", 25)],
    );
    assert!(pg_result_fits(&answer));
    let q = pg_query_result(&answer);
    assert_eq!(q.affected_rows, 0);
    assert_eq!(q.last_insert_id, None);
    assert_eq!(q.rows.len(), 2);
    assert_eq!(q.rows[0].get(0), Some("1"));
    assert_eq!(q.rows[0].get(1), None);
    assert_eq!(q.rows[0].column_count(), 2);
    assert_eq!(q.rows[0].column(0).unwrap().name, "id");
    assert_eq!(q.rows[0].column(0).unwrap().data_type, DataType::Int8);
    assert_eq!(q.rows[0].column(1).unwrap().data_type, DataType::Text);
    assert_eq!(q.rows[1].column_count(), 1);
    assert_eq!(q.rows[1].get_by_name("id"), Some("2"));

    let p = pg_prepared_result(&answer);
    assert_eq!(p.rows.len(), 2);
    let too_long = PgResult::Rows(vec![vec!["1".to_string(), "2".to_string()]], vec![col("id", 20)]);
    assert!(!pg_result_fits(&too_long));
}

#[test]
fn pg_command_and_empty_answers() {
    let q = pg_query_result(&PgResult::CommandComplete("DELETE 4".to_string()));
    assert_eq!(q.affected_rows, 4);
    assert!(q.rows.is_empty());
    let p = pg_prepared_result(&PgResult::CommandComplete("DELETE 4".to_string()));
    assert_eq!(p.affected_rows, 0);
    let e = pg_query_result(&PgResult::Empty);
    assert_eq!(e.affected_rows, 0);
    assert!(e.rows.is_empty());
}

#[test]
fn pg_bound_parameter_texts() {
    let params = vec![Parameter::Bool(true), Parameter::Bytes(vec![0xab, 0x01]), Parameter::Null];
    assert_eq!(pg_bound_texts(&params), vec!["true".to_string(), "'\\xab01'".to_string(), "NULL".to_string()]);
}

#[test]
fn pg_last_id_and_version() {
    assert_eq!(pg_last_insert_id(&one_value(Some("17"))), Some(17));
    assert_eq!(pg_last_insert_id(&one_value(Some("x"))), None);
    assert_eq!(pg_last_insert_id(&one_value(None)), None);
    assert_eq!(pg_last_insert_id(&QueryResult { rows: vec![], affected_rows: 0, last_insert_id: None }), None);
    assert_eq!(pg_version(&one_value(Some("PostgreSQL 16.1"))), "PostgreSQL 16.1");
    assert_eq!(pg_version(&one_value(None)), "Unknown");
}

#[test]
fn pg_quoting_and_limits() {
    assert_eq!(pg_escape_identifier("user"), "\"user\"");
    assert_eq!(pg_escape_identifier("a\"b"), "\"a\"\"b\"");
    assert_eq!(pg_limit_offset_clause(Some(10), Some(20)), "LIMIT 10 OFFSET 20");
    assert_eq!(pg_limit_offset_clause(Some(10), None), "LIMIT 10");
    assert_eq!(pg_limit_offset_clause(None, Some(20)), "OFFSET 20");
    assert_eq!(pg_limit_offset_clause(None, None), "");
}

#[test]
fn pg_connection_string_text() {
    let c = ConnectionConfig::postgres("db.local", 5433, "shop", "admin", "pw");
    assert_eq!(pg_connection_string(&c), "host=db.local port=5433 user=admin password=pw dbname=shop");
}

#[test]
fn row_iter_walks_columns() {
    let mut row = Row::new();
    row.push(Column::new("a", DataType::Int4), Some("1".to_string()));
    row.push(Column::new("b", DataType::Text), None);
    let mut it = row.iter();
    let (c, v) = it.next().unwrap();
    assert_eq!(c.name, "a");
    assert_eq!(v, Some("1"));
    let (c, v) = it.next().unwrap();
    assert_eq!(c.name, "b");
    assert_eq!(v, None);
    assert!(it.next().is_none());
    assert!(it.next().is_none());
}
