//! What the embedded engine gives back, through SQL, of what was written to
//! it.
use vstd::prelude::*;
use crate::text::{spec_find, starts_with};
use crate::protocol::sqltext::{insert_columns_of, insert_values_of, name_after, select_columns_of, spec_lines};
use crate::protocol::sqlite_proto::{
    EngineModel, ResultModel, run_sql, select_result, statement_head, table_text,
};
use crate::protocol::table::{fill_ids, read_rows_of, row_columns, row_values};
use crate::protocol::table_laws::{lemma_store_then_read, store_read_ok};
use crate::protocol::tx_laws::lemma_not_prefix;

verus! {

proof fn lemma_head_starts(h: Seq<char>, p: Seq<char>)
    requires
        starts_with(h, p),
        p.len() > 0,
    ensures
        h.len() > 0 && h[0] == p[0],
{
    assert(h.subrange(0, p.len() as int)[0] == h[0]);
}

/// What a read gives back of a write: after an `INSERT` into table `t`,
/// `SELECT * FROM t` without conditions gives the rows it gave before and
/// then the inserted row, its `id` of `0` filled in with the row's number.
/// This holds when the table's text starts with the row's header line and
/// ends with a line break, the row has two columns or more, each column has
/// a value, and no column name or value holds a line break, a carriage
/// return or the field separator.
pub proof fn lemma_insert_then_select(st: EngineModel, ins: Seq<char>, sel: Seq<char>, t: Seq<char>)
    requires
        starts_with(statement_head(ins), "INSERT"@),
        name_after(ins, "INTO"@, 4, seq!['(']) == Some(t),
        starts_with(statement_head(sel), "SELECT"@),
        spec_find(statement_head(sel), "FROM"@) is Some,
        !(spec_find(statement_head(sel), "COUNT(*)"@) is Some),
        !(spec_find(statement_head(sel), "COUNT("@) is Some),
        name_after(sel, "FROM"@, 4, seq![';', ',']) == Some(t),
        select_columns_of(sel) == seq!["*"@],
        store_read_ok(table_text(st, t), insert_columns_of(ins), insert_values_of(ins), sel),
    ensures
        select_result(st, sel) matches Some(ResultModel::Rows(before, _)) && select_result(
            run_sql(st, ins).0,
            sel,
        ) matches Some(ResultModel::Rows(after, _)) && after == before.push(
            fill_ids(
                row_columns(insert_columns_of(ins)),
                row_values(table_text(st, t), insert_columns_of(ins), insert_values_of(ins)),
                spec_lines(table_text(st, t)).len(),
            ),
        ),
{
    reveal_strlit("INSERT");
    reveal_strlit("SELECT");
    reveal_strlit("CREATE TABLE");
    reveal_strlit("CREATE INDEX");
    reveal_strlit("CREATE VIEW");
    reveal_strlit("CREATE TRIGGER");
    reveal_strlit("UPDATE");
    reveal_strlit("DELETE");
    reveal_strlit("DROP");
    reveal_strlit("ALTER");
    let hi = statement_head(ins);
    let hs = statement_head(sel);
    lemma_head_starts(hi, "INSERT"@);
    lemma_head_starts(hs, "SELECT"@);
    lemma_not_prefix(hi, "CREATE TABLE"@, 0);
    lemma_not_prefix(hi, "CREATE INDEX"@, 0);
    lemma_not_prefix(hi, "CREATE VIEW"@, 0);
    lemma_not_prefix(hi, "CREATE TRIGGER"@, 0);
    lemma_not_prefix(hs, "CREATE TABLE"@, 0);
    lemma_not_prefix(hs, "CREATE INDEX"@, 0);
    lemma_not_prefix(hs, "CREATE VIEW"@, 0);
    lemma_not_prefix(hs, "CREATE TRIGGER"@, 0);
    lemma_not_prefix(hs, "INSERT"@, 0);
    lemma_not_prefix(hs, "UPDATE"@, 0);
    lemma_not_prefix(hs, "DELETE"@, 0);
    lemma_not_prefix(hs, "DROP"@, 0);
    lemma_not_prefix(hs, "ALTER"@, 0);
    let content = table_text(st, t);
    let cols = insert_columns_of(ins);
    let vals = insert_values_of(ins);
    lemma_store_then_read(content, cols, vals, sel);
    assert(content.len() > 0);
    assert(st.tables.dom().contains(t));
}

} // verus!
