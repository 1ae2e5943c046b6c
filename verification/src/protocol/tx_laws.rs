//! What transactions of the embedded engine do to its tables.
use vstd::prelude::*;
use crate::text::{spec_upper, spec_trim, starts_with, is_ws, ws_pred, lead_count, trail_count, trim_by, upper_char};
use crate::protocol::sqlite_proto::{EngineModel, run_sql, statement_head};

verus! {

/// The engine after each statement in turn.
pub open spec fn run_all(st: EngineModel, stmts: Seq<Seq<char>>) -> EngineModel
    decreases stmts.len(),
{
    if stmts.len() == 0 {
        st
    } else {
        run_sql(run_all(st, stmts.drop_last()), stmts.last()).0
    }
}

/// A statement that begins, commits or rolls back a transaction.
pub open spec fn is_tx_control(sql: Seq<char>) -> bool {
    let h = statement_head(sql);
    starts_with(h, "BEGIN"@) || starts_with(h, "COMMIT"@) || starts_with(h, "ROLLBACK"@)
}

/// A text without white space or lower-case ASCII letters is its own
/// statement head.
proof fn lemma_plain_head(s: Seq<char>)
    requires
        forall|i: int| 0 <= i < s.len() ==> !is_ws(#[trigger] s[i]) && !('a' <= s[i] && s[i] <= 'z'),
    ensures
        statement_head(s) == s,
{
    let p = ws_pred();
    if s.len() > 0 {
        assert(!p(s[0]));
        assert(!p(s.last()));
    }
    assert(lead_count(s, p) == 0);
    assert(s.skip(0) =~= s);
    assert(trail_count(s, p) == 0);
    assert(s.take(s.len() as int) =~= s);
    assert(spec_trim(s) == s);
    assert(spec_upper(s) =~= s);
}

pub(crate) proof fn lemma_not_prefix(s: Seq<char>, p: Seq<char>, i: int)
    requires
        0 <= i < p.len(),
        i < s.len(),
        s[i] != p[i],
    ensures
        !starts_with(s, p),
{
    if p.len() <= s.len() {
        assert(s.subrange(0, p.len() as int)[i] == s[i]);
    }
}

/// What `BEGIN` does: every table's text is saved.
pub proof fn lemma_begin_statement(st: EngineModel)
    ensures
        run_sql(st, "BEGIN"@) == (
            EngineModel { schema: st.schema, tables: st.tables, backups: st.backups.union_prefer_right(st.tables) },
            Some(crate::protocol::sqlite_proto::ResultModel::Done(0)),
        ),
{
    reveal_strlit("BEGIN");
    let s = "BEGIN"@;
    assert(s.len() == 5);
    lemma_plain_head(s);
    reveal_strlit("CREATE TABLE");
    reveal_strlit("CREATE INDEX");
    reveal_strlit("CREATE VIEW");
    reveal_strlit("CREATE TRIGGER");
    reveal_strlit("INSERT");
    reveal_strlit("UPDATE");
    reveal_strlit("DELETE");
    reveal_strlit("DROP");
    reveal_strlit("ALTER");
    reveal_strlit("SELECT");
    reveal_strlit("PRAGMA");
    reveal_strlit("EXPLAIN");
    assert("CREATE TABLE"@.len() == 12 && "CREATE INDEX"@.len() == 12 && "CREATE VIEW"@.len() == 11);
    assert("CREATE TRIGGER"@.len() == 14 && "INSERT"@.len() == 6 && "UPDATE"@.len() == 6);
    assert("DELETE"@.len() == 6 && "SELECT"@.len() == 6 && "PRAGMA"@.len() == 6 && "EXPLAIN"@.len() == 7);
    lemma_not_prefix(s, "DROP"@, 0);
    lemma_not_prefix(s, "ALTER"@, 0);
    assert(starts_with(s, "BEGIN"@)) by {
        assert(s.subrange(0, 5) =~= s);
    }
}

/// What `COMMIT` does: the saved texts are forgotten.
pub proof fn lemma_commit_statement(st: EngineModel)
    ensures
        run_sql(st, "COMMIT"@) == (
            EngineModel { schema: st.schema, tables: st.tables, backups: Map::empty() },
            Some(crate::protocol::sqlite_proto::ResultModel::Done(0)),
        ),
{
    reveal_strlit("COMMIT");
    let s = "COMMIT"@;
    assert(s.len() == 6);
    lemma_plain_head(s);
    reveal_strlit("CREATE TABLE");
    reveal_strlit("CREATE INDEX");
    reveal_strlit("CREATE VIEW");
    reveal_strlit("CREATE TRIGGER");
    reveal_strlit("INSERT");
    reveal_strlit("UPDATE");
    reveal_strlit("DELETE");
    reveal_strlit("DROP");
    reveal_strlit("ALTER");
    reveal_strlit("SELECT");
    reveal_strlit("PRAGMA");
    reveal_strlit("EXPLAIN");
    reveal_strlit("BEGIN");
    assert("CREATE TABLE"@.len() == 12 && "CREATE INDEX"@.len() == 12 && "CREATE VIEW"@.len() == 11);
    assert("CREATE TRIGGER"@.len() == 14 && "EXPLAIN"@.len() == 7);
    lemma_not_prefix(s, "INSERT"@, 0);
    lemma_not_prefix(s, "UPDATE"@, 0);
    lemma_not_prefix(s, "DELETE"@, 0);
    lemma_not_prefix(s, "DROP"@, 0);
    lemma_not_prefix(s, "ALTER"@, 0);
    lemma_not_prefix(s, "SELECT"@, 0);
    lemma_not_prefix(s, "PRAGMA"@, 0);
    lemma_not_prefix(s, "BEGIN"@, 0);
    assert(starts_with(s, "COMMIT"@)) by {
        assert(s.subrange(0, 6) =~= s);
    }
}

/// What `ROLLBACK` does: the saved texts are put back and forgotten.
pub proof fn lemma_rollback_statement(st: EngineModel)
    ensures
        run_sql(st, "ROLLBACK"@) == (
            EngineModel { schema: st.schema, tables: st.tables.union_prefer_right(st.backups), backups: Map::empty() },
            Some(crate::protocol::sqlite_proto::ResultModel::Done(0)),
        ),
{
    reveal_strlit("ROLLBACK");
    let s = "ROLLBACK"@;
    assert(s.len() == 8);
    lemma_plain_head(s);
    reveal_strlit("CREATE TABLE");
    reveal_strlit("CREATE INDEX");
    reveal_strlit("CREATE VIEW");
    reveal_strlit("CREATE TRIGGER");
    reveal_strlit("INSERT");
    reveal_strlit("UPDATE");
    reveal_strlit("DELETE");
    reveal_strlit("DROP");
    reveal_strlit("ALTER");
    reveal_strlit("SELECT");
    reveal_strlit("PRAGMA");
    reveal_strlit("EXPLAIN");
    reveal_strlit("BEGIN");
    reveal_strlit("COMMIT");
    assert("CREATE TABLE"@.len() == 12 && "CREATE INDEX"@.len() == 12 && "CREATE VIEW"@.len() == 11);
    assert("CREATE TRIGGER"@.len() == 14);
    lemma_not_prefix(s, "INSERT"@, 0);
    lemma_not_prefix(s, "UPDATE"@, 0);
    lemma_not_prefix(s, "DELETE"@, 0);
    lemma_not_prefix(s, "DROP"@, 0);
    lemma_not_prefix(s, "ALTER"@, 0);
    lemma_not_prefix(s, "SELECT"@, 0);
    lemma_not_prefix(s, "PRAGMA"@, 0);
    lemma_not_prefix(s, "EXPLAIN"@, 0);
    lemma_not_prefix(s, "BEGIN"@, 0);
    lemma_not_prefix(s, "COMMIT"@, 0);
    assert(starts_with(s, "ROLLBACK"@)) by {
        assert(s.subrange(0, 8) =~= s);
    }
}

/// A statement other than a transaction command keeps the saved texts,
/// keeps every table, and does not depend on the saved texts.
proof fn lemma_plain_statement(st: EngineModel, sql: Seq<char>)
    requires
        !is_tx_control(sql),
    ensures
        run_sql(st, sql).0.backups == st.backups,
        forall|t: Seq<char>| st.tables.dom().contains(t) ==> #[trigger] run_sql(st, sql).0.tables.dom().contains(t),
        forall|b: Map<Seq<char>, Seq<char>>|
            #![trigger run_sql(EngineModel { schema: st.schema, tables: st.tables, backups: b }, sql)]
            run_sql(EngineModel { schema: st.schema, tables: st.tables, backups: b }, sql).0.tables == run_sql(
                st,
                sql,
            ).0.tables && run_sql(EngineModel { schema: st.schema, tables: st.tables, backups: b }, sql).0.schema
                == run_sql(st, sql).0.schema,
{
}

proof fn lemma_run_all_plain(st: EngineModel, stmts: Seq<Seq<char>>)
    requires
        forall|i: int| 0 <= i < stmts.len() ==> !is_tx_control(#[trigger] stmts[i]),
    ensures
        run_all(st, stmts).backups == st.backups,
        forall|t: Seq<char>| st.tables.dom().contains(t) ==> #[trigger] run_all(st, stmts).tables.dom().contains(t),
        forall|b: Map<Seq<char>, Seq<char>>|
            #![trigger run_all(EngineModel { schema: st.schema, tables: st.tables, backups: b }, stmts)]
            run_all(EngineModel { schema: st.schema, tables: st.tables, backups: b }, stmts).tables == run_all(
                st,
                stmts,
            ).tables && run_all(EngineModel { schema: st.schema, tables: st.tables, backups: b }, stmts).schema
                == run_all(st, stmts).schema,
    decreases stmts.len(),
{
    if stmts.len() > 0 {
        let prev = stmts.drop_last();
        assert forall|i: int| 0 <= i < prev.len() implies !is_tx_control(#[trigger] prev[i]) by {
            assert(prev[i] == stmts[i]);
        }
        lemma_run_all_plain(st, prev);
        let mid = run_all(st, prev);
        assert(!is_tx_control(stmts[stmts.len() - 1]));
        lemma_plain_statement(mid, stmts.last());
        assert forall|b: Map<Seq<char>, Seq<char>>|
            #![trigger run_all(EngineModel { schema: st.schema, tables: st.tables, backups: b }, stmts)]
            run_all(EngineModel { schema: st.schema, tables: st.tables, backups: b }, stmts).tables == run_all(
                st,
                stmts,
            ).tables && run_all(EngineModel { schema: st.schema, tables: st.tables, backups: b }, stmts).schema
                == run_all(st, stmts).schema by {
            let sb = EngineModel { schema: st.schema, tables: st.tables, backups: b };
            let midb = run_all(sb, prev);
            lemma_run_all_plain(sb, prev);
            assert(midb.tables == mid.tables && midb.schema == mid.schema);
            assert(midb == EngineModel { schema: mid.schema, tables: mid.tables, backups: midb.backups });
            assert(run_sql(
                EngineModel { schema: mid.schema, tables: mid.tables, backups: midb.backups },
                stmts.last(),
            ).0.tables == run_sql(mid, stmts.last()).0.tables);
        }
    }
}

/// Rolling a transaction back restores every table that existed when it
/// began, whatever statements ran in it (other than transaction commands),
/// and forgets the saved texts. Tables created in the transaction stay.
pub proof fn lemma_rollback_restores(st: EngineModel, stmts: Seq<Seq<char>>)
    requires
        st.backups == Map::<Seq<char>, Seq<char>>::empty(),
        forall|i: int| 0 <= i < stmts.len() ==> !is_tx_control(#[trigger] stmts[i]),
    ensures
        ({
            let after = run_sql(run_all(run_sql(st, "BEGIN"@).0, stmts), "ROLLBACK"@).0;
            &&& forall|t: Seq<char>| #[trigger]
                st.tables.dom().contains(t) ==> after.tables.dom().contains(t) && after.tables[t] == st.tables[t]
            &&& after.backups == Map::<Seq<char>, Seq<char>>::empty()
        }),
{
    lemma_begin_statement(st);
    let begun = run_sql(st, "BEGIN"@).0;
    assert(begun.backups =~= st.tables);
    lemma_run_all_plain(begun, stmts);
    let mid = run_all(begun, stmts);
    lemma_rollback_statement(mid);
}

/// Committing a transaction leaves the tables and the schema as running
/// its statements (other than transaction commands) outside a transaction
/// would, and forgets the saved texts.
pub proof fn lemma_commit_keeps(st: EngineModel, stmts: Seq<Seq<char>>)
    requires
        forall|i: int| 0 <= i < stmts.len() ==> !is_tx_control(#[trigger] stmts[i]),
    ensures
        ({
            let after = run_sql(run_all(run_sql(st, "BEGIN"@).0, stmts), "COMMIT"@).0;
            &&& after.tables == run_all(st, stmts).tables
            &&& after.schema == run_all(st, stmts).schema
            &&& after.backups == Map::<Seq<char>, Seq<char>>::empty()
        }),
{
    lemma_begin_statement(st);
    let begun = run_sql(st, "BEGIN"@).0;
    lemma_run_all_plain(st, stmts);
    assert(begun == EngineModel { schema: st.schema, tables: st.tables, backups: begun.backups });
    let mid = run_all(begun, stmts);
    lemma_commit_statement(mid);
}

} // verus!
