//! The statements that create a model's table and its indexes.
use vstd::prelude::*;
use crate::driver::DatabaseType;
use crate::orm::model::{ColumnInfo, ColumnInfoModel};
use crate::orm::sqltype::{sql_type_checked, sql_type_of, opt_str_view};
use crate::text::{str_eq, chars_of, chars_eq, lex_less, lex_lt, push_str, copy_str, join_strings, spec_join, views};

verus! {

/// The views of a sequence of string slices.
pub open spec fn str_views<'a>(v: Seq<&'a str>) -> Seq<Seq<char>> {
    v.map_values(|s: &'a str| s@)
}

/// The model of a schema.
pub open spec fn schema_view(s: Seq<ColumnInfo>) -> Seq<ColumnInfoModel> {
    s.map_values(|c: ColumnInfo| c@)
}

/// The column type of every column, or none if one of them has none.
pub open spec fn column_types(schema: Seq<ColumnInfoModel>, db: DatabaseType) -> Option<Seq<Seq<char>>>
    decreases schema.len(),
{
    if schema.len() == 0 {
        Some(Seq::empty())
    } else {
        let c = schema.last();
        match column_types(schema.drop_last(), db) {
            Some(ts) => match sql_type_of(c.rust_type, db, c.is_auto_increment) {
                Some(t) => Some(ts.push(t)),
                None => None,
            },
            None => None,
        }
    }
}

/// `<name> <type>`, followed by ` NOT NULL` unless the column is part of the
/// primary key.
pub open spec fn column_def(c: ColumnInfoModel, ty: Seq<char>) -> Seq<char> {
    c.name + " "@ + ty + if c.is_primary_key {
        Seq::<char>::empty()
    } else {
        " NOT NULL"@
    }
}

pub open spec fn column_defs(schema: Seq<ColumnInfoModel>, types: Seq<Seq<char>>) -> Seq<Seq<char>> {
    Seq::new(schema.len(), |i: int| column_def(schema[i], types[i]))
}

/// The names of the primary-key columns, in schema order.
pub open spec fn primary_key_names(schema: Seq<ColumnInfoModel>) -> Seq<Seq<char>>
    decreases schema.len(),
{
    if schema.len() == 0 {
        Seq::empty()
    } else {
        let p = primary_key_names(schema.drop_last());
        if schema.last().is_primary_key {
            p.push(schema.last().name)
        } else {
            p
        }
    }
}

/// The lines between the parentheses of `CREATE TABLE`: the column
/// definitions and, when some column is part of it, the primary key.
pub open spec fn table_body(schema: Seq<ColumnInfoModel>, types: Seq<Seq<char>>) -> Seq<Seq<char>> {
    let pk = primary_key_names(schema);
    if pk.len() > 0 {
        column_defs(schema, types).push("PRIMARY KEY ("@ + spec_join(pk, ", "@) + ")"@)
    } else {
        column_defs(schema, types)
    }
}

pub open spec fn create_table_sql(table: Seq<char>, schema: Seq<ColumnInfoModel>, types: Seq<Seq<char>>) -> Seq<char> {
    "CREATE TABLE IF NOT EXISTS "@ + table + " (\n    "@ + spec_join(table_body(schema, types), ",\n    "@)
        + "\n)"@
}

pub open spec fn index_sql(table: Seq<char>, col: Seq<char>) -> Seq<char> {
    "CREATE INDEX IF NOT EXISTS idx_"@ + table + "_"@ + col + " ON "@ + table + " ("@ + col + ")"@
}

pub open spec fn unique_sql(name: Seq<char>, table: Seq<char>, cols: Seq<Seq<char>>) -> Seq<char> {
    "CREATE UNIQUE INDEX IF NOT EXISTS "@ + name + " ON "@ + table + " ("@ + spec_join(cols, ", "@) + ")"@
}

/// One index per column marked as indexed, in schema order.
pub open spec fn index_statements(table: Seq<char>, schema: Seq<ColumnInfoModel>) -> Seq<Seq<char>>
    decreases schema.len(),
{
    if schema.len() == 0 {
        Seq::empty()
    } else {
        let p = index_statements(table, schema.drop_last());
        if schema.last().is_index {
            p.push(index_sql(table, schema.last().name))
        } else {
            p
        }
    }
}

/// One unique index, `uq_<table>_<column>`, per column marked unique, in
/// schema order.
pub open spec fn unique_column_statements(table: Seq<char>, schema: Seq<ColumnInfoModel>) -> Seq<Seq<char>>
    decreases schema.len(),
{
    if schema.len() == 0 {
        Seq::empty()
    } else {
        let p = unique_column_statements(table, schema.drop_last());
        let c = schema.last();
        if c.is_unique {
            p.push(unique_sql("uq_"@ + table + "_"@ + c.name, table, seq![c.name]))
        } else {
            p
        }
    }
}

/// `keys`, sorted and without repetition, with `k` added.
pub open spec fn insert_sorted(keys: Seq<Seq<char>>, k: Seq<char>) -> Seq<Seq<char>>
    decreases keys.len(),
{
    if keys.len() == 0 {
        seq![k]
    } else if keys[0] == k {
        keys
    } else if lex_lt(k, keys[0]) {
        seq![k] + keys
    } else {
        seq![keys[0]] + insert_sorted(keys.drop_first(), k)
    }
}

/// The names of the composite unique indexes, in sorted order, each once.
pub open spec fn group_names(schema: Seq<ColumnInfoModel>) -> Seq<Seq<char>>
    decreases schema.len(),
{
    if schema.len() == 0 {
        Seq::empty()
    } else {
        let p = group_names(schema.drop_last());
        match schema.last().unique_index_name {
            Some(k) => insert_sorted(p, k),
            None => p,
        }
    }
}

/// The columns of the composite unique index named `k`, in schema order.
pub open spec fn group_columns(schema: Seq<ColumnInfoModel>, k: Seq<char>) -> Seq<Seq<char>>
    decreases schema.len(),
{
    if schema.len() == 0 {
        Seq::empty()
    } else {
        let p = group_columns(schema.drop_last(), k);
        if schema.last().unique_index_name == Some(k) {
            p.push(schema.last().name)
        } else {
            p
        }
    }
}

/// The name of a composite unique index: its own, or, when empty,
/// `uq_<table>_<columns joined by _>`.
pub open spec fn group_index_name(table: Seq<char>, k: Seq<char>, cols: Seq<Seq<char>>) -> Seq<char> {
    if k.len() == 0 {
        "uq_"@ + table + "_"@ + spec_join(cols, "_"@)
    } else {
        k
    }
}

pub open spec fn group_statement(table: Seq<char>, schema: Seq<ColumnInfoModel>, k: Seq<char>) -> Seq<char> {
    let cols = group_columns(schema, k);
    unique_sql(group_index_name(table, k, cols), table, cols)
}

/// One unique index per composite group, in the order of the group names.
pub open spec fn group_statements(table: Seq<char>, schema: Seq<ColumnInfoModel>) -> Seq<Seq<char>> {
    let keys = group_names(schema);
    Seq::new(keys.len(), |i: int| group_statement(table, schema, keys[i]))
}

/// Every statement that creates the table and its indexes, in order; none
/// when some column's type has no column type.
pub open spec fn table_statements(table: Seq<char>, schema: Seq<ColumnInfoModel>, db: DatabaseType) -> Option<
    Seq<Seq<char>>,
> {
    match column_types(schema, db) {
        Some(types) => Some(
            seq![create_table_sql(table, schema, types)] + index_statements(table, schema)
                + unique_column_statements(table, schema) + group_statements(table, schema),
        ),
        None => None,
    }
}

proof fn lemma_column_types_prefix(schema: Seq<ColumnInfoModel>, db: DatabaseType, j: int)
    requires
        0 <= j <= schema.len(),
        column_types(schema.take(j), db) is None,
    ensures
        column_types(schema, db) is None,
    decreases schema.len() - j,
{
    if j < schema.len() {
        assert(schema.take(j + 1).drop_last() =~= schema.take(j));
        lemma_column_types_prefix(schema, db, j + 1);
    } else {
        assert(schema.take(j) =~= schema);
    }
}

fn insert_key(keys: &mut Vec<&'static str>, k: &'static str)
    ensures
        str_views(final(keys)@) == insert_sorted(str_views(old(keys)@), k@),
{
    let ghost kk = str_views(keys@);
    let kc = chars_of(k);
    let mut j: usize = 0;
    assert(kk.skip(0) =~= kk);
    assert(kk.take(0) + kk =~= kk);
    while j < keys.len()
        invariant
            j <= keys.len(),
            kc@ == k@,
            kk == str_views(keys@),
            keys@ == old(keys)@,
            insert_sorted(kk, k@) == kk.take(j as int) + insert_sorted(kk.skip(j as int), k@),
        decreases keys.len() - j,
    {
        let cj = chars_of(keys[j]);
        let ghost rest = kk.skip(j as int);
        assert(rest[0] == kk[j as int]);
        if chars_eq(&cj, &kc) {
            assert(kk.take(j as int) + rest =~= kk);
            return;
        }
        if lex_less(&kc, &cj) {
            keys.insert(j, k);
            assert(str_views(keys@) =~= kk.take(j as int) + (seq![k@] + rest));
            return;
        }
        assert(rest.drop_first() =~= kk.skip(j + 1));
        assert(kk.take(j as int) + seq![kk[j as int]] =~= kk.take(j + 1));
        j += 1;
    }
    assert(kk.skip(j as int) =~= Seq::<Seq<char>>::empty());
    assert(kk.take(j as int) =~= kk);
    keys.push(k);
    assert(str_views(keys@) =~= kk.push(k@));
}

fn unique_index_stmt(name: &str, table: &str, cols: &Vec<String>) -> (r: String)
    ensures
        r@ == unique_sql(name@, table@, views(cols@)),
{
    let mut s = String::from_str("CREATE UNIQUE INDEX IF NOT EXISTS ");
    push_str(&mut s, name);
    push_str(&mut s, " ON ");
    push_str(&mut s, table);
    push_str(&mut s, " (");
    let j = join_strings(cols, ", ");
    push_str(&mut s, j.as_str());
    push_str(&mut s, ")");
    s
}

/// The `CREATE TABLE` statement, or none when a column's type has no column
/// type.
fn create_table_stmt(table: &str, schema: &[ColumnInfo], db: DatabaseType) -> (r: Option<String>)
    ensures
        match column_types(schema_view(schema@), db) {
            Some(types) => r matches Some(s) && s@ == create_table_sql(table@, schema_view(schema@), types),
            None => r is None,
        },
{
    let ghost sv = schema_view(schema@);
    let mut defs: Vec<String> = Vec::new();
    let mut pks: Vec<String> = Vec::new();
    let ghost mut types: Seq<Seq<char>> = Seq::empty();
    let mut i: usize = 0;
    assert(sv.take(0) =~= Seq::<ColumnInfoModel>::empty());
    while i < schema.len()
        invariant
            i <= schema.len(),
            sv == schema_view(schema@),
            column_types(sv.take(i as int), db) == Some(types),
            types.len() == i,
            views(defs@) == column_defs(sv.take(i as int), types),
            views(pks@) == primary_key_names(sv.take(i as int)),
        decreases schema.len() - i,
    {
        let c = schema[i];
        let ghost pre = sv.take(i as int);
        let ghost next = sv.take(i + 1);
        assert(next.drop_last() =~= pre);
        assert(next.last() == c@);
        match sql_type_checked(c.rust_type, db, c.is_auto_increment) {
            Some(t) => {
                let mut d = copy_str(c.name);
                push_str(&mut d, " ");
                push_str(&mut d, t);
                if !c.is_primary_key {
                    push_str(&mut d, " NOT NULL");
                }
                let ghost db0 = defs@;
                let ghost pb0 = pks@;
                defs.push(d);
                proof {
                    assert(d@ == column_def(c@, t@));
                    assert(column_defs(next, types.push(t@)) =~= column_defs(pre, types).push(d@));
                    assert(views(defs@) =~= views(db0).push(d@));
                    types = types.push(t@);
                }
                if c.is_primary_key {
                    pks.push(copy_str(c.name));
                    assert(views(pks@) =~= views(pb0).push(c.name@));
                }
            },
            None => {
                proof {
                    lemma_column_types_prefix(sv, db, i + 1);
                }
                return None;
            },
        }
        i += 1;
    }
    assert(sv.take(schema.len() as int) =~= sv);
    if pks.len() > 0 {
        let mut p = String::from_str("PRIMARY KEY (");
        let j = join_strings(&pks, ", ");
        push_str(&mut p, j.as_str());
        push_str(&mut p, ")");
        let ghost d0 = defs@;
        defs.push(p);
        assert(views(defs@) =~= views(d0).push(p@));
    }
    let mut s = String::from_str("CREATE TABLE IF NOT EXISTS ");
    push_str(&mut s, table);
    push_str(&mut s, " (\n    ");
    let body = join_strings(&defs, ",\n    ");
    push_str(&mut s, body.as_str());
    push_str(&mut s, "\n)");
    Some(s)
}

/// Every statement that creates the table of `schema` and its indexes, in
/// order, or none when a column's type has no column type.
pub(crate) fn table_statements_exec(table: &str, schema: &[ColumnInfo], db: DatabaseType) -> (r: Option<Vec<String>>)
    ensures
        match table_statements(table@, schema_view(schema@), db) {
            Some(stmts) => r matches Some(v) && views(v@) == stmts,
            None => r is None,
        },
{
    let ghost sv = schema_view(schema@);
    let first = match create_table_stmt(table, schema, db) {
        Some(s) => s,
        None => return None,
    };
    let mut out: Vec<String> = Vec::new();
    out.push(first);
    let ghost base = views(out@);
    // Indexes of single columns.
    let mut i: usize = 0;
    assert(sv.take(0) =~= Seq::<ColumnInfoModel>::empty());
    while i < schema.len()
        invariant
            i <= schema.len(),
            sv == schema_view(schema@),
            views(out@) == base + index_statements(table@, sv.take(i as int)),
        decreases schema.len() - i,
    {
        let c = schema[i];
        assert(sv.take(i + 1).drop_last() =~= sv.take(i as int));
        assert(sv.take(i + 1).last() == c@);
        if c.is_index {
            let mut s = String::from_str("CREATE INDEX IF NOT EXISTS idx_");
            push_str(&mut s, table);
            push_str(&mut s, "_");
            push_str(&mut s, c.name);
            push_str(&mut s, " ON ");
            push_str(&mut s, table);
            push_str(&mut s, " (");
            push_str(&mut s, c.name);
            push_str(&mut s, ")");
            let ghost o0 = out@;
            out.push(s);
            assert(views(out@) =~= views(o0).push(s@));
        }
        i += 1;
    }
    assert(sv.take(schema.len() as int) =~= sv);
    let ghost base2 = views(out@);
    // Unique indexes of single columns.
    let mut i: usize = 0;
    while i < schema.len()
        invariant
            i <= schema.len(),
            sv == schema_view(schema@),
            views(out@) == base2 + unique_column_statements(table@, sv.take(i as int)),
        decreases schema.len() - i,
    {
        let c = schema[i];
        assert(sv.take(i + 1).drop_last() =~= sv.take(i as int));
        assert(sv.take(i + 1).last() == c@);
        if c.is_unique {
            let mut name = String::from_str("uq_");
            push_str(&mut name, table);
            push_str(&mut name, "_");
            push_str(&mut name, c.name);
            let mut cols: Vec<String> = Vec::new();
            cols.push(copy_str(c.name));
            assert(views(cols@) =~= seq![c.name@]);
            let s = unique_index_stmt(name.as_str(), table, &cols);
            let ghost o0 = out@;
            out.push(s);
            assert(views(out@) =~= views(o0).push(s@));
        }
        i += 1;
    }
    let ghost base3 = views(out@);
    // Names of the composite unique indexes.
    let mut keys: Vec<&'static str> = Vec::new();
    let mut i: usize = 0;
    while i < schema.len()
        invariant
            i <= schema.len(),
            sv == schema_view(schema@),
            str_views(keys@) == group_names(sv.take(i as int)),
        decreases schema.len() - i,
    {
        let c = schema[i];
        assert(sv.take(i + 1).drop_last() =~= sv.take(i as int));
        assert(sv.take(i + 1).last() == c@);
        match c.unique_index_name {
            Some(k) => insert_key(&mut keys, k),
            None => {},
        }
        i += 1;
    }
    let ghost gk = group_names(sv);
    // One statement per composite unique index.
    let mut g: usize = 0;
    while g < keys.len()
        invariant
            g <= keys.len(),
            sv == schema_view(schema@),
            str_views(keys@) == gk,
            gk == group_names(sv),
            views(out@) == base3 + group_statements(table@, sv).take(g as int),
        decreases keys.len() - g,
    {
        let k = keys[g];
        assert(gk[g as int] == k@);
        let mut cols: Vec<String> = Vec::new();
        let mut i: usize = 0;
        while i < schema.len()
            invariant
                i <= schema.len(),
                sv == schema_view(schema@),
                views(cols@) == group_columns(sv.take(i as int), k@),
            decreases schema.len() - i,
        {
            let c = schema[i];
            assert(sv.take(i + 1).drop_last() =~= sv.take(i as int));
            assert(sv.take(i + 1).last() == c@);
            let hit = match c.unique_index_name {
                Some(n) => str_eq(n, k),
                None => false,
            };
            assert(hit == (c@.unique_index_name == Some(k@)));
            if hit {
                let ghost c0 = cols@;
                cols.push(copy_str(c.name));
                assert(views(cols@) =~= views(c0).push(c.name@));
            }
            i += 1;
        }
        assert(sv.take(schema.len() as int) =~= sv);
        let s = if k.unicode_len() == 0 {
            let mut name = String::from_str("uq_");
            push_str(&mut name, table);
            push_str(&mut name, "_");
            let j = join_strings(&cols, "_");
            push_str(&mut name, j.as_str());
            unique_index_stmt(name.as_str(), table, &cols)
        } else {
            unique_index_stmt(k, table, &cols)
        };
        let ghost o0 = out@;
        out.push(s);
        assert(views(out@) =~= views(o0).push(s@));
        assert(group_statements(table@, sv).take(g + 1) =~= group_statements(table@, sv).take(g as int).push(s@));
        g += 1;
    }
    assert(group_statements(table@, sv).take(keys.len() as int) =~= group_statements(table@, sv));
    Some(out)
}

} // verus!
