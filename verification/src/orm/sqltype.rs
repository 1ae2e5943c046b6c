//! The SQL column type used for a Rust field type in each database.
//!
//! A type name is reduced to its stem: the name without surrounding white
//! space, cut before its first `<`, in lower case. The stem selects the
//! column type; `Option<T>` takes the column type of `T`.
use vstd::prelude::*;
use crate::driver::DatabaseType;
use crate::text::{
    chars_of, string_of, slice_chars, trim_chars, find_char, rfind_chars, str_eq, starts_with_chars,
    contains_chars, to_lowercase, is_uppercase, lowercase_of, char_is_uppercase, spec_trim,
    spec_find_char, spec_find, spec_rfind, starts_with, lemma_find_bounds, lemma_rfind_bounds,
};

verus! {

/// The type that database `db` uses, given the PostgreSQL, MySQL and SQLite
/// choices.
pub open spec fn db_pick(db: DatabaseType, pg: Seq<char>, my: Seq<char>, sq: Seq<char>) -> Seq<char> {
    match db {
        DatabaseType::Postgresql => pg,
        DatabaseType::Mysql => my,
        DatabaseType::Sqlite => sq,
    }
}

/// A stem that names a user-defined enum: no path separator, a first
/// character with the Unicode `Uppercase` property (`a` stands for an empty
/// stem), and none of the names of string-like types.
pub open spec fn is_enum_stem(n: Seq<char>) -> bool {
    &&& !(spec_find(n, "::"@) is Some)
    &&& char_is_uppercase(if n.len() > 0 { n[0] } else { 'a' })
    &&& !(n == "string"@ || n == "text"@ || n == "json"@ || n == "uuid"@)
}

/// The column type for a stem other than that of `Option`.
pub open spec fn stem_sql_type(n: Seq<char>, db: DatabaseType, auto: bool) -> Seq<char> {
    if n == "bool"@ {
        "BOOLEAN"@
    } else if n == "i8"@ || n == "byte"@ {
        db_pick(db, "SMALLINT"@, "TINYINT"@, "INTEGER"@)
    } else if n == "i16"@ {
        db_pick(db, "SMALLINT"@, "SMALLINT"@, "INTEGER"@)
    } else if n == "i32"@ {
        db_pick(
            db,
            if auto { "SERIAL"@ } else { "INTEGER"@ },
            if auto { "BIGINT"@ } else { "INT"@ },
            "INTEGER"@,
        )
    } else if n == "i64"@ {
        db_pick(db, if auto { "BIGSERIAL"@ } else { "BIGINT"@ }, "BIGINT"@, "INTEGER"@)
    } else if n == "id"@ || n == "grorm::id"@ {
        db_pick(
            db,
            if auto { "BIGSERIAL"@ } else { "BIGINT"@ },
            if auto { "BIGINT AUTO_INCREMENT"@ } else { "BIGINT"@ },
            "INTEGER"@,
        )
    } else if n == "i128"@ {
        db_pick(db, "NUMERIC(39,0)"@, "DECIMAL(39,0)"@, "TEXT"@)
    } else if n == "isize"@ {
        db_pick(db, "BIGINT"@, "BIGINT"@, "INTEGER"@)
    } else if n == "u8"@ {
        db_pick(db, "SMALLINT"@, "TINYINT UNSIGNED"@, "INTEGER"@)
    } else if n == "u16"@ {
        db_pick(db, "INTEGER"@, "SMALLINT UNSIGNED"@, "INTEGER"@)
    } else if n == "u32"@ {
        db_pick(db, "BIGINT"@, "INT UNSIGNED"@, "INTEGER"@)
    } else if n == "u64"@ {
        db_pick(db, "NUMERIC(20,0)"@, "BIGINT UNSIGNED"@, "INTEGER"@)
    } else if n == "u128"@ {
        db_pick(db, "NUMERIC(39,0)"@, "DECIMAL(39,0) UNSIGNED"@, "TEXT"@)
    } else if n == "usize"@ {
        db_pick(db, "BIGINT"@, "BIGINT UNSIGNED"@, "INTEGER"@)
    } else if n == "f32"@ {
        db_pick(db, "REAL"@, "FLOAT"@, "REAL"@)
    } else if n == "f64"@ {
        db_pick(db, "DOUBLE PRECISION"@, "DOUBLE"@, "REAL"@)
    } else if n == "string"@ {
        db_pick(db, "VARCHAR(255)"@, "VARCHAR(255)"@, "TEXT"@)
    } else if n == "char"@ {
        db_pick(db, "CHAR(1)"@, "CHAR(1)"@, "TEXT"@)
    } else if n == "text"@ || n == "str"@ {
        "TEXT"@
    } else if n == "json"@ || n == "jsonb"@ || n == "serde_json::value"@ || n == "value"@
        || n == "serde_json::map"@ || n == "serde_json::number"@ || n == "hashmap"@
        || n == "hashmap<"@ || n == "hashset"@ || n == "hashset<"@ || n == "btreemap"@
        || n == "btreemap<"@ || n == "btreeset"@ || n == "btreeset<"@ {
        db_pick(db, "JSONB"@, "JSON"@, "TEXT"@)
    } else if n == "chrono::naivedate"@ || n == "naivedate"@ || n == "date"@ {
        db_pick(db, "DATE"@, "DATE"@, "TEXT"@)
    } else if n == "chrono::naivetime"@ || n == "naivetime"@ || n == "time"@ {
        db_pick(db, "TIME"@, "TIME"@, "TEXT"@)
    } else if n == "chrono::naivedatetime"@ || n == "naivedatetime"@ {
        db_pick(db, "TIMESTAMP"@, "DATETIME"@, "TEXT"@)
    } else if n == "chrono::datetime"@ || n == "datetime"@ || n == "chrono::datetime<chrono::fixedoffset>"@
        || n == "chrono::datetime<chrono::utc>"@ || n == "chrono::datetime<chrono::local>"@ {
        db_pick(db, "TIMESTAMPTZ"@, "TIMESTAMP"@, "TEXT"@)
    } else if n == "chrono::duration"@ || n == "duration"@ {
        db_pick(db, "INTERVAL"@, "BIGINT"@, "INTEGER"@)
    } else if n == "uuid"@ || n == "uuid::uuid"@ {
        db_pick(db, "UUID"@, "CHAR(36)"@, "TEXT"@)
    } else if n == "vec<u8>"@ || n == "bytes"@ || n == "bytearray"@ || n == "&[u8]"@ {
        db_pick(db, "BYTEA"@, "BLOB"@, "BLOB"@)
    } else if starts_with(n, "vec<"@) || starts_with(n, "array<"@) {
        db_pick(db, "text[]"@, "JSON"@, "TEXT"@)
    } else if n == "std::net::ipaddr"@ || n == "ipaddr"@ || n == "std::net::ipv4addr"@ || n == "ipv4addr"@
        || n == "std::net::ipv6addr"@ || n == "ipv6addr"@ || n == "std::net::socketaddr"@
        || n == "socketaddr"@ {
        db_pick(db, "INET"@, "VARCHAR(45)"@, "TEXT"@)
    } else if n == "decimal"@ || n == "rust_decimal::decimal"@ {
        db_pick(db, "DECIMAL(10,2)"@, "DECIMAL(10,2)"@, "TEXT"@)
    } else if n == "bigdecimal"@ || n == "bigdecimal::bigdecimal"@ {
        db_pick(db, "DECIMAL(20,6)"@, "DECIMAL(20,6)"@, "TEXT"@)
    } else if is_enum_stem(n) {
        db_pick(db, "VARCHAR(50)"@, "VARCHAR(50)"@, "TEXT"@)
    } else {
        "TEXT"@
    }
}

/// The stem of a type name before lower-casing: trimmed, cut before the
/// first `<`.
pub open spec fn type_stem(t: Seq<char>) -> Seq<char> {
    let tt = spec_trim(t);
    match spec_find_char(tt, '<') {
        Some(i) => tt.take(i),
        None => tt,
    }
}

/// Whether a stem is that of `Option`.
pub open spec fn is_option_stem(n: Seq<char>) -> bool {
    n == "option"@ || n == "option<"@
}

/// The text between the first `<` and the last `>` of a type name, when
/// both occur and the first comes before the last.
pub open spec fn inner_type(t: Seq<char>) -> Option<Seq<char>> {
    match spec_find_char(t, '<') {
        Some(a) => match spec_rfind(t, seq!['>']) {
            Some(b) => if 0 <= a && a + 1 <= b && b <= t.len() {
                Some(t.subrange(a + 1, b))
            } else {
                None
            },
            None => None,
        },
        None => None,
    }
}

/// The column type for a Rust type name; none where the stem is that of
/// `Option` and the name holds no well-placed `<` and `>`.
pub open spec fn sql_type_of(t: Seq<char>, db: DatabaseType, auto: bool) -> Option<Seq<char>>
    decreases t.len(),
{
    let n = lowercase_of(type_stem(t));
    if is_option_stem(n) {
        match inner_type(t) {
            Some(inner) => if inner.len() < t.len() {
                sql_type_of(inner, db, auto)
            } else {
                None
            },
            None => None,
        }
    } else {
        Some(stem_sql_type(n, db, auto))
    }
}

/// The view of an optional static string.
pub open spec fn opt_str_view(r: Option<&'static str>) -> Option<Seq<char>> {
    match r {
        Some(s) => Some(s@),
        None => None,
    }
}

fn pick(db: DatabaseType, pg: &'static str, my: &'static str, sq: &'static str) -> (r: &'static str)
    ensures
        r@ == db_pick(db, pg@, my@, sq@),
{
    match db {
        DatabaseType::Postgresql => pg,
        DatabaseType::Mysql => my,
        DatabaseType::Sqlite => sq,
    }
}

fn is_enum_stem_exec(n: &str) -> (r: bool)
    ensures
        r == is_enum_stem(n@),
{
    let cs = chars_of(n);
    let sep = chars_of("::");
    if contains_chars(&cs, &sep) {
        return false;
    }
    let first = if cs.len() > 0 { cs[0] } else { 'a' };
    if !is_uppercase(first) {
        return false;
    }
    !(str_eq(n, "string") || str_eq(n, "text") || str_eq(n, "json") || str_eq(n, "uuid"))
}

/// The column type for a stem other than that of `Option`.
#[verifier::rlimit(40)]
pub fn sql_type_for_stem(n: &str, db: DatabaseType, auto: bool) -> (r: &'static str)
    ensures
        r@ == stem_sql_type(n@, db, auto),
{
    if str_eq(n, "bool") {
        "BOOLEAN"
    } else if str_eq(n, "i8") || str_eq(n, "byte") {
        pick(db, "SMALLINT", "TINYINT", "INTEGER")
    } else if str_eq(n, "i16") {
        pick(db, "SMALLINT", "SMALLINT", "INTEGER")
    } else if str_eq(n, "i32") {
        pick(db, if auto { "SERIAL" } else { "INTEGER" }, if auto { "BIGINT" } else { "INT" }, "INTEGER")
    } else if str_eq(n, "i64") {
        pick(db, if auto { "BIGSERIAL" } else { "BIGINT" }, "BIGINT", "INTEGER")
    } else if str_eq(n, "id") || str_eq(n, "grorm::id") {
        pick(
            db,
            if auto { "BIGSERIAL" } else { "BIGINT" },
            if auto { "BIGINT AUTO_INCREMENT" } else { "BIGINT" },
            "INTEGER",
        )
    } else if str_eq(n, "i128") {
        pick(db, "NUMERIC(39,0)", "DECIMAL(39,0)", "TEXT")
    } else if str_eq(n, "isize") {
        pick(db, "BIGINT", "BIGINT", "INTEGER")
    } else if str_eq(n, "u8") {
        pick(db, "SMALLINT", "TINYINT UNSIGNED", "INTEGER")
    } else if str_eq(n, "u16") {
        pick(db, "INTEGER", "SMALLINT UNSIGNED", "INTEGER")
    } else if str_eq(n, "u32") {
        pick(db, "BIGINT", "INT UNSIGNED", "INTEGER")
    } else if str_eq(n, "u64") {
        pick(db, "NUMERIC(20,0)", "BIGINT UNSIGNED", "INTEGER")
    } else if str_eq(n, "u128") {
        pick(db, "NUMERIC(39,0)", "DECIMAL(39,0) UNSIGNED", "TEXT")
    } else if str_eq(n, "usize") {
        pick(db, "BIGINT", "BIGINT UNSIGNED", "INTEGER")
    } else if str_eq(n, "f32") {
        pick(db, "REAL", "FLOAT", "REAL")
    } else if str_eq(n, "f64") {
        pick(db, "DOUBLE PRECISION", "DOUBLE", "REAL")
    } else if str_eq(n, "string") {
        pick(db, "VARCHAR(255)", "VARCHAR(255)", "TEXT")
    } else if str_eq(n, "char") {
        pick(db, "CHAR(1)", "CHAR(1)", "TEXT")
    } else if str_eq(n, "text") || str_eq(n, "str") {
        "TEXT"
    } else if str_eq(n, "json") || str_eq(n, "jsonb") || str_eq(n, "serde_json::value") || str_eq(n, "value")
        || str_eq(n, "serde_json::map") || str_eq(n, "serde_json::number") || str_eq(n, "hashmap")
        || str_eq(n, "hashmap<") || str_eq(n, "hashset") || str_eq(n, "hashset<") || str_eq(n, "btreemap")
        || str_eq(n, "btreemap<") || str_eq(n, "btreeset") || str_eq(n, "btreeset<") {
        pick(db, "JSONB", "JSON", "TEXT")
    } else if str_eq(n, "chrono::naivedate") || str_eq(n, "naivedate") || str_eq(n, "date") {
        pick(db, "DATE", "DATE", "TEXT")
    } else if str_eq(n, "chrono::naivetime") || str_eq(n, "naivetime") || str_eq(n, "time") {
        pick(db, "TIME", "TIME", "TEXT")
    } else if str_eq(n, "chrono::naivedatetime") || str_eq(n, "naivedatetime") {
        pick(db, "TIMESTAMP", "DATETIME", "TEXT")
    } else if str_eq(n, "chrono::datetime") || str_eq(n, "datetime") || str_eq(
        n,
        "chrono::datetime<chrono::fixedoffset>",
    ) || str_eq(n, "chrono::datetime<chrono::utc>") || str_eq(n, "chrono::datetime<chrono::local>") {
        pick(db, "TIMESTAMPTZ", "TIMESTAMP", "TEXT")
    } else if str_eq(n, "chrono::duration") || str_eq(n, "duration") {
        pick(db, "INTERVAL", "BIGINT", "INTEGER")
    } else if str_eq(n, "uuid") || str_eq(n, "uuid::uuid") {
        pick(db, "UUID", "CHAR(36)", "TEXT")
    } else if str_eq(n, "vec<u8>") || str_eq(n, "bytes") || str_eq(n, "bytearray") || str_eq(n, "&[u8]") {
        pick(db, "BYTEA", "BLOB", "BLOB")
    } else if starts_with_chars(&chars_of(n), &chars_of("vec<")) || starts_with_chars(
        &chars_of(n),
        &chars_of("array<"),
    ) {
        pick(db, "text[]", "JSON", "TEXT")
    } else if str_eq(n, "std::net::ipaddr") || str_eq(n, "ipaddr") || str_eq(n, "std::net::ipv4addr")
        || str_eq(n, "ipv4addr") || str_eq(n, "std::net::ipv6addr") || str_eq(n, "ipv6addr") || str_eq(
        n,
        "std::net::socketaddr",
    ) || str_eq(n, "socketaddr") {
        pick(db, "INET", "VARCHAR(45)", "TEXT")
    } else if str_eq(n, "decimal") || str_eq(n, "rust_decimal::decimal") {
        pick(db, "DECIMAL(10,2)", "DECIMAL(10,2)", "TEXT")
    } else if str_eq(n, "bigdecimal") || str_eq(n, "bigdecimal::bigdecimal") {
        pick(db, "DECIMAL(20,6)", "DECIMAL(20,6)", "TEXT")
    } else if is_enum_stem_exec(n) {
        pick(db, "VARCHAR(50)", "VARCHAR(50)", "TEXT")
    } else {
        "TEXT"
    }
}

/// The column type for a Rust type name, given the lower-cased stem of the
/// name. For the stem of `Option` it is the column type of the type between
/// the first `<` and the last `>`, and none when these are missing or out of
/// order.
pub fn sql_type_for_normalized(rust_type: &str, normalized: &str, db: DatabaseType, auto: bool) -> (r: Option<
    &'static str,
>)
    ensures
        is_option_stem(normalized@) ==> opt_str_view(r) == (match inner_type(rust_type@) {
            Some(inner) => sql_type_of(inner, db, auto),
            None => None,
        }),
        !is_option_stem(normalized@) ==> opt_str_view(r) == Some(stem_sql_type(normalized@, db, auto)),
    decreases rust_type@.len(), 0nat,
{
    if str_eq(normalized, "option") || str_eq(normalized, "option<") {
        let cs = chars_of(rust_type);
        let gt = vec!['>'];
        assert(gt@ =~= seq!['>']);
        proof {
            lemma_find_bounds(cs@, seq!['<']);
            lemma_rfind_bounds(cs@, seq!['>']);
        }
        match find_char(&cs, '<') {
            Some(a) => match rfind_chars(&cs, &gt) {
                Some(b) => {
                    if a < b {
                        let inner = slice_chars(&cs, a + 1, b);
                        let s = string_of(&inner);
                        sql_type_checked(s.as_str(), db, auto)
                    } else {
                        None
                    }
                },
                None => None,
            },
            None => None,
        }
    } else {
        Some(sql_type_for_stem(normalized, db, auto))
    }
}

/// The column type for a Rust type name, or none for an `Option` type whose
/// name holds no well-placed `<` and `>`.
pub fn sql_type_checked(rust_type: &str, db: DatabaseType, auto_increment: bool) -> (r: Option<&'static str>)
    ensures
        opt_str_view(r) == sql_type_of(rust_type@, db, auto_increment),
    decreases rust_type@.len(), 1nat,
{
    let cs = chars_of(rust_type);
    let t = trim_chars(&cs);
    proof {
        lemma_find_bounds(t@, seq!['<']);
    }
    let stem = match find_char(&t, '<') {
        Some(i) => slice_chars(&t, 0, i),
        None => t,
    };
    assert(stem@ == type_stem(rust_type@));
    let stem_text = string_of(&stem);
    let normalized = to_lowercase(stem_text.as_str());
    sql_type_for_normalized(rust_type, normalized.as_str(), db, auto_increment)
}

/// The column type for a Rust type name. The name is trimmed, cut at its
/// first `<` and lower-cased before it is looked up; an `Option` stands for
/// the type between its first `<` and its last `>`.
pub fn rust_to_sql_type(rust_type: &str, db: DatabaseType, auto_increment: bool) -> (r: &'static str)
    requires
        sql_type_of(rust_type@, db, auto_increment) is Some,
    ensures
        Some(r@) == sql_type_of(rust_type@, db, auto_increment),
{
    sql_type_checked(rust_type, db, auto_increment).unwrap()
}

/// The least and greatest integer that a column of SQL type `t` holds in
/// database `db`, as each database documents its integer types; none for a
/// type that is not an integer type there. (An auto-increment column takes
/// values from 1.)
pub open spec fn column_range(db: DatabaseType, t: Seq<char>) -> Option<(int, int)> {
    match db {
        DatabaseType::Postgresql => {
            if t == "SMALLINT"@ {
                Some((-32768, 32767))
            } else if t == "INTEGER"@ {
                Some((-2147483648, 2147483647))
            } else if t == "SERIAL"@ {
                Some((1, 2147483647))
            } else if t == "BIGINT"@ {
                Some((-9223372036854775808, 9223372036854775807))
            } else if t == "BIGSERIAL"@ {
                Some((1, 9223372036854775807))
            } else if t == "NUMERIC(20,0)"@ {
                Some((-99999999999999999999, 99999999999999999999))
            } else {
                None
            }
        },
        DatabaseType::Mysql => {
            if t == "TINYINT"@ {
                Some((-128, 127))
            } else if t == "TINYINT UNSIGNED"@ {
                Some((0, 255))
            } else if t == "SMALLINT"@ {
                Some((-32768, 32767))
            } else if t == "SMALLINT UNSIGNED"@ {
                Some((0, 65535))
            } else if t == "INT"@ {
                Some((-2147483648, 2147483647))
            } else if t == "INT UNSIGNED"@ {
                Some((0, 4294967295))
            } else if t == "BIGINT"@ {
                Some((-9223372036854775808, 9223372036854775807))
            } else if t == "BIGINT UNSIGNED"@ {
                Some((0, 18446744073709551615))
            } else if t == "BIGINT AUTO_INCREMENT"@ {
                Some((-9223372036854775808, 9223372036854775807))
            } else {
                None
            }
        },
        DatabaseType::Sqlite => {
            if t == "INTEGER"@ {
                Some((-9223372036854775808, 9223372036854775807))
            } else {
                None
            }
        },
    }
}

/// The least and greatest value of the Rust integer type named `n` (the
/// pointer-sized ones as on a 64-bit machine); none for another name.
pub open spec fn rust_int_range(n: Seq<char>) -> Option<(int, int)> {
    if n == "i8"@ {
        Some((-128, 127))
    } else if n == "i16"@ {
        Some((-32768, 32767))
    } else if n == "i32"@ {
        Some((-2147483648, 2147483647))
    } else if n == "i64"@ {
        Some((-9223372036854775808, 9223372036854775807))
    } else if n == "isize"@ {
        Some((-9223372036854775808, 9223372036854775807))
    } else if n == "u8"@ {
        Some((0, 255))
    } else if n == "u16"@ {
        Some((0, 65535))
    } else if n == "u32"@ {
        Some((0, 4294967295))
    } else if n == "u64"@ {
        Some((0, 18446744073709551615))
    } else if n == "usize"@ {
        Some((0, 18446744073709551615))
    } else {
        None
    }
}

/// A column made for a field of a Rust integer type holds every value of
/// that type: its greatest value is at least the type's, and, unless it is
/// an auto-increment key, its least value at most the type's. This holds of
/// every database but for `u64` and `usize` in SQLite, whose integers are
/// signed 64-bit, and `usize` in PostgreSQL, whose `BIGINT` is too.
pub proof fn law_integer_columns_fit(n: Seq<char>, db: DatabaseType, auto: bool)
    requires
        rust_int_range(n) is Some,
        !(db is Sqlite && (n == "u64"@ || n == "usize"@)),
        !(db is Postgresql && n == "usize"@),
    ensures
        column_range(db, stem_sql_type(n, db, auto)) is Some,
        column_range(db, stem_sql_type(n, db, auto)).unwrap().1 >= rust_int_range(n).unwrap().1,
        auto || column_range(db, stem_sql_type(n, db, auto)).unwrap().0 <= rust_int_range(n).unwrap().0,
{
    if n == "i8"@ {
        reveal_strlit("bool");
        reveal_strlit("i8");
        assert("i8"@ != "bool"@) by {
            assert("i8"@.len() != "bool"@.len());
        }
    } else if n == "i16"@ {
        reveal_strlit("SMALLINT");
        reveal_strlit("TINYINT");
        reveal_strlit("TINYINT UNSIGNED");
        reveal_strlit("bool");
        reveal_strlit("byte");
        reveal_strlit("i16");
        reveal_strlit("i8");
        assert("SMALLINT"@ != "TINYINT"@) by {
            assert("SMALLINT"@.len() != "TINYINT"@.len());
        }
        assert("SMALLINT"@ != "TINYINT UNSIGNED"@) by {
            assert("SMALLINT"@.len() != "TINYINT UNSIGNED"@.len());
        }
        assert("i16"@ != "bool"@) by {
            assert("i16"@.len() != "bool"@.len());
        }
        assert("i16"@ != "byte"@) by {
            assert("i16"@.len() != "byte"@.len());
        }
        assert("i16"@ != "i8"@) by {
            assert("i16"@.len() != "i8"@.len());
        }
    } else if n == "i32"@ {
        reveal_strlit("BIGINT");
        reveal_strlit("INT");
        reveal_strlit("INT UNSIGNED");
        reveal_strlit("INTEGER");
        reveal_strlit("SERIAL");
        reveal_strlit("SMALLINT");
        reveal_strlit("SMALLINT UNSIGNED");
        reveal_strlit("TINYINT");
        reveal_strlit("TINYINT UNSIGNED");
        reveal_strlit("bool");
        reveal_strlit("byte");
        reveal_strlit("i16");
        reveal_strlit("i32");
        reveal_strlit("i8");
        assert("BIGINT"@ != "INT"@) by {
            assert("BIGINT"@.len() != "INT"@.len());
        }
        assert("BIGINT"@ != "INT UNSIGNED"@) by {
            assert("BIGINT"@.len() != "INT UNSIGNED"@.len());
        }
        assert("BIGINT"@ != "SMALLINT"@) by {
            assert("BIGINT"@.len() != "SMALLINT"@.len());
        }
        assert("BIGINT"@ != "SMALLINT UNSIGNED"@) by {
            assert("BIGINT"@.len() != "SMALLINT UNSIGNED"@.len());
        }
        assert("BIGINT"@ != "TINYINT"@) by {
            assert("BIGINT"@.len() != "TINYINT"@.len());
        }
        assert("BIGINT"@ != "TINYINT UNSIGNED"@) by {
            assert("BIGINT"@.len() != "TINYINT UNSIGNED"@.len());
        }
        assert("INT"@ != "SMALLINT"@) by {
            assert("INT"@.len() != "SMALLINT"@.len());
        }
        assert("INT"@ != "SMALLINT UNSIGNED"@) by {
            assert("INT"@.len() != "SMALLINT UNSIGNED"@.len());
        }
        assert("INT"@ != "TINYINT"@) by {
            assert("INT"@.len() != "TINYINT"@.len());
        }
        assert("INT"@ != "TINYINT UNSIGNED"@) by {
            assert("INT"@.len() != "TINYINT UNSIGNED"@.len());
        }
        assert("INTEGER"@ != "SMALLINT"@) by {
            assert("INTEGER"@.len() != "SMALLINT"@.len());
        }
        assert("SERIAL"@ != "INTEGER"@) by {
            assert("SERIAL"@.len() != "INTEGER"@.len());
        }
        assert("SERIAL"@ != "SMALLINT"@) by {
            assert("SERIAL"@.len() != "SMALLINT"@.len());
        }
        assert("i32"@ != "bool"@) by {
            assert("i32"@.len() != "bool"@.len());
        }
        assert("i32"@ != "byte"@) by {
            assert("i32"@.len() != "byte"@.len());
        }
        assert("i32"@ != "i16"@) by {
            assert("i32"@[1] != "i16"@[1]);
        }
        assert("i32"@ != "i8"@) by {
            assert("i32"@.len() != "i8"@.len());
        }
    } else if n == "i64"@ {
        reveal_strlit("BIGINT");
        reveal_strlit("BIGSERIAL");
        reveal_strlit("INT");
        reveal_strlit("INT UNSIGNED");
        reveal_strlit("INTEGER");
        reveal_strlit("SERIAL");
        reveal_strlit("SMALLINT");
        reveal_strlit("SMALLINT UNSIGNED");
        reveal_strlit("TINYINT");
        reveal_strlit("TINYINT UNSIGNED");
        reveal_strlit("bool");
        reveal_strlit("byte");
        reveal_strlit("i16");
        reveal_strlit("i32");
        reveal_strlit("i64");
        reveal_strlit("i8");
        assert("BIGINT"@ != "INT"@) by {
            assert("BIGINT"@.len() != "INT"@.len());
        }
        assert("BIGINT"@ != "INT UNSIGNED"@) by {
            assert("BIGINT"@.len() != "INT UNSIGNED"@.len());
        }
        assert("BIGINT"@ != "INTEGER"@) by {
            assert("BIGINT"@.len() != "INTEGER"@.len());
        }
        assert("BIGINT"@ != "SERIAL"@) by {
            assert("BIGINT"@[0] != "SERIAL"@[0]);
        }
        assert("BIGINT"@ != "SMALLINT"@) by {
            assert("BIGINT"@.len() != "SMALLINT"@.len());
        }
        assert("BIGINT"@ != "SMALLINT UNSIGNED"@) by {
            assert("BIGINT"@.len() != "SMALLINT UNSIGNED"@.len());
        }
        assert("BIGINT"@ != "TINYINT"@) by {
            assert("BIGINT"@.len() != "TINYINT"@.len());
        }
        assert("BIGINT"@ != "TINYINT UNSIGNED"@) by {
            assert("BIGINT"@.len() != "TINYINT UNSIGNED"@.len());
        }
        assert("BIGSERIAL"@ != "BIGINT"@) by {
            assert("BIGSERIAL"@.len() != "BIGINT"@.len());
        }
        assert("BIGSERIAL"@ != "INTEGER"@) by {
            assert("BIGSERIAL"@.len() != "INTEGER"@.len());
        }
        assert("BIGSERIAL"@ != "SERIAL"@) by {
            assert("BIGSERIAL"@.len() != "SERIAL"@.len());
        }
        assert("BIGSERIAL"@ != "SMALLINT"@) by {
            assert("BIGSERIAL"@.len() != "SMALLINT"@.len());
        }
        assert("i64"@ != "bool"@) by {
            assert("i64"@.len() != "bool"@.len());
        }
        assert("i64"@ != "byte"@) by {
            assert("i64"@.len() != "byte"@.len());
        }
        assert("i64"@ != "i16"@) by {
            assert("i64"@[1] != "i16"@[1]);
        }
        assert("i64"@ != "i32"@) by {
            assert("i64"@[1] != "i32"@[1]);
        }
        assert("i64"@ != "i8"@) by {
            assert("i64"@.len() != "i8"@.len());
        }
    } else if n == "isize"@ {
        reveal_strlit("BIGINT");
        reveal_strlit("INT");
        reveal_strlit("INT UNSIGNED");
        reveal_strlit("INTEGER");
        reveal_strlit("SERIAL");
        reveal_strlit("SMALLINT");
        reveal_strlit("SMALLINT UNSIGNED");
        reveal_strlit("TINYINT");
        reveal_strlit("TINYINT UNSIGNED");
        reveal_strlit("bool");
        reveal_strlit("byte");
        reveal_strlit("grorm::id");
        reveal_strlit("i128");
        reveal_strlit("i16");
        reveal_strlit("i32");
        reveal_strlit("i64");
        reveal_strlit("i8");
        reveal_strlit("id");
        reveal_strlit("isize");
        assert("BIGINT"@ != "INT"@) by {
            assert("BIGINT"@.len() != "INT"@.len());
        }
        assert("BIGINT"@ != "INT UNSIGNED"@) by {
            assert("BIGINT"@.len() != "INT UNSIGNED"@.len());
        }
        assert("BIGINT"@ != "INTEGER"@) by {
            assert("BIGINT"@.len() != "INTEGER"@.len());
        }
        assert("BIGINT"@ != "SERIAL"@) by {
            assert("BIGINT"@[0] != "SERIAL"@[0]);
        }
        assert("BIGINT"@ != "SMALLINT"@) by {
            assert("BIGINT"@.len() != "SMALLINT"@.len());
        }
        assert("BIGINT"@ != "SMALLINT UNSIGNED"@) by {
            assert("BIGINT"@.len() != "SMALLINT UNSIGNED"@.len());
        }
        assert("BIGINT"@ != "TINYINT"@) by {
            assert("BIGINT"@.len() != "TINYINT"@.len());
        }
        assert("BIGINT"@ != "TINYINT UNSIGNED"@) by {
            assert("BIGINT"@.len() != "TINYINT UNSIGNED"@.len());
        }
        assert("isize"@ != "bool"@) by {
            assert("isize"@.len() != "bool"@.len());
        }
        assert("isize"@ != "byte"@) by {
            assert("isize"@.len() != "byte"@.len());
        }
        assert("isize"@ != "grorm::id"@) by {
            assert("isize"@.len() != "grorm::id"@.len());
        }
        assert("isize"@ != "i128"@) by {
            assert("isize"@.len() != "i128"@.len());
        }
        assert("isize"@ != "i16"@) by {
            assert("isize"@.len() != "i16"@.len());
        }
        assert("isize"@ != "i32"@) by {
            assert("isize"@.len() != "i32"@.len());
        }
        assert("isize"@ != "i64"@) by {
            assert("isize"@.len() != "i64"@.len());
        }
        assert("isize"@ != "i8"@) by {
            assert("isize"@.len() != "i8"@.len());
        }
        assert("isize"@ != "id"@) by {
            assert("isize"@.len() != "id"@.len());
        }
    } else if n == "u8"@ {
        reveal_strlit("TINYINT");
        reveal_strlit("TINYINT UNSIGNED");
        reveal_strlit("bool");
        reveal_strlit("byte");
        reveal_strlit("grorm::id");
        reveal_strlit("i128");
        reveal_strlit("i16");
        reveal_strlit("i32");
        reveal_strlit("i64");
        reveal_strlit("i8");
        reveal_strlit("id");
        reveal_strlit("isize");
        reveal_strlit("u8");
        assert("TINYINT UNSIGNED"@ != "TINYINT"@) by {
            assert("TINYINT UNSIGNED"@.len() != "TINYINT"@.len());
        }
        assert("u8"@ != "bool"@) by {
            assert("u8"@.len() != "bool"@.len());
        }
        assert("u8"@ != "byte"@) by {
            assert("u8"@.len() != "byte"@.len());
        }
        assert("u8"@ != "grorm::id"@) by {
            assert("u8"@.len() != "grorm::id"@.len());
        }
        assert("u8"@ != "i128"@) by {
            assert("u8"@.len() != "i128"@.len());
        }
        assert("u8"@ != "i16"@) by {
            assert("u8"@.len() != "i16"@.len());
        }
        assert("u8"@ != "i32"@) by {
            assert("u8"@.len() != "i32"@.len());
        }
        assert("u8"@ != "i64"@) by {
            assert("u8"@.len() != "i64"@.len());
        }
        assert("u8"@ != "i8"@) by {
            assert("u8"@[0] != "i8"@[0]);
        }
        assert("u8"@ != "id"@) by {
            assert("u8"@[0] != "id"@[0]);
        }
        assert("u8"@ != "isize"@) by {
            assert("u8"@.len() != "isize"@.len());
        }
    } else if n == "u16"@ {
        reveal_strlit("INTEGER");
        reveal_strlit("SMALLINT");
        reveal_strlit("SMALLINT UNSIGNED");
        reveal_strlit("TINYINT");
        reveal_strlit("TINYINT UNSIGNED");
        reveal_strlit("bool");
        reveal_strlit("byte");
        reveal_strlit("grorm::id");
        reveal_strlit("i128");
        reveal_strlit("i16");
        reveal_strlit("i32");
        reveal_strlit("i64");
        reveal_strlit("i8");
        reveal_strlit("id");
        reveal_strlit("isize");
        reveal_strlit("u16");
        reveal_strlit("u8");
        assert("INTEGER"@ != "SMALLINT"@) by {
            assert("INTEGER"@.len() != "SMALLINT"@.len());
        }
        assert("SMALLINT UNSIGNED"@ != "SMALLINT"@) by {
            assert("SMALLINT UNSIGNED"@.len() != "SMALLINT"@.len());
        }
        assert("SMALLINT UNSIGNED"@ != "TINYINT"@) by {
            assert("SMALLINT UNSIGNED"@.len() != "TINYINT"@.len());
        }
        assert("SMALLINT UNSIGNED"@ != "TINYINT UNSIGNED"@) by {
            assert("SMALLINT UNSIGNED"@.len() != "TINYINT UNSIGNED"@.len());
        }
        assert("u16"@ != "bool"@) by {
            assert("u16"@.len() != "bool"@.len());
        }
        assert("u16"@ != "byte"@) by {
            assert("u16"@.len() != "byte"@.len());
        }
        assert("u16"@ != "grorm::id"@) by {
            assert("u16"@.len() != "grorm::id"@.len());
        }
        assert("u16"@ != "i128"@) by {
            assert("u16"@.len() != "i128"@.len());
        }
        assert("u16"@ != "i16"@) by {
            assert("u16"@[0] != "i16"@[0]);
        }
        assert("u16"@ != "i32"@) by {
            assert("u16"@[0] != "i32"@[0]);
        }
        assert("u16"@ != "i64"@) by {
            assert("u16"@[0] != "i64"@[0]);
        }
        assert("u16"@ != "i8"@) by {
            assert("u16"@.len() != "i8"@.len());
        }
        assert("u16"@ != "id"@) by {
            assert("u16"@.len() != "id"@.len());
        }
        assert("u16"@ != "isize"@) by {
            assert("u16"@.len() != "isize"@.len());
        }
        assert("u16"@ != "u8"@) by {
            assert("u16"@.len() != "u8"@.len());
        }
    } else if n == "u32"@ {
        reveal_strlit("BIGINT");
        reveal_strlit("INT");
        reveal_strlit("INT UNSIGNED");
        reveal_strlit("INTEGER");
        reveal_strlit("SERIAL");
        reveal_strlit("SMALLINT");
        reveal_strlit("SMALLINT UNSIGNED");
        reveal_strlit("TINYINT");
        reveal_strlit("TINYINT UNSIGNED");
        reveal_strlit("bool");
        reveal_strlit("byte");
        reveal_strlit("grorm::id");
        reveal_strlit("i128");
        reveal_strlit("i16");
        reveal_strlit("i32");
        reveal_strlit("i64");
        reveal_strlit("i8");
        reveal_strlit("id");
        reveal_strlit("isize");
        reveal_strlit("u16");
        reveal_strlit("u32");
        reveal_strlit("u8");
        assert("BIGINT"@ != "INTEGER"@) by {
            assert("BIGINT"@.len() != "INTEGER"@.len());
        }
        assert("BIGINT"@ != "SERIAL"@) by {
            assert("BIGINT"@[0] != "SERIAL"@[0]);
        }
        assert("BIGINT"@ != "SMALLINT"@) by {
            assert("BIGINT"@.len() != "SMALLINT"@.len());
        }
        assert("INT UNSIGNED"@ != "INT"@) by {
            assert("INT UNSIGNED"@.len() != "INT"@.len());
        }
        assert("INT UNSIGNED"@ != "SMALLINT"@) by {
            assert("INT UNSIGNED"@.len() != "SMALLINT"@.len());
        }
        assert("INT UNSIGNED"@ != "SMALLINT UNSIGNED"@) by {
            assert("INT UNSIGNED"@.len() != "SMALLINT UNSIGNED"@.len());
        }
        assert("INT UNSIGNED"@ != "TINYINT"@) by {
            assert("INT UNSIGNED"@.len() != "TINYINT"@.len());
        }
        assert("INT UNSIGNED"@ != "TINYINT UNSIGNED"@) by {
            assert("INT UNSIGNED"@.len() != "TINYINT UNSIGNED"@.len());
        }
        assert("u32"@ != "bool"@) by {
            assert("u32"@.len() != "bool"@.len());
        }
        assert("u32"@ != "byte"@) by {
            assert("u32"@.len() != "byte"@.len());
        }
        assert("u32"@ != "grorm::id"@) by {
            assert("u32"@.len() != "grorm::id"@.len());
        }
        assert("u32"@ != "i128"@) by {
            assert("u32"@.len() != "i128"@.len());
        }
        assert("u32"@ != "i16"@) by {
            assert("u32"@[0] != "i16"@[0]);
        }
        assert("u32"@ != "i32"@) by {
            assert("u32"@[0] != "i32"@[0]);
        }
        assert("u32"@ != "i64"@) by {
            assert("u32"@[0] != "i64"@[0]);
        }
        assert("u32"@ != "i8"@) by {
            assert("u32"@.len() != "i8"@.len());
        }
        assert("u32"@ != "id"@) by {
            assert("u32"@.len() != "id"@.len());
        }
        assert("u32"@ != "isize"@) by {
            assert("u32"@.len() != "isize"@.len());
        }
        assert("u32"@ != "u16"@) by {
            assert("u32"@[1] != "u16"@[1]);
        }
        assert("u32"@ != "u8"@) by {
            assert("u32"@.len() != "u8"@.len());
        }
    } else if n == "u64"@ {
        reveal_strlit("BIGINT");
        reveal_strlit("BIGINT UNSIGNED");
        reveal_strlit("BIGSERIAL");
        reveal_strlit("INT");
        reveal_strlit("INT UNSIGNED");
        reveal_strlit("INTEGER");
        reveal_strlit("NUMERIC(20,0)");
        reveal_strlit("SERIAL");
        reveal_strlit("SMALLINT");
        reveal_strlit("SMALLINT UNSIGNED");
        reveal_strlit("TINYINT");
        reveal_strlit("TINYINT UNSIGNED");
        reveal_strlit("bool");
        reveal_strlit("byte");
        reveal_strlit("grorm::id");
        reveal_strlit("i128");
        reveal_strlit("i16");
        reveal_strlit("i32");
        reveal_strlit("i64");
        reveal_strlit("i8");
        reveal_strlit("id");
        reveal_strlit("isize");
        reveal_strlit("u16");
        reveal_strlit("u32");
        reveal_strlit("u64");
        reveal_strlit("u8");
        assert("BIGINT UNSIGNED"@ != "BIGINT"@) by {
            assert("BIGINT UNSIGNED"@.len() != "BIGINT"@.len());
        }
        assert("BIGINT UNSIGNED"@ != "INT"@) by {
            assert("BIGINT UNSIGNED"@.len() != "INT"@.len());
        }
        assert("BIGINT UNSIGNED"@ != "INT UNSIGNED"@) by {
            assert("BIGINT UNSIGNED"@.len() != "INT UNSIGNED"@.len());
        }
        assert("BIGINT UNSIGNED"@ != "SMALLINT"@) by {
            assert("BIGINT UNSIGNED"@.len() != "SMALLINT"@.len());
        }
        assert("BIGINT UNSIGNED"@ != "SMALLINT UNSIGNED"@) by {
            assert("BIGINT UNSIGNED"@.len() != "SMALLINT UNSIGNED"@.len());
        }
        assert("BIGINT UNSIGNED"@ != "TINYINT"@) by {
            assert("BIGINT UNSIGNED"@.len() != "TINYINT"@.len());
        }
        assert("BIGINT UNSIGNED"@ != "TINYINT UNSIGNED"@) by {
            assert("BIGINT UNSIGNED"@.len() != "TINYINT UNSIGNED"@.len());
        }
        assert("NUMERIC(20,0)"@ != "BIGINT"@) by {
            assert("NUMERIC(20,0)"@.len() != "BIGINT"@.len());
        }
        assert("NUMERIC(20,0)"@ != "BIGSERIAL"@) by {
            assert("NUMERIC(20,0)"@.len() != "BIGSERIAL"@.len());
        }
        assert("NUMERIC(20,0)"@ != "INTEGER"@) by {
            assert("NUMERIC(20,0)"@.len() != "INTEGER"@.len());
        }
        assert("NUMERIC(20,0)"@ != "SERIAL"@) by {
            assert("NUMERIC(20,0)"@.len() != "SERIAL"@.len());
        }
        assert("NUMERIC(20,0)"@ != "SMALLINT"@) by {
            assert("NUMERIC(20,0)"@.len() != "SMALLINT"@.len());
        }
        assert("u64"@ != "bool"@) by {
            assert("u64"@.len() != "bool"@.len());
        }
        assert("u64"@ != "byte"@) by {
            assert("u64"@.len() != "byte"@.len());
        }
        assert("u64"@ != "grorm::id"@) by {
            assert("u64"@.len() != "grorm::id"@.len());
        }
        assert("u64"@ != "i128"@) by {
            assert("u64"@.len() != "i128"@.len());
        }
        assert("u64"@ != "i16"@) by {
            assert("u64"@[0] != "i16"@[0]);
        }
        assert("u64"@ != "i32"@) by {
            assert("u64"@[0] != "i32"@[0]);
        }
        assert("u64"@ != "i64"@) by {
            assert("u64"@[0] != "i64"@[0]);
        }
        assert("u64"@ != "i8"@) by {
            assert("u64"@.len() != "i8"@.len());
        }
        assert("u64"@ != "id"@) by {
            assert("u64"@.len() != "id"@.len());
        }
        assert("u64"@ != "isize"@) by {
            assert("u64"@.len() != "isize"@.len());
        }
        assert("u64"@ != "u16"@) by {
            assert("u64"@[1] != "u16"@[1]);
        }
        assert("u64"@ != "u32"@) by {
            assert("u64"@[1] != "u32"@[1]);
        }
        assert("u64"@ != "u8"@) by {
            assert("u64"@.len() != "u8"@.len());
        }
    } else if n == "usize"@ {
        reveal_strlit("BIGINT");
        reveal_strlit("BIGINT UNSIGNED");
        reveal_strlit("INT");
        reveal_strlit("INT UNSIGNED");
        reveal_strlit("INTEGER");
        reveal_strlit("SERIAL");
        reveal_strlit("SMALLINT");
        reveal_strlit("SMALLINT UNSIGNED");
        reveal_strlit("TINYINT");
        reveal_strlit("TINYINT UNSIGNED");
        reveal_strlit("bool");
        reveal_strlit("byte");
        reveal_strlit("grorm::id");
        reveal_strlit("i128");
        reveal_strlit("i16");
        reveal_strlit("i32");
        reveal_strlit("i64");
        reveal_strlit("i8");
        reveal_strlit("id");
        reveal_strlit("isize");
        reveal_strlit("u128");
        reveal_strlit("u16");
        reveal_strlit("u32");
        reveal_strlit("u64");
        reveal_strlit("u8");
        reveal_strlit("usize");
        assert("BIGINT"@ != "INTEGER"@) by {
            assert("BIGINT"@.len() != "INTEGER"@.len());
        }
        assert("BIGINT"@ != "SERIAL"@) by {
            assert("BIGINT"@[0] != "SERIAL"@[0]);
        }
        assert("BIGINT"@ != "SMALLINT"@) by {
            assert("BIGINT"@.len() != "SMALLINT"@.len());
        }
        assert("BIGINT UNSIGNED"@ != "BIGINT"@) by {
            assert("BIGINT UNSIGNED"@.len() != "BIGINT"@.len());
        }
        assert("BIGINT UNSIGNED"@ != "INT"@) by {
            assert("BIGINT UNSIGNED"@.len() != "INT"@.len());
        }
        assert("BIGINT UNSIGNED"@ != "INT UNSIGNED"@) by {
            assert("BIGINT UNSIGNED"@.len() != "INT UNSIGNED"@.len());
        }
        assert("BIGINT UNSIGNED"@ != "SMALLINT"@) by {
            assert("BIGINT UNSIGNED"@.len() != "SMALLINT"@.len());
        }
        assert("BIGINT UNSIGNED"@ != "SMALLINT UNSIGNED"@) by {
            assert("BIGINT UNSIGNED"@.len() != "SMALLINT UNSIGNED"@.len());
        }
        assert("BIGINT UNSIGNED"@ != "TINYINT"@) by {
            assert("BIGINT UNSIGNED"@.len() != "TINYINT"@.len());
        }
        assert("BIGINT UNSIGNED"@ != "TINYINT UNSIGNED"@) by {
            assert("BIGINT UNSIGNED"@.len() != "TINYINT UNSIGNED"@.len());
        }
        assert("usize"@ != "bool"@) by {
            assert("usize"@.len() != "bool"@.len());
        }
        assert("usize"@ != "byte"@) by {
            assert("usize"@.len() != "byte"@.len());
        }
        assert("usize"@ != "grorm::id"@) by {
            assert("usize"@.len() != "grorm::id"@.len());
        }
        assert("usize"@ != "i128"@) by {
            assert("usize"@.len() != "i128"@.len());
        }
        assert("usize"@ != "i16"@) by {
            assert("usize"@.len() != "i16"@.len());
        }
        assert("usize"@ != "i32"@) by {
            assert("usize"@.len() != "i32"@.len());
        }
        assert("usize"@ != "i64"@) by {
            assert("usize"@.len() != "i64"@.len());
        }
        assert("usize"@ != "i8"@) by {
            assert("usize"@.len() != "i8"@.len());
        }
        assert("usize"@ != "id"@) by {
            assert("usize"@.len() != "id"@.len());
        }
        assert("usize"@ != "isize"@) by {
            assert("usize"@[0] != "isize"@[0]);
        }
        assert("usize"@ != "u128"@) by {
            assert("usize"@.len() != "u128"@.len());
        }
        assert("usize"@ != "u16"@) by {
            assert("usize"@.len() != "u16"@.len());
        }
        assert("usize"@ != "u32"@) by {
            assert("usize"@.len() != "u32"@.len());
        }
        assert("usize"@ != "u64"@) by {
            assert("usize"@.len() != "u64"@.len());
        }
        assert("usize"@ != "u8"@) by {
            assert("usize"@.len() != "u8"@.len());
        }
    }
}

} // verus!
