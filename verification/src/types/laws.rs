//! Converting a Rust value to a database value and back gives the value.
//!
//! `to_sql` on an integer gives the value of its own width; `from_sql`
//! reads any integer value that fits an `i64` and truncates it to the target
//! width. For the other types the value carries the Rust value itself.
use vstd::prelude::*;
use super::from_sql::FromSql;
use super::id::Id;
use super::to_sql::ToSql;
use super::value::FloatValue;

verus! {

/// A `bool` read back from the value it converts to is the same `bool`.
pub proof fn lemma_bool_round_trip(x: bool)
    ensures
        <bool as FromSql>::spec_converts(x.spec_to_sql()),
        <bool as FromSql>::spec_converts_to(x.spec_to_sql(), x),
{
}

/// An `i8` read back from the value it converts to is the same `i8`.
pub proof fn lemma_i8_round_trip(x: i8)
    ensures
        <i8 as FromSql>::spec_converts(x.spec_to_sql()),
        <i8 as FromSql>::spec_converts_to(x.spec_to_sql(), x),
{
}

/// An `i16` read back from the value it converts to is the same `i16`.
pub proof fn lemma_i16_round_trip(x: i16)
    ensures
        <i16 as FromSql>::spec_converts(x.spec_to_sql()),
        <i16 as FromSql>::spec_converts_to(x.spec_to_sql(), x),
{
}

/// An `i32` read back from the value it converts to is the same `i32`.
pub proof fn lemma_i32_round_trip(x: i32)
    ensures
        <i32 as FromSql>::spec_converts(x.spec_to_sql()),
        <i32 as FromSql>::spec_converts_to(x.spec_to_sql(), x),
{
}

/// An `i64` read back from the value it converts to is the same `i64`.
pub proof fn lemma_i64_round_trip(x: i64)
    ensures
        <i64 as FromSql>::spec_converts(x.spec_to_sql()),
        <i64 as FromSql>::spec_converts_to(x.spec_to_sql(), x),
{
}

/// An id read back from the value it converts to is the same id.
pub proof fn lemma_id_round_trip(x: Id)
    ensures
        <Id as FromSql>::spec_converts(x.spec_to_sql()),
        <Id as FromSql>::spec_converts_to(x.spec_to_sql(), x),
{
}

/// A string read back from the value it converts to has the same text.
pub proof fn lemma_string_round_trip(x: String)
    ensures
        <String as FromSql>::spec_converts(x.spec_to_sql()),
        <String as FromSql>::spec_converts_to(x.spec_to_sql(), x),
{
}

/// Bytes read back from the value they convert to are the same bytes.
pub proof fn lemma_bytes_round_trip(x: Vec<u8>)
    ensures
        <Vec<u8> as FromSql>::spec_converts(x.spec_to_sql()),
        <Vec<u8> as FromSql>::spec_converts_to(x.spec_to_sql(), x),
{
}

/// A float read back from the value it converts to has the same bits and
/// text.
pub proof fn lemma_float_round_trip(x: FloatValue)
    ensures
        <FloatValue as FromSql>::spec_converts(x.spec_to_sql()),
        <FloatValue as FromSql>::spec_converts_to(x.spec_to_sql(), x),
{
}

/// An optional value round-trips when its inner value does and does not
/// convert to `NULL`; `None` always does.
pub proof fn lemma_option_round_trip<T: ToSql + FromSql>(x: Option<T>)
    requires
        x matches Some(y) ==> T::spec_converts(y.spec_to_sql()) && T::spec_converts_to(y.spec_to_sql(), y)
            && !(y.spec_to_sql() is Null),
    ensures
        <Option<T> as FromSql>::spec_converts(x.spec_to_sql()),
        <Option<T> as FromSql>::spec_converts_to(x.spec_to_sql(), x),
{
}

} // verus!
