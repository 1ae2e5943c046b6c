//! Conversion of Rust values into database values.
use vstd::prelude::*;
use super::value::{FloatValue, Value, ValueModel};
use crate::text::copy_str;
use super::value::copy_bytes;

verus! {

/// Types that can be written to a database column.
pub trait ToSql {
    /// The value `self` converts to.
    closed spec fn spec_to_sql(&self) -> ValueModel {
        arbitrary()
    }

    /// The database value of `self`.
    fn to_sql(&self) -> (r: Value)
        ensures
            r@ == self.spec_to_sql();
}

impl ToSql for bool {
    open spec fn spec_to_sql(&self) -> ValueModel {
        ValueModel::Bool(*self)
    }

    fn to_sql(&self) -> (r: Value)
        ensures
            r@ == ValueModel::Bool(*self),
    {
        Value::Bool(*self)
    }
}

impl ToSql for i8 {
    open spec fn spec_to_sql(&self) -> ValueModel {
        ValueModel::I8(*self)
    }

    fn to_sql(&self) -> (r: Value)
        ensures
            r@ == ValueModel::I8(*self),
    {
        Value::I8(*self)
    }
}

impl ToSql for i16 {
    open spec fn spec_to_sql(&self) -> ValueModel {
        ValueModel::I16(*self)
    }

    fn to_sql(&self) -> (r: Value)
        ensures
            r@ == ValueModel::I16(*self),
    {
        Value::I16(*self)
    }
}

impl ToSql for i32 {
    open spec fn spec_to_sql(&self) -> ValueModel {
        ValueModel::I32(*self)
    }

    fn to_sql(&self) -> (r: Value)
        ensures
            r@ == ValueModel::I32(*self),
    {
        Value::I32(*self)
    }
}

impl ToSql for i64 {
    open spec fn spec_to_sql(&self) -> ValueModel {
        ValueModel::I64(*self)
    }

    fn to_sql(&self) -> (r: Value)
        ensures
            r@ == ValueModel::I64(*self),
    {
        Value::I64(*self)
    }
}

impl ToSql for FloatValue {
    open spec fn spec_to_sql(&self) -> ValueModel {
        ValueModel::F64(self.bits, self.text@)
    }

    /// A float converts to a double-precision value.
    fn to_sql(&self) -> (r: Value)
        ensures
            r@ == ValueModel::F64(self.bits, self.text@),
    {
        Value::F64(self.copy())
    }
}

impl ToSql for String {
    open spec fn spec_to_sql(&self) -> ValueModel {
        ValueModel::String(self@)
    }

    fn to_sql(&self) -> (r: Value)
        ensures
            r@ == ValueModel::String(self@),
    {
        Value::String(self.clone())
    }
}

impl<'a> ToSql for &'a str {
    open spec fn spec_to_sql(&self) -> ValueModel {
        ValueModel::String((*self)@)
    }

    fn to_sql(&self) -> (r: Value)
        ensures
            r@ == ValueModel::String((*self)@),
    {
        Value::String(copy_str(*self))
    }
}

impl ToSql for Vec<u8> {
    open spec fn spec_to_sql(&self) -> ValueModel {
        ValueModel::Bytes(self@)
    }

    fn to_sql(&self) -> (r: Value)
        ensures
            r@ == ValueModel::Bytes(self@),
    {
        Value::Bytes(copy_bytes(self))
    }
}

impl<T: ToSql> ToSql for Option<T> {
    open spec fn spec_to_sql(&self) -> ValueModel {
        match self {
            Some(v) => v.spec_to_sql(),
            None => ValueModel::Null,
        }
    }

    /// `None` converts to `Null`; `Some(v)` converts as `v` does.
    fn to_sql(&self) -> (r: Value)
        ensures
            self is None ==> r@ == ValueModel::Null,
    {
        match self {
            Some(v) => v.to_sql(),
            None => Value::Null,
        }
    }
}

} // verus!
