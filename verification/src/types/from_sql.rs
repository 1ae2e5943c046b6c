//! Conversion of database values into Rust values.
use vstd::prelude::*;
use super::value::{FloatValue, Value, ValueModel, model_as_i64};
use crate::text::push_str;

verus! {

/// Types that can be read from a database column.
pub trait FromSql: Sized {
    /// Whether a value converts.
    closed spec fn spec_converts(v: ValueModel) -> bool {
        arbitrary()
    }

    /// Whether `x` is what the value converts to.
    closed spec fn spec_converts_to(v: ValueModel, x: Self) -> bool {
        arbitrary()
    }

    /// The Rust value of a database value, or an error message.
    fn from_sql(value: &Value) -> (r: Result<Self, String>)
        ensures
            r is Ok <==> Self::spec_converts(value@),
            r matches Ok(x) ==> Self::spec_converts_to(value@, x);
}

/// The `Debug` text of a value, as `format!("{:?}", ..)` writes it. Nothing
/// is stated of the text that the derived `Debug` impl writes.
#[verifier::external_body]
fn debug_text(value: &Value) -> String {
    format!("{:?}", value)
}

/// Whether `m` is `"cannot convert <debug text> to <target>"` for some text.
pub open spec fn is_conversion_error(m: Seq<char>, target: Seq<char>) -> bool {
    let head = "cannot convert "@;
    let tail = " to "@ + target;
    head.len() + tail.len() <= m.len() && m.subrange(0, head.len() as int) == head
        && m.subrange(m.len() - tail.len(), m.len() as int) == tail
}

/// The message `"cannot convert {value:?} to {target}"`.
pub fn conversion_error(value: &Value, target: &str) -> (m: String)
    ensures
        is_conversion_error(m@, target@),
{
    let mut m = String::from_str("cannot convert ");
    let d = debug_text(value);
    push_str(&mut m, d.as_str());
    push_str(&mut m, " to ");
    push_str(&mut m, target);
    proof {
        let head = "cannot convert "@;
        reveal_strlit("cannot convert ");
        reveal_strlit(" to ");
        assert(m@ =~= head + d@ + " to "@ + target@);
        assert(m@.subrange(0, head.len() as int) =~= head);
        assert(m@.subrange(m@.len() - (" to "@ + target@).len(), m@.len() as int) =~= " to "@ + target@);
    }
    m
}

impl FromSql for bool {
    open spec fn spec_converts(v: ValueModel) -> bool {
        v is Bool
    }

    open spec fn spec_converts_to(v: ValueModel, x: Self) -> bool {
        v == ValueModel::Bool(x)
    }

    fn from_sql(value: &Value) -> (r: Result<bool, String>)
        ensures
            match value@ {
                ValueModel::Bool(b) => r == Ok::<bool, String>(b),
                _ => r matches Err(m) && is_conversion_error(m@, "bool"@),
            },
    {
        match value.as_bool() {
            Some(b) => Ok(b),
            None => Err(conversion_error(value, "bool")),
        }
    }
}

impl FromSql for i8 {
    open spec fn spec_converts(v: ValueModel) -> bool {
        model_as_i64(v) is Some
    }

    open spec fn spec_converts_to(v: ValueModel, x: Self) -> bool {
        model_as_i64(v) matches Some(w) && x == w as i8
    }

    /// Integers convert by truncation to eight bits.
    fn from_sql(value: &Value) -> (r: Result<i8, String>)
        ensures
            match model_as_i64(value@) {
                Some(v) => r == Ok::<i8, String>(v as i8),
                None => r matches Err(m) && is_conversion_error(m@, "i8"@),
            },
    {
        match value.as_i64() {
            Some(v) => Ok(v as i8),
            None => Err(conversion_error(value, "i8")),
        }
    }
}

impl FromSql for i16 {
    open spec fn spec_converts(v: ValueModel) -> bool {
        model_as_i64(v) is Some
    }

    open spec fn spec_converts_to(v: ValueModel, x: Self) -> bool {
        model_as_i64(v) matches Some(w) && x == w as i16
    }

    /// Integers convert by truncation to sixteen bits.
    fn from_sql(value: &Value) -> (r: Result<i16, String>)
        ensures
            match model_as_i64(value@) {
                Some(v) => r == Ok::<i16, String>(v as i16),
                None => r matches Err(m) && is_conversion_error(m@, "i16"@),
            },
    {
        match value.as_i64() {
            Some(v) => Ok(v as i16),
            None => Err(conversion_error(value, "i16")),
        }
    }
}

impl FromSql for i32 {
    open spec fn spec_converts(v: ValueModel) -> bool {
        model_as_i64(v) is Some
    }

    open spec fn spec_converts_to(v: ValueModel, x: Self) -> bool {
        model_as_i64(v) matches Some(w) && x == w as i32
    }

    /// Integers convert by truncation to thirty-two bits.
    fn from_sql(value: &Value) -> (r: Result<i32, String>)
        ensures
            match model_as_i64(value@) {
                Some(v) => r == Ok::<i32, String>(v as i32),
                None => r matches Err(m) && is_conversion_error(m@, "i32"@),
            },
    {
        match value.as_i64() {
            Some(v) => Ok(v as i32),
            None => Err(conversion_error(value, "i32")),
        }
    }
}

impl FromSql for i64 {
    open spec fn spec_converts(v: ValueModel) -> bool {
        model_as_i64(v) is Some
    }

    open spec fn spec_converts_to(v: ValueModel, x: Self) -> bool {
        model_as_i64(v) == Some(x)
    }

    fn from_sql(value: &Value) -> (r: Result<i64, String>)
        ensures
            match model_as_i64(value@) {
                Some(v) => r == Ok::<i64, String>(v),
                None => r matches Err(m) && is_conversion_error(m@, "i64"@),
            },
    {
        match value.as_i64() {
            Some(v) => Ok(v),
            None => Err(conversion_error(value, "i64")),
        }
    }
}

impl FromSql for FloatValue {
    open spec fn spec_converts(v: ValueModel) -> bool {
        v is F32 || v is F64
    }

    open spec fn spec_converts_to(v: ValueModel, x: Self) -> bool {
        v == ValueModel::F32(x.bits, x.text@) || v == ValueModel::F64(x.bits, x.text@)
    }

    /// `F32` and `F64` convert to their float.
    fn from_sql(value: &Value) -> (r: Result<FloatValue, String>)
        ensures
            match value@ {
                ValueModel::F32(bits, t) => r matches Ok(f) && f.bits == bits && f.text@ == t,
                ValueModel::F64(bits, t) => r matches Ok(f) && f.bits == bits && f.text@ == t,
                _ => r matches Err(m) && is_conversion_error(m@, "f64"@),
            },
    {
        match value.as_float() {
            Some(f) => Ok(f),
            None => Err(conversion_error(value, "f64")),
        }
    }
}

impl FromSql for String {
    open spec fn spec_converts(v: ValueModel) -> bool {
        v is String
    }

    open spec fn spec_converts_to(v: ValueModel, x: Self) -> bool {
        v == ValueModel::String(x@)
    }

    fn from_sql(value: &Value) -> (r: Result<String, String>)
        ensures
            match value@ {
                ValueModel::String(s) => r matches Ok(t) && t@ == s,
                _ => r matches Err(m) && is_conversion_error(m@, "String"@),
            },
    {
        match value.as_string() {
            Some(s) => Ok(s),
            None => Err(conversion_error(value, "String")),
        }
    }
}

impl FromSql for Vec<u8> {
    open spec fn spec_converts(v: ValueModel) -> bool {
        v is Bytes
    }

    open spec fn spec_converts_to(v: ValueModel, x: Self) -> bool {
        v == ValueModel::Bytes(x@)
    }

    fn from_sql(value: &Value) -> (r: Result<Vec<u8>, String>)
        ensures
            match value@ {
                ValueModel::Bytes(b) => r matches Ok(t) && t@ == b,
                _ => r matches Err(m) && is_conversion_error(m@, "Vec<u8>"@),
            },
    {
        match value.as_bytes() {
            Some(b) => Ok(b),
            None => Err(conversion_error(value, "Vec<u8>")),
        }
    }
}

impl<T: FromSql> FromSql for Option<T> {
    open spec fn spec_converts(v: ValueModel) -> bool {
        v is Null || T::spec_converts(v)
    }

    open spec fn spec_converts_to(v: ValueModel, x: Self) -> bool {
        match x {
            Some(y) => !(v is Null) && T::spec_converts_to(v, y),
            None => v is Null,
        }
    }

    /// `Null` converts to `None`; any other value converts as `T` does.
    fn from_sql(value: &Value) -> (r: Result<Option<T>, String>)
        ensures
            value@ is Null ==> (r matches Ok(o) && o is None),
    {
        if value.is_null() {
            Ok(None)
        } else {
            match T::from_sql(value) {
                Ok(v) => Ok(Some(v)),
                Err(e) => Err(e),
            }
        }
    }
}

} // verus!
