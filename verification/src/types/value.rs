//! Database values.
use vstd::prelude::*;
use crate::text::{push_str, push_int, push_decimal, spec_int_text, spec_decimal};
use crate::hexenc::{push_hex, spec_hex};

verus! {

/// A floating-point value: its IEEE-754 bit pattern (of an `f32` in the low 32
/// bits, or of an `f64`) and the decimal text that its `Display` gives.
#[derive(Debug, Clone, PartialEq)]
pub struct FloatValue {
    pub bits: u64,
    pub text: String,
}

/// The mathematical model of a [`Value`]: strings and byte vectors are
/// sequences.
pub enum ValueModel {
    Null,
    Bool(bool),
    I8(i8),
    I16(i16),
    I32(i32),
    I64(i64),
    U8(u8),
    U16(u16),
    U32(u32),
    U64(u64),
    F32(u64, Seq<char>),
    F64(u64, Seq<char>),
    String(Seq<char>),
    Bytes(Seq<u8>),
}

/// A value read from or written to a database column.
#[derive(Debug, Clone, PartialEq)]
pub enum Value {
    Null,
    Bool(bool),
    I8(i8),
    I16(i16),
    I32(i32),
    I64(i64),
    U8(u8),
    U16(u16),
    U32(u32),
    U64(u64),
    F32(FloatValue),
    F64(FloatValue),
    String(String),
    Bytes(Vec<u8>),
}

impl View for Value {
    type V = ValueModel;

    open spec fn view(&self) -> ValueModel {
        match self {
            Value::Null => ValueModel::Null,
            Value::Bool(b) => ValueModel::Bool(*b),
            Value::I8(v) => ValueModel::I8(*v),
            Value::I16(v) => ValueModel::I16(*v),
            Value::I32(v) => ValueModel::I32(*v),
            Value::I64(v) => ValueModel::I64(*v),
            Value::U8(v) => ValueModel::U8(*v),
            Value::U16(v) => ValueModel::U16(*v),
            Value::U32(v) => ValueModel::U32(*v),
            Value::U64(v) => ValueModel::U64(*v),
            Value::F32(f) => ValueModel::F32(f.bits, f.text@),
            Value::F64(f) => ValueModel::F64(f.bits, f.text@),
            Value::String(s) => ValueModel::String(s@),
            Value::Bytes(b) => ValueModel::Bytes(b@),
        }
    }
}

/// The integer a model denotes, for the integer variants.
pub open spec fn model_int(v: ValueModel) -> Option<int> {
    match v {
        ValueModel::I8(x) => Some(x as int),
        ValueModel::I16(x) => Some(x as int),
        ValueModel::I32(x) => Some(x as int),
        ValueModel::I64(x) => Some(x as int),
        ValueModel::U8(x) => Some(x as int),
        ValueModel::U16(x) => Some(x as int),
        ValueModel::U32(x) => Some(x as int),
        ValueModel::U64(x) => Some(x as int),
        _ => None,
    }
}

/// What `as_i64` gives: the integer, when the value is an integer that fits.
pub open spec fn model_as_i64(v: ValueModel) -> Option<i64> {
    match model_int(v) {
        Some(x) => if i64::MIN <= x <= i64::MAX { Some(x as i64) } else { None },
        None => None,
    }
}

/// SQL literal text of a value (its `Display`): `NULL`, `true`/`false`,
/// decimal integers, the float's text, `'text'` for strings, and
/// `'\x<hex>'` for bytes.
pub open spec fn model_sql_text(v: ValueModel) -> Seq<char> {
    match v {
        ValueModel::Null => "NULL"@,
        ValueModel::Bool(b) => if b { "true"@ } else { "false"@ },
        ValueModel::F32(_, t) => t,
        ValueModel::F64(_, t) => t,
        ValueModel::String(s) => seq!['\''] + s + seq!['\''],
        ValueModel::Bytes(b) => seq!['\'', '\\', 'x'] + spec_hex(b) + seq!['\''],
        _ => spec_int_text(model_int(v).unwrap()),
    }
}

/// Whether a value is its type's zero: null, `false`, zero, a float equal to
/// zero (either sign), or an empty string or byte vector.
pub open spec fn model_is_default(v: ValueModel) -> bool {
    match v {
        ValueModel::Null => true,
        ValueModel::Bool(b) => !b,
        ValueModel::F32(bits, _) => bits % 0x8000_0000 == 0,
        ValueModel::F64(bits, _) => bits % 0x8000_0000_0000_0000 == 0,
        ValueModel::String(s) => s.len() == 0,
        ValueModel::Bytes(b) => b.len() == 0,
        _ => model_int(v) == Some(0int),
    }
}

/// A copy of a byte vector.
pub fn copy_bytes(b: &Vec<u8>) -> (r: Vec<u8>)
    ensures
        r@ == b@,
{
    let mut r: Vec<u8> = Vec::new();
    let mut i: usize = 0;
    while i < b.len()
        invariant
            i <= b.len(),
            r@ == b@.subrange(0, i as int),
        decreases b.len() - i,
    {
        r.push(b[i]);
        i += 1;
        assert(r@ =~= b@.subrange(0, i as int));
    }
    assert(b@.subrange(0, b@.len() as int) =~= b@);
    r
}

impl FloatValue {
    /// A float value from its bit pattern and its display text.
    pub fn new(bits: u64, text: String) -> (r: FloatValue)
        ensures
            r.bits == bits,
            r.text@ == text@,
    {
        FloatValue { bits, text }
    }

    /// A copy of the value.
    pub fn copy(&self) -> (r: FloatValue)
        ensures
            r.bits == self.bits,
            r.text@ == self.text@,
    {
        FloatValue { bits: self.bits, text: self.text.clone() }
    }
}

impl Value {
    /// A copy of the value.
    pub fn copy(&self) -> (r: Value)
        ensures
            r@ == self@,
    {
        match self {
            Value::Null => Value::Null,
            Value::Bool(b) => Value::Bool(*b),
            Value::I8(v) => Value::I8(*v),
            Value::I16(v) => Value::I16(*v),
            Value::I32(v) => Value::I32(*v),
            Value::I64(v) => Value::I64(*v),
            Value::U8(v) => Value::U8(*v),
            Value::U16(v) => Value::U16(*v),
            Value::U32(v) => Value::U32(*v),
            Value::U64(v) => Value::U64(*v),
            Value::F32(f) => Value::F32(f.copy()),
            Value::F64(f) => Value::F64(f.copy()),
            Value::String(s) => Value::String(s.clone()),
            Value::Bytes(b) => Value::Bytes(copy_bytes(b)),
        }
    }

    /// Whether the value is `Null`.
    pub fn is_null(&self) -> (r: bool)
        ensures
            r == (self@ is Null),
    {
        match self {
            Value::Null => true,
            _ => false,
        }
    }

    /// The boolean a `Bool` holds.
    pub fn as_bool(&self) -> (r: Option<bool>)
        ensures
            r == (match self@ {
                ValueModel::Bool(b) => Some(b),
                _ => None::<bool>,
            }),
    {
        match self {
            Value::Bool(b) => Some(*b),
            _ => None,
        }
    }

    /// The integer an integer variant holds, when it fits in an `i64`.
    pub fn as_i64(&self) -> (r: Option<i64>)
        ensures
            r == model_as_i64(self@),
    {
        match self {
            Value::I8(v) => Some(*v as i64),
            Value::I16(v) => Some(*v as i64),
            Value::I32(v) => Some(*v as i64),
            Value::I64(v) => Some(*v),
            Value::U8(v) => Some(*v as i64),
            Value::U16(v) => Some(*v as i64),
            Value::U32(v) => Some(*v as i64),
            Value::U64(v) => if *v <= 9223372036854775807u64 { Some(*v as i64) } else { None },
            _ => None,
        }
    }

    /// The float an `F32` or `F64` holds.
    pub fn as_float(&self) -> (r: Option<FloatValue>)
        ensures
            match self@ {
                ValueModel::F32(bits, t) => r matches Some(f) && f.bits == bits && f.text@ == t,
                ValueModel::F64(bits, t) => r matches Some(f) && f.bits == bits && f.text@ == t,
                _ => r is None,
            },
    {
        match self {
            Value::F32(f) => Some(f.copy()),
            Value::F64(f) => Some(f.copy()),
            _ => None,
        }
    }

    /// The text a `String` holds.
    pub fn as_string(&self) -> (r: Option<String>)
        ensures
            match self@ {
                ValueModel::String(s) => r matches Some(t) && t@ == s,
                _ => r is None,
            },
    {
        match self {
            Value::String(s) => Some(s.clone()),
            _ => None,
        }
    }

    /// The bytes a `Bytes` holds.
    pub fn as_bytes(&self) -> (r: Option<Vec<u8>>)
        ensures
            match self@ {
                ValueModel::Bytes(b) => r matches Some(t) && t@ == b,
                _ => r is None,
            },
    {
        match self {
            Value::Bytes(b) => Some(copy_bytes(b)),
            _ => None,
        }
    }

    /// Whether the value is its type's zero (see [`model_is_default`]).
    pub fn is_default(&self) -> (r: bool)
        ensures
            r == model_is_default(self@),
    {
        match self {
            Value::Null => true,
            Value::Bool(v) => !*v,
            Value::I8(v) => *v == 0,
            Value::I16(v) => *v == 0,
            Value::I32(v) => *v == 0,
            Value::I64(v) => *v == 0,
            Value::U8(v) => *v == 0,
            Value::U16(v) => *v == 0,
            Value::U32(v) => *v == 0,
            Value::U64(v) => *v == 0,
            Value::F32(f) => f.bits % 0x8000_0000 == 0,
            Value::F64(f) => f.bits % 0x8000_0000_0000_0000 == 0,
            Value::String(s) => s.as_str().unicode_len() == 0,
            Value::Bytes(b) => b.len() == 0,
        }
    }

    /// Appends the SQL literal text of the value to `s`.
    pub fn push_sql_text(&self, s: &mut String)
        ensures
            final(s)@ == old(s)@ + model_sql_text(self@),
    {
        match self {
            Value::Null => push_str(s, "NULL"),
            Value::Bool(b) => if *b { push_str(s, "true") } else { push_str(s, "false") },
            Value::I8(v) => push_int(s, *v as i64),
            Value::I16(v) => push_int(s, *v as i64),
            Value::I32(v) => push_int(s, *v as i64),
            Value::I64(v) => push_int(s, *v),
            Value::U8(v) => push_int(s, *v as i64),
            Value::U16(v) => push_int(s, *v as i64),
            Value::U32(v) => push_int(s, *v as i64),
            Value::U64(v) => {
                push_decimal(s, *v);
                assert(spec_int_text(*v as int) == spec_decimal(*v as nat));
            },
            Value::F32(f) => push_str(s, f.text.as_str()),
            Value::F64(f) => push_str(s, f.text.as_str()),
            Value::String(t) => {
                s.push('\'');
                push_str(s, t.as_str());
                s.push('\'');
                assert(s@ =~= old(s)@ + model_sql_text(self@));
            },
            Value::Bytes(b) => {
                s.push('\'');
                s.push('\\');
                s.push('x');
                push_hex(s, b.as_slice());
                s.push('\'');
                assert(s@ =~= old(s)@ + model_sql_text(self@));
            },
        }
    }

    /// The SQL literal text of the value (its display form): `NULL`, `42`,
    /// `true`, `'hello'`, ...
    pub fn to_sql_text(&self) -> (r: String)
        ensures
            r@ == model_sql_text(self@),
    {
        let mut s = String::new();
        self.push_sql_text(&mut s);
        assert(s@ =~= model_sql_text(self@));
        s
    }
}

impl From<i64> for Value {
    fn from(v: i64) -> (r: Value) {
        Value::I64(v)
    }
}

impl vstd::std_specs::convert::FromSpecImpl<i64> for Value {
    open spec fn obeys_from_spec() -> bool {
        true
    }

    open spec fn from_spec(v: i64) -> Value {
        Value::I64(v)
    }
}

impl From<i32> for Value {
    fn from(v: i32) -> (r: Value) {
        Value::I32(v)
    }
}

impl vstd::std_specs::convert::FromSpecImpl<i32> for Value {
    open spec fn obeys_from_spec() -> bool {
        true
    }

    open spec fn from_spec(v: i32) -> Value {
        Value::I32(v)
    }
}

impl From<bool> for Value {
    fn from(v: bool) -> (r: Value) {
        Value::Bool(v)
    }
}

impl vstd::std_specs::convert::FromSpecImpl<bool> for Value {
    open spec fn obeys_from_spec() -> bool {
        true
    }

    open spec fn from_spec(v: bool) -> Value {
        Value::Bool(v)
    }
}

impl From<Vec<u8>> for Value {
    fn from(v: Vec<u8>) -> (r: Value) {
        Value::Bytes(v)
    }
}

impl vstd::std_specs::convert::FromSpecImpl<Vec<u8>> for Value {
    open spec fn obeys_from_spec() -> bool {
        true
    }

    open spec fn from_spec(v: Vec<u8>) -> Value {
        Value::Bytes(v)
    }
}

impl From<String> for Value {
    fn from(v: String) -> (r: Value) {
        Value::String(v)
    }
}

impl vstd::std_specs::convert::FromSpecImpl<String> for Value {
    open spec fn obeys_from_spec() -> bool {
        true
    }

    open spec fn from_spec(v: String) -> Value {
        Value::String(v)
    }
}

impl From<FloatValue> for Value {
    fn from(v: FloatValue) -> (r: Value) {
        Value::F64(v)
    }
}

impl vstd::std_specs::convert::FromSpecImpl<FloatValue> for Value {
    open spec fn obeys_from_spec() -> bool {
        true
    }

    open spec fn from_spec(v: FloatValue) -> Value {
        Value::F64(v)
    }
}

impl<'a> From<&'a str> for Value {
    /// A string value holding a copy of `v`.
    fn from(v: &'a str) -> (r: Value) {
        Value::String(String::from_str(v))
    }
}

impl<'a> vstd::std_specs::convert::FromSpecImpl<&'a str> for Value {
    open spec fn obeys_from_spec() -> bool {
        false
    }

    open spec fn from_spec(v: &'a str) -> Value {
        Value::String(arbitrary())
    }
}

} // verus!
