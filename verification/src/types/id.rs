//! A typed primary-key identifier.
use vstd::prelude::*;
use super::value::{Value, ValueModel, model_as_i64};
use super::to_sql::ToSql;
use super::from_sql::{FromSql, conversion_error, is_conversion_error};
use crate::text::{i64_text, spec_int_text};

verus! {

/// An identifier wrapping an `i64`; zero means "not assigned yet".
#[derive(Debug, Clone, Copy, PartialEq, Eq, PartialOrd, Ord, Default, Hash, Structural)]
pub struct Id(pub i64);

impl Id {
    /// The unassigned identifier (zero).
    pub fn new() -> (r: Id)
        ensures
            r.0 == 0,
    {
        Id(0)
    }

    /// The wrapped integer.
    pub fn value(&self) -> (r: i64)
        ensures
            r == self.0,
    {
        self.0
    }

    /// Whether the identifier is zero.
    pub fn is_zero(&self) -> (r: bool)
        ensures
            r == (self.0 == 0),
    {
        self.0 == 0
    }

    /// The decimal text of the identifier (its display form).
    pub fn to_display_string(&self) -> (r: String)
        ensures
            r@ == spec_int_text(self.0 as int),
    {
        i64_text(self.0)
    }
}

impl ToSql for Id {
    open spec fn spec_to_sql(&self) -> ValueModel {
        ValueModel::I64(self.0)
    }

    fn to_sql(&self) -> (r: Value)
        ensures
            r@ == ValueModel::I64(self.0),
    {
        Value::I64(self.0)
    }
}

impl FromSql for Id {
    open spec fn spec_converts(v: ValueModel) -> bool {
        model_as_i64(v) is Some
    }

    open spec fn spec_converts_to(v: ValueModel, x: Self) -> bool {
        model_as_i64(v) == Some(x.0)
    }

    fn from_sql(value: &Value) -> (r: Result<Id, String>)
        ensures
            match model_as_i64(value@) {
                Some(v) => r == Ok::<Id, String>(Id(v)),
                None => r matches Err(m) && is_conversion_error(m@, "Id"@),
            },
    {
        match value.as_i64() {
            Some(v) => Ok(Id(v)),
            None => Err(conversion_error(value, "Id")),
        }
    }
}

impl From<i64> for Id {
    fn from(v: i64) -> (r: Id) {
        Id(v)
    }
}

impl vstd::std_specs::convert::FromSpecImpl<i64> for Id {
    open spec fn obeys_from_spec() -> bool {
        true
    }

    open spec fn from_spec(v: i64) -> Id {
        Id(v)
    }
}

impl From<Id> for i64 {
    fn from(id: Id) -> (r: i64) {
        id.0
    }
}

impl vstd::std_specs::convert::FromSpecImpl<Id> for i64 {
    open spec fn obeys_from_spec() -> bool {
        true
    }

    open spec fn from_spec(id: Id) -> i64 {
        id.0
    }
}

} // verus!
