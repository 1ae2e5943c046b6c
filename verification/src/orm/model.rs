//! Model metadata.
use vstd::prelude::*;
use crate::types::value::{Value, ValueModel};
use crate::text::{chars_of, to_lowercase, lowercase_of};

verus! {

/// Metadata of one column of a model's table.
#[derive(Debug, Clone, Copy)]
pub struct ColumnInfo {
    /// Column name in the database
    pub name: &'static str,
    /// Rust type name (e.g. `"i64"`, `"String"`)
    pub rust_type: &'static str,
    /// Whether this column is part of the primary key
    pub is_primary_key: bool,
    /// Whether this column is auto-increment (integer primary key)
    pub is_auto_increment: bool,
    /// Whether a regular index is created on this column
    pub is_index: bool,
    /// Whether a unique constraint is created on this column
    pub is_unique: bool,
    /// Name of the composite unique index group this column belongs to
    pub unique_index_name: Option<&'static str>,
}

/// The model of a [`ColumnInfo`].
pub struct ColumnInfoModel {
    pub name: Seq<char>,
    pub rust_type: Seq<char>,
    pub is_primary_key: bool,
    pub is_auto_increment: bool,
    pub is_index: bool,
    pub is_unique: bool,
    pub unique_index_name: Option<Seq<char>>,
}

impl View for ColumnInfo {
    type V = ColumnInfoModel;

    open spec fn view(&self) -> ColumnInfoModel {
        ColumnInfoModel {
            name: self.name@,
            rust_type: self.rust_type@,
            is_primary_key: self.is_primary_key,
            is_auto_increment: self.is_auto_increment,
            is_index: self.is_index,
            is_unique: self.is_unique,
            unique_index_name: match self.unique_index_name {
                Some(n) => Some(n@),
                None => None,
            },
        }
    }
}

/// A type stored as rows of a table, implemented for each model type (a
/// derive writes the implementation). The `spec` functions name what an
/// implementation returns; the query builder's contracts are stated over
/// them and hold of an implementation whose methods return what they name.
pub trait Model: Sized {
    /// The table name.
    closed spec fn spec_table_name() -> Seq<char> {
        arbitrary()
    }

    /// The primary key column.
    closed spec fn spec_primary_key() -> Seq<char> {
        arbitrary()
    }

    /// The column names, in order.
    closed spec fn spec_columns() -> Seq<Seq<char>> {
        arbitrary()
    }

    /// The column metadata, in order.
    closed spec fn spec_schema() -> Seq<ColumnInfoModel> {
        arbitrary()
    }

    /// The values of a model, one per column, in column order.
    closed spec fn spec_values(&self) -> Seq<ValueModel> {
        arbitrary()
    }

    /// Returns the database table name.
    fn table_name() -> (r: &'static str)
        ensures
            r@ == Self::spec_table_name();

    /// Returns the primary key column name.
    fn primary_key() -> (r: &'static str)
        ensures
            r@ == Self::spec_primary_key();

    /// Returns all column names in order.
    fn columns() -> (r: &'static [&'static str])
        ensures
            r@.map_values(|s: &str| s@) == Self::spec_columns();

    /// Returns the column metadata used to create the table.
    fn table_schema() -> (r: &'static [ColumnInfo])
        ensures
            r@.map_values(|c: ColumnInfo| c@) == Self::spec_schema();

    /// The model built from a row's values; `None` when they do not convert.
    closed spec fn spec_from_row(row: Seq<ValueModel>) -> Option<Self> {
        arbitrary()
    }

    /// Builds a model from a row's values.
    fn from_row(row: &[Value]) -> (r: Result<Self, String>)
        ensures
            match Self::spec_from_row(row@.map_values(|v: Value| v@)) {
                Some(m) => r == Ok::<Self, String>(m),
                None => r is Err,
            };

    /// The model's values, in column order.
    fn to_values(&self) -> (r: Vec<Value>)
        ensures
            r@.map_values(|v: Value| v@) == self.spec_values();
}

/// The integer type names for which an integer primary key auto-increments.
pub open spec fn spec_is_integer_type(ty: Seq<char>) -> bool {
    ty == "i8"@ || ty == "i16"@ || ty == "i32"@ || ty == "i64"@ || ty == "u8"@ || ty == "u16"@
        || ty == "u32"@ || ty == "u64"@ || ty == "isize"@ || ty == "usize"@
}

/// Whether `ty` names a primitive integer type.
pub fn is_integer_type(ty: &str) -> (r: bool)
    ensures
        r == spec_is_integer_type(ty@),
{
    let t = chars_of(ty);
    let names: [&str; 10] = ["i8", "i16", "i32", "i64", "u8", "u16", "u32", "u64", "isize", "usize"];
    let mut i: usize = 0;
    while i < 10
        invariant
            i <= 10,
            t@ == ty@,
            names@ == seq!["i8", "i16", "i32", "i64", "u8", "u16", "u32", "u64", "isize", "usize"],
            forall|j: int| 0 <= j < i ==> ty@ != names@[j]@,
        decreases 10 - i,
    {
        let n = chars_of(names[i]);
        if crate::text::chars_eq(&t, &n) {
            return true;
        }
        i += 1;
    }
    false
}

/// The table name used when a model names none: the type name in lower
/// case followed by `s`.
pub fn default_table_name(struct_name: &str) -> (r: String)
    ensures
        r@ == lowercase_of(struct_name@) + seq!['s'],
{
    let mut s = to_lowercase(struct_name);
    s.push('s');
    s
}

/// Whether a field is an auto-increment key: it is the primary key and its
/// type is a primitive integer.
pub fn is_auto_increment_field(field: &str, ty: &str, primary_key: &str) -> (r: bool)
    ensures
        r == (field@ == primary_key@ && spec_is_integer_type(ty@)),
{
    crate::text::str_eq(field, primary_key) && is_integer_type(ty)
}

/// The column description a derive gives a field `(name, type)`: the
/// primary key when its name is `primary_key`, auto-incremented when it is
/// also of an integer type, with no index or unique constraint.
pub open spec fn field_column(field: (Seq<char>, Seq<char>), primary_key: Seq<char>) -> ColumnInfoModel {
    ColumnInfoModel {
        name: field.0,
        rust_type: field.1,
        is_primary_key: field.0 == primary_key,
        is_auto_increment: field.0 == primary_key && spec_is_integer_type(field.1),
        is_index: false,
        is_unique: false,
        unique_index_name: None,
    }
}

/// The table schema a derive gives a model with `fields` (name and type
/// name of each, in order) and primary key `primary_key`: one column
/// description per field, in the fields' order.
pub fn schema_of_fields(fields: &[(&'static str, &'static str)], primary_key: &str) -> (r: Vec<ColumnInfo>)
    ensures
        r@.map_values(|c: ColumnInfo| c@) == fields@.map_values(
            |f: (&'static str, &'static str)| field_column((f.0@, f.1@), primary_key@),
        ),
{
    let ghost target = fields@.map_values(
        |f: (&'static str, &'static str)| field_column((f.0@, f.1@), primary_key@),
    );
    let mut r: Vec<ColumnInfo> = Vec::new();
    let mut i: usize = 0;
    while i < fields.len()
        invariant
            i <= fields.len(),
            target == fields@.map_values(
                |f: (&'static str, &'static str)| field_column((f.0@, f.1@), primary_key@),
            ),
            r@.map_values(|c: ColumnInfo| c@) == target.take(i as int),
        decreases fields.len() - i,
    {
        let (name, ty) = fields[i];
        let is_pk = crate::text::str_eq(name, primary_key);
        let c = ColumnInfo {
            name,
            rust_type: ty,
            is_primary_key: is_pk,
            is_auto_increment: is_auto_increment_field(name, ty, primary_key),
            is_index: false,
            is_unique: false,
            unique_index_name: None,
        };
        let ghost before = r@;
        r.push(c);
        assert(r@.map_values(|c: ColumnInfo| c@) =~= before.map_values(|c: ColumnInfo| c@).push(c@));
        assert(target.take(i + 1) =~= target.take(i as int).push(target[i as int]));
        i += 1;
    }
    assert(target.take(fields.len() as int) =~= target);
    r
}

} // verus!
