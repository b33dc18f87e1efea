//! The decoded row and its column metadata: `DataRecord` is an ordered
//! sequence of column values with an optional row identifier, and `Schema`
//! is the ordered list of column names and storage classes an operator's
//! output carries.

use vstd::prelude::*;

use crate::column_value::ColumnValue;
use crate::column_value::SpecValue;

verus! {

/// The storage class a schema declares for a column.
#[derive(Clone, Copy, Debug, PartialEq, Eq, Structural)]
pub enum StorageClass {
    /// Declared as holding nothing definite; compatible with every class.
    Null,
    Integer,
    Real,
    Text,
    Blob,
}

/// The storage class a decoded value belongs to.
pub open spec fn class_of(v: SpecValue) -> StorageClass {
    match v {
        SpecValue::Null => StorageClass::Null,
        SpecValue::Int8(_) => StorageClass::Integer,
        SpecValue::Int16(_) => StorageClass::Integer,
        SpecValue::Int24(_) => StorageClass::Integer,
        SpecValue::Int32(_) => StorageClass::Integer,
        SpecValue::Int48(_) => StorageClass::Integer,
        SpecValue::Int64(_) => StorageClass::Integer,
        SpecValue::Float64(_) => StorageClass::Real,
        SpecValue::Zero => StorageClass::Integer,
        SpecValue::One => StorageClass::Integer,
        SpecValue::Blob(_) => StorageClass::Blob,
        SpecValue::Text(_) => StorageClass::Text,
    }
}

/// Whether two declared storage classes may be joined on: equal classes are
/// compatible, the two numeric classes are compatible with each other, and a
/// `Null` declaration constrains nothing. A text column against a blob
/// column, or any other mixed pair, is structurally incompatible.
pub open spec fn compatible_classes(a: StorageClass, b: StorageClass) -> bool {
    ||| a == b
    ||| a == StorageClass::Null
    ||| b == StorageClass::Null
    ||| (a == StorageClass::Integer && b == StorageClass::Real)
    ||| (a == StorageClass::Real && b == StorageClass::Integer)
}

/// The mathematical shape of a schema column.
#[verifier::ext_equal]
pub struct SpecColumn {
    pub name: Seq<char>,
    pub column_type: StorageClass,
}

/// One schema column: its name and its declared storage class.
#[derive(Debug)]
pub struct SchemaColumn {
    pub name: String,
    pub column_type: StorageClass,
}

impl View for SchemaColumn {
    type V = SpecColumn;

    open spec fn view(&self) -> SpecColumn {
        SpecColumn { name: self.name@, column_type: self.column_type }
    }
}

/// An operator's output schema: an ordered sequence of columns.
#[derive(Debug)]
pub struct Schema {
    pub columns: Vec<SchemaColumn>,
}

impl View for Schema {
    type V = Seq<SpecColumn>;

    open spec fn view(&self) -> Seq<SpecColumn> {
        self.columns@.map_values(|c: SchemaColumn| c@)
    }
}

/// The mathematical shape of a decoded row.
#[verifier::ext_equal]
pub struct SpecRecord {
    pub values: Seq<SpecValue>,
    pub rowid: Option<i64>,
    pub num_header_bytes: nat,
}

/// One decoded row: its column values in schema order, an optional row
/// identifier (present only for rowid-table rows), and how many bytes the
/// record's serial-type header took (informational only).
#[derive(Debug, PartialEq)]
pub struct DataRecord {
    pub values: Vec<ColumnValue>,
    pub rowid: Option<i64>,
    pub num_header_bytes: usize,
}

impl View for DataRecord {
    type V = SpecRecord;

    open spec fn view(&self) -> SpecRecord {
        SpecRecord {
            values: self.values@.map_values(|v: ColumnValue| v@),
            rowid: self.rowid,
            num_header_bytes: self.num_header_bytes as nat,
        }
    }
}

/// The values a sequence of column values stands for.
pub open spec fn vals_of(vs: Seq<ColumnValue>) -> Seq<SpecValue> {
    vs.map_values(|v: ColumnValue| v@)
}

/// The rows a sequence of records stands for.
pub open spec fn views_of(rs: Seq<DataRecord>) -> Seq<SpecRecord> {
    rs.map_values(|r: DataRecord| r@)
}

/// Copies one column value, preserving what it stands for.
pub fn clone_value(v: &ColumnValue) -> (r: ColumnValue)
    ensures
        r@ == v@,
{
    match v {
        ColumnValue::Null => ColumnValue::Null,
        ColumnValue::Int8(b) => ColumnValue::Int8(*b),
        ColumnValue::Int16(b) => ColumnValue::Int16(*b),
        ColumnValue::Int24(b) => ColumnValue::Int24(*b),
        ColumnValue::Int32(b) => ColumnValue::Int32(*b),
        ColumnValue::Int48(b) => ColumnValue::Int48(*b),
        ColumnValue::Int64(b) => ColumnValue::Int64(*b),
        ColumnValue::Float64(b) => ColumnValue::Float64(*b),
        ColumnValue::Zero => ColumnValue::Zero,
        ColumnValue::One => ColumnValue::One,
        ColumnValue::Blob(b) => ColumnValue::Blob(vstd::slice::slice_to_vec(b.as_slice())),
        ColumnValue::Text(s) => ColumnValue::Text(s.clone()),
    }
}

/// Copies one record, preserving the row it stands for.
pub fn clone_record(rec: &DataRecord) -> (r: DataRecord)
    ensures
        r@ == rec@,
{
    let mut values: Vec<ColumnValue> = Vec::new();
    let n = rec.values.len();
    let mut i: usize = 0;
    while i < n
        invariant
            i <= n,
            n == rec.values@.len(),
            values@.len() == i as int,
            forall|k: int| 0 <= k < i ==> values@[k]@ == rec.values@[k]@,
        decreases n - i,
    {
        values.push(clone_value(&rec.values[i]));
        i = i + 1;
    }
    let r = DataRecord { values, rowid: rec.rowid, num_header_bytes: rec.num_header_bytes };
    proof {
        assert(r@.values =~= rec@.values);
        assert(r@ =~= rec@);
    }
    r
}

/// Copies a sequence of records, preserving the rows they stand for.
pub fn clone_records(rs: &Vec<DataRecord>) -> (r: Vec<DataRecord>)
    ensures
        views_of(r@) == views_of(rs@),
{
    let mut out: Vec<DataRecord> = Vec::new();
    let n = rs.len();
    let mut i: usize = 0;
    while i < n
        invariant
            i <= n,
            n == rs@.len(),
            out@.len() == i as int,
            forall|k: int| 0 <= k < i ==> out@[k]@ == rs@[k]@,
        decreases n - i,
    {
        out.push(clone_record(&rs[i]));
        i = i + 1;
    }
    proof {
        assert(views_of(out@) =~= views_of(rs@));
    }
    out
}

/// Copies one schema column, preserving name and class.
pub fn clone_schema_column(c: &SchemaColumn) -> (r: SchemaColumn)
    ensures
        r@ == c@,
{
    SchemaColumn { name: c.name.clone(), column_type: c.column_type }
}

/// Copies a schema, preserving what it declares.
pub fn clone_schema(s: &Schema) -> (r: Schema)
    ensures
        r@ == s@,
{
    let mut columns: Vec<SchemaColumn> = Vec::new();
    let n = s.columns.len();
    let mut i: usize = 0;
    while i < n
        invariant
            i <= n,
            n == s.columns@.len(),
            columns@.len() == i as int,
            forall|k: int| 0 <= k < i ==> columns@[k]@ == s.columns@[k]@,
        decreases n - i,
    {
        columns.push(clone_schema_column(&s.columns[i]));
        i = i + 1;
    }
    let r = Schema { columns };
    proof {
        assert(r@ =~= s@);
    }
    r
}

} // verus!
