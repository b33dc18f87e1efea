//! The physical operator tree: a closed set of pull-based operators, each
//! owning its children. `execute` is eager — it materializes the operator's
//! full result — and `schema` is computable without executing, so join
//! schema composition and expression binding can run before any row moves.

use vstd::prelude::*;

use crate::column_value::ColumnValue;
use crate::column_value::SpecValue;
use crate::error::Error;
use crate::join::join_spec;
use crate::join::ExecJoinHash;
use crate::physical_expr::spec_project;
use crate::physical_expr::PhysicalExpr;
use crate::record::class_of;
use crate::record::clone_records;
use crate::record::clone_schema;
use crate::record::clone_schema_column;
use crate::record::views_of;
use crate::record::DataRecord;
use crate::record::Schema;
use crate::record::SchemaColumn;
use crate::record::SpecColumn;
use crate::record::SpecRecord;
use crate::record::StorageClass;

verus! {

/// A leaf scan over rows the storage-layer collaborator supplied, with the
/// schema the catalog collaborator declared for them. Row identifiers are
/// that collaborator's responsibility: monotonic per insertion order, not
/// necessarily contiguous.
#[derive(Debug)]
pub struct ExecScan {
    pub rows: Vec<DataRecord>,
    pub schema: Schema,
}

/// A hard-coded scan fixture over four apple rows, for exercising the
/// operator tree without a storage layer.
#[derive(Debug)]
pub struct ExecApplesScan {}

/// A placeholder operator with no execution logic: it reports
/// `Unimplemented` rather than pretending to an empty result.
#[derive(Debug)]
pub struct ExecDummy {}

/// Evaluates a list of expressions against every input row, producing one
/// output row per input row.
#[derive(Debug)]
pub struct ExecProjection {
    /// The operator this projection pulls its rows from.
    pub input: Box<Exec>,
    /// The expressions projected onto each returned row, one output column
    /// each.
    pub expressions: Vec<PhysicalExpr>,
}

/// The operator tree: a closed set of variants, each operator exclusively
/// owning its children.
#[derive(Debug)]
pub enum Exec {
    Scan(ExecScan),
    ApplesScan(ExecApplesScan),
    Dummy(ExecDummy),
    Projection(ExecProjection),
    HashJoin(ExecJoinHash),
}

/// The schema column one projection expression produces: a column reference
/// keeps the input column's name and class; anything else gets an empty
/// name and the class of what it evaluates to.
pub open spec fn proj_column(input: Seq<SpecColumn>, e: PhysicalExpr) -> SpecColumn {
    match e {
        PhysicalExpr::Column(i) => if i < input.len() {
            input[i as int]
        } else {
            SpecColumn { name: Seq::empty(), column_type: StorageClass::Null }
        },
        PhysicalExpr::Literal(v) => SpecColumn { name: Seq::empty(), column_type: class_of(v@) },
    }
}

/// A projection's schema: one column per expression.
pub open spec fn proj_schema(input: Seq<SpecColumn>, exprs: Seq<PhysicalExpr>) -> Seq<SpecColumn> {
    exprs.map_values(|e: PhysicalExpr| proj_column(input, e))
}

/// The fixture scan's schema.
pub open spec fn apples_schema() -> Seq<SpecColumn> {
    seq![
        SpecColumn { name: "name"@, column_type: StorageClass::Text },
        SpecColumn { name: "color"@, column_type: StorageClass::Text },
    ]
}

/// One fixture row.
pub open spec fn apples_row(name: Seq<char>, color: Seq<char>, rowid: i64) -> SpecRecord {
    SpecRecord {
        values: seq![SpecValue::Text(name), SpecValue::Text(color)],
        rowid: Some(rowid),
        num_header_bytes: 0,
    }
}

/// The fixture scan's rows.
pub open spec fn apples_rows() -> Seq<SpecRecord> {
    seq![
        apples_row("Granny Smith"@, "Light Green"@, 1),
        apples_row("Fuji"@, "Red"@, 2),
        apples_row("Honeycrisp"@, "Blush Red"@, 3),
        apples_row("Golden Delicious"@, "Yellow"@, 4),
    ]
}

/// The schema an operator's output carries, composed without executing:
/// a scan's is its collaborator's; a projection's is one column per
/// expression; a join's was fixed at construction.
pub open spec fn spec_schema(e: Exec) -> Seq<SpecColumn>
    decreases e,
{
    match e {
        Exec::Scan(s) => s.schema@,
        Exec::ApplesScan(_) => apples_schema(),
        Exec::Dummy(_) => Seq::empty(),
        Exec::Projection(p) => proj_schema(spec_schema(*p.input), p.expressions@),
        Exec::HashJoin(j) => j.schema@,
    }
}

/// The rows an operator's `execute` returns, or the error it reports:
/// children are pulled bottom-up, and a child's error propagates unchanged.
pub open spec fn spec_output(e: Exec) -> Result<Seq<SpecRecord>, Error>
    decreases e,
{
    match e {
        Exec::Scan(s) => Ok(views_of(s.rows@)),
        Exec::ApplesScan(_) => Ok(apples_rows()),
        Exec::Dummy(_) => Err(Error::Unimplemented),
        Exec::Projection(p) => match spec_output(*p.input) {
            Err(err) => Err(err),
            Ok(rows) => spec_project(p.expressions@, rows),
        },
        Exec::HashJoin(j) => match spec_output(*j.left) {
            Err(err) => Err(err),
            Ok(build) => match spec_output(*j.right) {
                Err(err) => Err(err),
                Ok(probe) => Ok(
                    join_spec(
                        j.join_type,
                        build,
                        probe,
                        j.on@,
                        spec_schema(*j.left).len(),
                        spec_schema(*j.right).len(),
                    ),
                ),
            },
        },
    }
}

/// Whether an executable result agrees with the model's.
pub open spec fn output_obeys(
    r: Result<Vec<DataRecord>, Error>,
    m: Result<Seq<SpecRecord>, Error>,
) -> bool {
    match r {
        Ok(v) => m == Ok::<Seq<SpecRecord>, Error>(views_of(v@)),
        Err(e) => m == Err::<Seq<SpecRecord>, Error>(e),
    }
}

/// The storage class a value belongs to.
pub fn class_of_exec(v: &ColumnValue) -> (r: StorageClass)
    ensures
        r == class_of(v@),
{
    match v {
        ColumnValue::Null => StorageClass::Null,
        ColumnValue::Float64(_) => StorageClass::Real,
        ColumnValue::Blob(_) => StorageClass::Blob,
        ColumnValue::Text(_) => StorageClass::Text,
        _ => StorageClass::Integer,
    }
}

/// Builds the fixture scan's rows.
fn apples_records() -> (r: Vec<DataRecord>)
    ensures
        views_of(r@) == apples_rows(),
{
    let mut rows: Vec<DataRecord> = Vec::new();
    let mut v1: Vec<ColumnValue> = Vec::new();
    v1.push(ColumnValue::Text("Granny Smith".to_owned()));
    v1.push(ColumnValue::Text("Light Green".to_owned()));
    rows.push(DataRecord { values: v1, rowid: Some(1), num_header_bytes: 0 });
    let mut v2: Vec<ColumnValue> = Vec::new();
    v2.push(ColumnValue::Text("Fuji".to_owned()));
    v2.push(ColumnValue::Text("Red".to_owned()));
    rows.push(DataRecord { values: v2, rowid: Some(2), num_header_bytes: 0 });
    let mut v3: Vec<ColumnValue> = Vec::new();
    v3.push(ColumnValue::Text("Honeycrisp".to_owned()));
    v3.push(ColumnValue::Text("Blush Red".to_owned()));
    rows.push(DataRecord { values: v3, rowid: Some(3), num_header_bytes: 0 });
    let mut v4: Vec<ColumnValue> = Vec::new();
    v4.push(ColumnValue::Text("Golden Delicious".to_owned()));
    v4.push(ColumnValue::Text("Yellow".to_owned()));
    rows.push(DataRecord { values: v4, rowid: Some(4), num_header_bytes: 0 });
    proof {
        assert(rows@[0]@.values =~= apples_rows()[0].values);
        assert(rows@[1]@.values =~= apples_rows()[1].values);
        assert(rows@[2]@.values =~= apples_rows()[2].values);
        assert(rows@[3]@.values =~= apples_rows()[3].values);
        assert(views_of(rows@) =~~= apples_rows());
    }
    rows
}

impl Exec {
    /// The operator's output schema, computed without executing anything.
    pub fn schema(&self) -> (r: Schema)
        ensures
            r@ == spec_schema(*self),
        decreases *self,
    {
        match self {
            Exec::Scan(s) => clone_schema(&s.schema),
            Exec::ApplesScan(_) => {
                let mut columns: Vec<SchemaColumn> = Vec::new();
                columns.push(
                    SchemaColumn { name: "name".to_owned(), column_type: StorageClass::Text },
                );
                columns.push(
                    SchemaColumn { name: "color".to_owned(), column_type: StorageClass::Text },
                );
                let r = Schema { columns };
                proof {
                    assert(r@ =~= apples_schema());
                }
                r
            },
            Exec::Dummy(_) => {
                let r = Schema { columns: Vec::new() };
                proof {
                    assert(r@ =~= Seq::<SpecColumn>::empty());
                }
                r
            },
            Exec::Projection(p) => {
                let input_schema = p.input.schema();
                let ghost ins = spec_schema(*p.input);
                let mut columns: Vec<SchemaColumn> = Vec::new();
                let n = p.expressions.len();
                let mut k: usize = 0;
                while k < n
                    invariant
                        k <= n,
                        n == p.expressions@.len(),
                        input_schema@ == ins,
                        columns@.len() == k as int,
                        forall|m: int|
                            0 <= m < k ==> (#[trigger] columns@[m])@ == proj_column(
                                ins,
                                p.expressions@[m],
                            ),
                    decreases n - k,
                {
                    let col = match &p.expressions[k] {
                        PhysicalExpr::Column(i) => {
                            if *i < input_schema.columns.len() {
                                clone_schema_column(&input_schema.columns[*i])
                            } else {
                                SchemaColumn {
                                    name: String::new(),
                                    column_type: StorageClass::Null,
                                }
                            }
                        },
                        PhysicalExpr::Literal(v) => SchemaColumn {
                            name: String::new(),
                            column_type: class_of_exec(v),
                        },
                    };
                    columns.push(col);
                    k = k + 1;
                }
                let r = Schema { columns };
                proof {
                    assert(r@ =~= proj_schema(ins, p.expressions@));
                }
                r
            },
            Exec::HashJoin(j) => clone_schema(&j.schema),
        }
    }

    /// Runs the operator eagerly: pulls the children's full results
    /// bottom-up and materializes this operator's own, or reports the first
    /// failure. Any working state (a join's hash index) lives only within
    /// this call; calling again recomputes everything.
    pub fn execute(&self) -> (r: Result<Vec<DataRecord>, Error>)
        ensures
            output_obeys(r, spec_output(*self)),
        decreases *self,
    {
        match self {
            Exec::Scan(s) => Ok(clone_records(&s.rows)),
            Exec::ApplesScan(_) => Ok(apples_records()),
            Exec::Dummy(_) => Err(Error::Unimplemented),
            Exec::Projection(p) => {
                match p.input.execute() {
                    Err(err) => Err(err),
                    Ok(rows) => crate::physical_expr::project_records(&p.expressions, &rows),
                }
            },
            Exec::HashJoin(j) => {
                match j.left.execute() {
                    Err(err) => Err(err),
                    Ok(build) => {
                        match j.right.execute() {
                            Err(err) => Err(err),
                            Ok(probe) => {
                                let ls = j.left.schema();
                                let rs = j.right.schema();
                                Ok(
                                    crate::join::hash_join_rows(
                                        &build,
                                        &probe,
                                        &j.on,
                                        j.join_type,
                                        ls.columns.len(),
                                        rs.columns.len(),
                                    ),
                                )
                            },
                        }
                    },
                }
            },
        }
    }
}

} // verus!
