//! The expression capability projection consumes: a closed set of
//! expressions, each evaluated against one record to one column value.
//! Evaluation is deterministic and side-effect free; its only failure is a
//! column reference the record cannot satisfy, which is reported and aborts
//! the projection that asked for it.

use vstd::prelude::*;

use crate::column_value::ColumnValue;
use crate::column_value::SpecValue;
use crate::error::Error;
use crate::record::clone_value;
use crate::record::vals_of;
use crate::record::views_of;
use crate::record::DataRecord;
use crate::record::SpecRecord;

verus! {

/// One projection expression.
#[derive(Debug)]
pub enum PhysicalExpr {
    /// The value of the input column at this position.
    Column(usize),
    /// A constant, whatever the record holds.
    Literal(ColumnValue),
}

/// What evaluating an expression against a row yields.
pub open spec fn spec_eval(e: PhysicalExpr, rec: SpecRecord) -> Result<SpecValue, Error> {
    match e {
        PhysicalExpr::Column(i) => if i < rec.values.len() {
            Ok(rec.values[i as int])
        } else {
            Err(Error::ColumnOutOfRange)
        },
        PhysicalExpr::Literal(v) => Ok(v@),
    }
}

/// Evaluates one expression against one record.
pub fn eval(e: &PhysicalExpr, rec: &DataRecord) -> (r: Result<ColumnValue, Error>)
    ensures
        match r {
            Ok(v) => spec_eval(*e, rec@) == Ok::<SpecValue, Error>(v@),
            Err(err) => spec_eval(*e, rec@) == Err::<SpecValue, Error>(err),
        },
{
    match e {
        PhysicalExpr::Column(i) => {
            match rec.values.get(*i) {
                Some(v) => Ok(clone_value(v)),
                None => Err(Error::ColumnOutOfRange),
            }
        },
        PhysicalExpr::Literal(v) => Ok(clone_value(v)),
    }
}

/// The values one output row carries: every expression evaluated against the
/// record, in order, stopping at the first failure.
pub open spec fn spec_eval_all(exprs: Seq<PhysicalExpr>, rec: SpecRecord) -> Result<
    Seq<SpecValue>,
    Error,
>
    decreases exprs.len(),
{
    if exprs.len() == 0 {
        Ok(Seq::empty())
    } else {
        match spec_eval_all(exprs.drop_last(), rec) {
            Err(e) => Err(e),
            Ok(vs) => match spec_eval(exprs.last(), rec) {
                Err(e) => Err(e),
                Ok(v) => Ok(vs.push(v)),
            },
        }
    }
}

/// Once one expression fails on a record, the whole row fails with that
/// first error, however many expressions follow.
proof fn lemma_eval_all_absorbs_err(exprs: Seq<PhysicalExpr>, rec: SpecRecord, j: int)
    requires
        0 <= j <= exprs.len(),
        spec_eval_all(exprs.take(j), rec) is Err,
    ensures
        spec_eval_all(exprs, rec) == spec_eval_all(exprs.take(j), rec),
    decreases exprs.len() - j,
{
    if j == exprs.len() {
        assert(exprs.take(j) =~= exprs);
    } else {
        assert(exprs.take(j + 1).drop_last() =~= exprs.take(j));
        lemma_eval_all_absorbs_err(exprs, rec, j + 1);
    }
}

/// The row a projection makes of one input record: the evaluated values, no
/// row identifier, and a header-byte count of zero.
pub open spec fn spec_project_row(exprs: Seq<PhysicalExpr>, rec: SpecRecord) -> Result<
    SpecRecord,
    Error,
> {
    match spec_eval_all(exprs, rec) {
        Err(e) => Err(e),
        Ok(vs) => Ok(SpecRecord { values: vs, rowid: None, num_header_bytes: 0 }),
    }
}

/// What a projection makes of its input rows: one output row per input row,
/// in input order, stopping at the first evaluation failure.
pub open spec fn spec_project(exprs: Seq<PhysicalExpr>, rows: Seq<SpecRecord>) -> Result<
    Seq<SpecRecord>,
    Error,
>
    decreases rows.len(),
{
    if rows.len() == 0 {
        Ok(Seq::empty())
    } else {
        match spec_project(exprs, rows.drop_last()) {
            Err(e) => Err(e),
            Ok(out) => match spec_project_row(exprs, rows.last()) {
                Err(e) => Err(e),
                Ok(rec) => Ok(out.push(rec)),
            },
        }
    }
}

/// Once one record fails, the whole projection fails with that first error.
proof fn lemma_project_absorbs_err(exprs: Seq<PhysicalExpr>, rows: Seq<SpecRecord>, j: int)
    requires
        0 <= j <= rows.len(),
        spec_project(exprs, rows.take(j)) is Err,
    ensures
        spec_project(exprs, rows) == spec_project(exprs, rows.take(j)),
    decreases rows.len() - j,
{
    if j == rows.len() {
        assert(rows.take(j) =~= rows);
    } else {
        assert(rows.take(j + 1).drop_last() =~= rows.take(j));
        lemma_project_absorbs_err(exprs, rows, j + 1);
    }
}

/// A projection that returns rows returns exactly one per input row, in
/// input order: the output at each position is the projection of the input
/// at that position. With zero expressions every output row has zero width.
pub proof fn lemma_projection_keeps_count_and_order(
    exprs: Seq<PhysicalExpr>,
    rows: Seq<SpecRecord>,
)
    requires
        spec_project(exprs, rows) is Ok,
    ensures
        spec_project(exprs, rows)->Ok_0.len() == rows.len(),
        forall|i: int|
            0 <= i < rows.len() ==> Ok::<SpecRecord, Error>(
                #[trigger] spec_project(exprs, rows)->Ok_0[i],
            ) == spec_project_row(exprs, rows[i]),
        exprs.len() == 0 ==> forall|i: int|
            0 <= i < rows.len() ==> #[trigger] spec_project(exprs, rows)->Ok_0[i].values.len()
                == 0,
    decreases rows.len(),
{
    if rows.len() > 0 {
        lemma_projection_keeps_count_and_order(exprs, rows.drop_last());
        assert(forall|i: int| 0 <= i < rows.len() - 1 ==> rows.drop_last()[i] == rows[i]);
    }
}

/// Evaluates every expression against one record, in order.
pub fn project_row(exprs: &Vec<PhysicalExpr>, rec: &DataRecord) -> (r: Result<DataRecord, Error>)
    ensures
        match r {
            Ok(out) => spec_project_row(exprs@, rec@) == Ok::<SpecRecord, Error>(out@),
            Err(e) => spec_project_row(exprs@, rec@) == Err::<SpecRecord, Error>(e),
        },
{
    let mut values: Vec<ColumnValue> = Vec::new();
    let n = exprs.len();
    let mut k: usize = 0;
    proof {
        assert(exprs@.take(0) =~= Seq::<PhysicalExpr>::empty());
        assert(vals_of(values@) =~= Seq::<SpecValue>::empty());
    }
    while k < n
        invariant
            k <= n,
            n == exprs@.len(),
            values@.len() == k as int,
            spec_eval_all(exprs@.take(k as int), rec@) == Ok::<Seq<SpecValue>, Error>(
                vals_of(values@),
            ),
        decreases n - k,
    {
        proof {
            assert(exprs@.take(k + 1).drop_last() =~= exprs@.take(k as int));
            assert(exprs@.take(k + 1).last() == exprs@[k as int]);
        }
        match eval(&exprs[k], rec) {
            Ok(v) => {
                let ghost pre = values@;
                values.push(v);
                proof {
                    assert(values@.drop_last() =~= pre);
                    assert(vals_of(values@) =~= vals_of(pre).push(values@.last()@));
                }
            },
            Err(e) => {
                proof {
                    lemma_eval_all_absorbs_err(exprs@, rec@, k + 1);
                }
                return Err(e);
            },
        }
        k = k + 1;
    }
    proof {
        assert(exprs@.take(n as int) =~= exprs@);
    }
    let out = DataRecord { values, rowid: None, num_header_bytes: 0 };
    proof {
        assert(out@.values == vals_of(out.values@));
        assert(out@ =~= spec_project_row(exprs@, rec@)->Ok_0);
    }
    Ok(out)
}

/// Evaluates every expression against every record, in order, producing one
/// output record per input record; the first failure aborts the whole
/// projection and is reported.
pub fn project_records(exprs: &Vec<PhysicalExpr>, rows: &Vec<DataRecord>) -> (r: Result<
    Vec<DataRecord>,
    Error,
>)
    ensures
        match r {
            Ok(out) => spec_project(exprs@, views_of(rows@)) == Ok::<
                Seq<SpecRecord>,
                Error,
            >(views_of(out@)),
            Err(e) => spec_project(exprs@, views_of(rows@)) == Err::<
                Seq<SpecRecord>,
                Error,
            >(e),
        },
{
    let ghost vrows = views_of(rows@);
    let mut out: Vec<DataRecord> = Vec::new();
    let n = rows.len();
    let mut i: usize = 0;
    proof {
        assert(vrows.take(0) =~= Seq::<SpecRecord>::empty());
        assert(views_of(out@) =~= Seq::<SpecRecord>::empty());
    }
    while i < n
        invariant
            i <= n,
            n == rows@.len(),
            vrows == views_of(rows@),
            vrows.len() == n,
            spec_project(exprs@, vrows.take(i as int)) == Ok::<Seq<SpecRecord>, Error>(
                views_of(out@),
            ),
        decreases n - i,
    {
        proof {
            assert(vrows.take(i + 1).drop_last() =~= vrows.take(i as int));
            assert(vrows.take(i + 1).last() == rows@[i as int]@);
        }
        match project_row(exprs, &rows[i]) {
            Ok(rec) => {
                let ghost pre = out@;
                out.push(rec);
                proof {
                    assert(out@.drop_last() =~= pre);
                    assert(views_of(out@) =~= views_of(pre).push(out@.last()@));
                }
            },
            Err(e) => {
                proof {
                    lemma_project_absorbs_err(exprs@, vrows, i + 1);
                }
                return Err(e);
            },
        }
        i = i + 1;
    }
    proof {
        assert(vrows.take(n as int) =~= vrows);
    }
    Ok(out)
}

} // verus!
