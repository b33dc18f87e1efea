//! Join-key semantics: the normalization that decides when two column values
//! compare equal for join purposes, and the structural hash the join's index
//! is keyed by.
//!
//! Two values compare equal when both are the same storage class and
//! byte-equal, or both stand for the same integer (any integer width, and the
//! `Zero` / `One` constants standing for 0 and 1). `Null` equals nothing,
//! not even another `Null`. Text never equals blob bytes, and otherwise
//! incompatible classes compare unequal; the comparison itself never fails.

use vstd::prelude::*;

use crate::column_value::be_sint;
use crate::column_value::decode_be_int;
use crate::column_value::ColumnValue;
use crate::column_value::SpecValue;
use crate::record::SpecRecord;

verus! {

/// A column value normalized for join comparison: integers of every width
/// (and `Zero` / `One`) collapse to their signed value, while the other
/// classes keep their payload and their class.
#[verifier::ext_equal]
pub enum NormValue {
    Integer(int),
    Real(Seq<u8>),
    Text(Seq<char>),
    Blob(Seq<u8>),
}

/// The integer a value stands for, if it is of the integer storage class.
pub open spec fn spec_int_value(v: SpecValue) -> Option<int> {
    match v {
        SpecValue::Int8(b) => Some(be_sint(b)),
        SpecValue::Int16(b) => Some(be_sint(b)),
        SpecValue::Int24(b) => Some(be_sint(b)),
        SpecValue::Int32(b) => Some(be_sint(b)),
        SpecValue::Int48(b) => Some(be_sint(b)),
        SpecValue::Int64(b) => Some(be_sint(b)),
        SpecValue::Zero => Some(0),
        SpecValue::One => Some(1),
        _ => None,
    }
}

/// The normal form of a value for join comparison; `None` for `Null`, which
/// matches nothing.
pub open spec fn norm(v: SpecValue) -> Option<NormValue> {
    match v {
        SpecValue::Null => None,
        SpecValue::Float64(b) => Some(NormValue::Real(b)),
        SpecValue::Blob(b) => Some(NormValue::Blob(b)),
        SpecValue::Text(s) => Some(NormValue::Text(s)),
        _ => Some(NormValue::Integer(spec_int_value(v)->Some_0)),
    }
}

/// Join-key equality of two values: both normalize, and to the same normal
/// form. `Null` on either side is never equal, including `Null` to `Null`.
pub open spec fn key_eq(a: SpecValue, b: SpecValue) -> bool {
    norm(a) is Some && norm(a) == norm(b)
}

/// The value of a record's column, with a missing column reading as `Null`
/// (so it can never satisfy a join key).
pub open spec fn col_value(rec: SpecRecord, i: int) -> SpecValue {
    if 0 <= i < rec.values.len() {
        rec.values[i]
    } else {
        SpecValue::Null
    }
}

/// Whether a build row and a probe row match on every join column pair.
/// Any `Null` key component on either side makes the rows not match.
pub open spec fn row_matches(b: SpecRecord, p: SpecRecord, on: Seq<(usize, usize)>) -> bool {
    forall|k: int|
        0 <= k < on.len() ==> key_eq(
            col_value(b, #[trigger] on[k].0 as int),
            col_value(p, on[k].1 as int),
        )
}

/// A row whose key has a `Null` component matches nothing — not even a row
/// whose key has a `Null` in the same place.
pub proof fn lemma_null_key_never_matches(
    b: SpecRecord,
    p: SpecRecord,
    on: Seq<(usize, usize)>,
    k: int,
)
    requires
        0 <= k < on.len(),
        col_value(b, on[k].0 as int) is Null || col_value(p, on[k].1 as int) is Null,
    ensures
        !row_matches(b, p, on),
{
    assert(!key_eq(col_value(b, on[k].0 as int), col_value(p, on[k].1 as int)));
}

/// Reads a record's column, with a missing column reading as `Null`.
pub fn get_col(rec: &crate::record::DataRecord, i: usize) -> (r: &ColumnValue)
    ensures
        r@ == col_value(rec@, i as int),
{
    match rec.values.get(i) {
        Some(v) => v,
        None => &ColumnValue::Null,
    }
}

/// Decides join-key equality of two values.
pub fn key_eq_exec(a: &ColumnValue, b: &ColumnValue) -> (r: bool)
    ensures
        r == key_eq(a@, b@),
{
    let ia = int_value_exec(a);
    let ib = int_value_exec(b);
    match (ia, ib) {
        (Some(x), Some(y)) => x == y,
        (Some(_), None) => false,
        (None, Some(_)) => false,
        (None, None) => {
            match (a, b) {
                (ColumnValue::Float64(x), ColumnValue::Float64(y)) => bytes_eq(
                    x.as_slice(),
                    y.as_slice(),
                ),
                (ColumnValue::Blob(x), ColumnValue::Blob(y)) => bytes_eq(
                    x.as_slice(),
                    y.as_slice(),
                ),
                (ColumnValue::Text(x), ColumnValue::Text(y)) => x.eq(y),
                _ => false,
            }
        },
    }
}

/// The integer a value stands for, if any.
pub fn int_value_exec(v: &ColumnValue) -> (r: Option<i64>)
    ensures
        match r {
            Some(i) => spec_int_value(v@) == Some(i as int),
            None => spec_int_value(v@) is None,
        },
{
    match v {
        ColumnValue::Int8(b) => Some(decode_be_int(b.as_slice())),
        ColumnValue::Int16(b) => Some(decode_be_int(b.as_slice())),
        ColumnValue::Int24(b) => Some(decode_be_int(b.as_slice())),
        ColumnValue::Int32(b) => Some(decode_be_int(b.as_slice())),
        ColumnValue::Int48(b) => Some(decode_be_int(b.as_slice())),
        ColumnValue::Int64(b) => Some(decode_be_int(b.as_slice())),
        ColumnValue::Zero => Some(0),
        ColumnValue::One => Some(1),
        _ => None,
    }
}

/// One step of the FNV-style structural hash: fold one word into the state.
pub open spec fn mix(acc: u64, x: u64) -> u64 {
    vstd::wrapping::u64_specs::wrapping_mul(acc ^ x, 0x100_0000_01b3u64)
}

/// The structural hash of a byte string.
pub open spec fn bytes_hash(s: Seq<u8>) -> u64
    decreases s.len(),
{
    if s.len() == 0 {
        0xcbf2_9ce4_8422_2325u64
    } else {
        mix(bytes_hash(s.drop_last()), s.last() as u64)
    }
}

/// A signed value's 64-bit two's-complement pattern.
pub open spec fn to_u64_pattern(v: int) -> u64 {
    (v % 0x1_0000_0000_0000_0000) as u64
}

/// A class tag folded into the hash so that, say, an empty blob and an empty
/// text hash differently.
pub open spec fn norm_tag(n: NormValue) -> u64 {
    match n {
        NormValue::Integer(_) => 1,
        NormValue::Real(_) => 2,
        NormValue::Text(_) => 3,
        NormValue::Blob(_) => 4,
    }
}

/// The hash contribution of one normalized key component. It is a function
/// of the normal form, so values that compare equal hash alike.
pub open spec fn norm_hash(n: NormValue) -> u64 {
    match n {
        NormValue::Integer(v) => to_u64_pattern(v),
        NormValue::Real(b) => bytes_hash(b),
        NormValue::Text(s) => bytes_hash(vstd::utf8::encode_utf8(s)),
        NormValue::Blob(b) => bytes_hash(b),
    }
}

/// The key columns one side of a join reads: the left components of the
/// pairs for the build side, the right components for the probe side.
pub open spec fn key_cols(on: Seq<(usize, usize)>, left: bool) -> Seq<usize> {
    on.map_values(|p: (usize, usize)| if left { p.0 } else { p.1 })
}

/// The structural hash of a record's key tuple under the given columns, or
/// `None` when some key component is `Null` (such a row is kept out of the
/// hash index and matches nothing).
pub open spec fn row_hash(rec: SpecRecord, cols: Seq<usize>) -> Option<u64>
    decreases cols.len(),
{
    if cols.len() == 0 {
        Some(0x517c_c1b7_2722_0a95u64)
    } else {
        match row_hash(rec, cols.drop_last()) {
            None => None,
            Some(acc) => match norm(col_value(rec, cols.last() as int)) {
                None => None,
                Some(nv) => Some(mix(mix(acc, norm_tag(nv)), norm_hash(nv))),
            },
        }
    }
}

/// Rows that match have keys with no `Null` component, so both hash, and
/// their normal forms are equal componentwise, so they hash alike. This is
/// what lets the probe pass look a row's matches up by hash alone before
/// re-verifying each candidate by full key equality.
pub proof fn lemma_matching_rows_hash_alike(b: SpecRecord, p: SpecRecord, on: Seq<(usize, usize)>)
    requires
        row_matches(b, p, on),
    ensures
        row_hash(b, key_cols(on, true)) is Some,
        row_hash(b, key_cols(on, true)) == row_hash(p, key_cols(on, false)),
    decreases on.len(),
{
    let lc = key_cols(on, true);
    let rc = key_cols(on, false);
    if on.len() == 0 {
        assert(lc.len() == 0 && rc.len() == 0);
    } else {
        let d = on.drop_last();
        assert(row_matches(b, p, d)) by {
            assert(forall|k: int|
                0 <= k < d.len() ==> key_eq(
                    col_value(b, #[trigger] d[k].0 as int),
                    col_value(p, d[k].1 as int),
                )) by {
                assert(forall|k: int| 0 <= k < d.len() ==> d[k] == on[k]);
            }
        }
        lemma_matching_rows_hash_alike(b, p, d);
        assert(lc.drop_last() =~= key_cols(d, true));
        assert(rc.drop_last() =~= key_cols(d, false));
        let k = on.len() - 1;
        assert(key_eq(col_value(b, on[k].0 as int), col_value(p, on[k].1 as int)));
        assert(lc.last() == on[k].0);
        assert(rc.last() == on[k].1);
    }
}

/// Once a key column's component is `Null`, the whole row hash is `None`,
/// however many columns follow.
pub proof fn lemma_row_hash_absorbs_none(rec: SpecRecord, cols: Seq<usize>, j: int)
    requires
        0 <= j <= cols.len(),
        row_hash(rec, cols.take(j)) is None,
    ensures
        row_hash(rec, cols) is None,
    decreases cols.len() - j,
{
    if j == cols.len() {
        assert(cols.take(j) =~= cols);
    } else {
        assert(cols.take(j + 1).drop_last() =~= cols.take(j));
        lemma_row_hash_absorbs_none(rec, cols, j + 1);
    }
}

/// Computes the hash contribution of one key component: its class tag and
/// its normal-form hash, or `None` for `Null`.
fn component_hash(v: &ColumnValue) -> (r: Option<(u64, u64)>)
    ensures
        match r {
            Some(t) => norm(v@) matches Some(nv) && t.0 == norm_tag(nv) && t.1 == norm_hash(nv),
            None => norm(v@) is None,
        },
{
    match int_value_exec(v) {
        Some(i) => {
            let pattern: u64 = if i >= 0 {
                i as u64
            } else {
                ((i as i128) + 0x1_0000_0000_0000_0000i128) as u64
            };
            proof {
                assert(pattern as int == i as int % 0x1_0000_0000_0000_0000);
            }
            Some((1, pattern))
        },
        None => {
            match v {
                ColumnValue::Float64(b) => Some((2, bytes_hash_exec(b.as_slice()))),
                ColumnValue::Text(s) => Some((3, bytes_hash_exec(s.as_str().as_bytes()))),
                ColumnValue::Blob(b) => Some((4, bytes_hash_exec(b.as_slice()))),
                _ => None,
            }
        },
    }
}

/// Computes a record's key-tuple hash for one side of the join, or `None`
/// when a key component is `Null`.
pub fn row_hash_exec(rec: &crate::record::DataRecord, on: &Vec<(usize, usize)>, left: bool) -> (r:
    Option<u64>)
    ensures
        r == row_hash(rec@, key_cols(on@, left)),
{
    let cols = Ghost(key_cols(on@, left));
    let mut acc: u64 = 0x517c_c1b7_2722_0a95;
    let n = on.len();
    let mut k: usize = 0;
    proof {
        assert(cols@.take(0) =~= Seq::<usize>::empty());
    }
    while k < n
        invariant
            k <= n,
            n == on@.len(),
            cols@ == key_cols(on@, left),
            cols@.len() == n,
            row_hash(rec@, cols@.take(k as int)) == Some(acc),
        decreases n - k,
    {
        let c = if left {
            on[k].0
        } else {
            on[k].1
        };
        proof {
            assert(cols@[k as int] == c);
            assert(cols@.take(k + 1).drop_last() =~= cols@.take(k as int));
            assert(cols@.take(k + 1).last() == c);
        }
        match component_hash(get_col(rec, c)) {
            Some(t) => {
                acc = (acc ^ t.0).wrapping_mul(0x100_0000_01b3u64);
                acc = (acc ^ t.1).wrapping_mul(0x100_0000_01b3u64);
            },
            None => {
                proof {
                    lemma_row_hash_absorbs_none(rec@, cols@, k + 1);
                }
                return None;
            },
        }
        k = k + 1;
    }
    proof {
        assert(cols@.take(n as int) =~= cols@);
    }
    Some(acc)
}

/// Decides whether a build row and a probe row match on every join pair.
pub fn row_matches_exec(
    b: &crate::record::DataRecord,
    p: &crate::record::DataRecord,
    on: &Vec<(usize, usize)>,
) -> (r: bool)
    ensures
        r == row_matches(b@, p@, on@),
{
    let n = on.len();
    let mut k: usize = 0;
    while k < n
        invariant
            k <= n,
            n == on@.len(),
            forall|j: int|
                0 <= j < k ==> key_eq(
                    col_value(b@, #[trigger] on@[j].0 as int),
                    col_value(p@, on@[j].1 as int),
                ),
        decreases n - k,
    {
        let lv = get_col(b, on[k].0);
        let rv = get_col(p, on[k].1);
        if !key_eq_exec(lv, rv) {
            return false;
        }
        k = k + 1;
    }
    true
}

/// The structural hash of a byte string.
fn bytes_hash_exec(s: &[u8]) -> (r: u64)
    ensures
        r == bytes_hash(s@),
{
    let mut acc: u64 = 0xcbf2_9ce4_8422_2325;
    let n = s.len();
    let mut i: usize = 0;
    proof {
        assert(s@.take(0) =~= Seq::<u8>::empty());
    }
    while i < n
        invariant
            i <= n,
            n == s@.len(),
            acc == bytes_hash(s@.take(i as int)),
        decreases n - i,
    {
        proof {
            assert(s@.take(i + 1).drop_last() =~= s@.take(i as int));
            assert(s@.take(i + 1).last() == s@[i as int]);
        }
        acc = (acc ^ (s[i] as u64)).wrapping_mul(0x100_0000_01b3u64);
        i = i + 1;
    }
    proof {
        assert(s@.take(n as int) =~= s@);
    }
    acc
}

/// Byte-string equality.
fn bytes_eq(a: &[u8], b: &[u8]) -> (r: bool)
    ensures
        r == (a@ == b@),
{
    if a.len() != b.len() {
        proof {
            assert(a@.len() != b@.len());
        }
        return false;
    }
    let n = a.len();
    let mut i: usize = 0;
    while i < n
        invariant
            i <= n,
            n == a@.len(),
            n == b@.len(),
            forall|k: int| 0 <= k < i ==> a@[k] == b@[k],
        decreases n - i,
    {
        if a[i] != b[i] {
            return false;
        }
        i = i + 1;
    }
    proof {
        assert(a@ =~= b@);
    }
    true
}

} // verus!
