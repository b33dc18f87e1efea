//! The equi hash join: build one side into a hash multimap keyed by the
//! structural hash of each row's key tuple, stream the other side against
//! it, re-verify every hash candidate by full key equality, and emit rows
//! per join type.
//!
//! Output order: `Inner` and `Right` output is probe-row-major, with the
//! matches of one probe row in build insertion order; `Left`, `Semi` and
//! `Anti` output is build-row-major, with the matches of one build row in
//! probe order; `Full` appends the unmatched build rows, in build order,
//! after the probe-row-major pass.

use vstd::prelude::*;

use std::collections::HashMap;

use crate::column_value::ColumnValue;
use crate::column_value::SpecValue;
use crate::error::Error;
use crate::key::key_cols;
use crate::key::lemma_matching_rows_hash_alike;
use crate::key::row_hash;
use crate::key::row_hash_exec;
use crate::key::row_matches;
use crate::key::row_matches_exec;
use crate::exec::spec_schema;
use crate::exec::Exec;
use crate::record::clone_schema_column;
use crate::record::clone_value;
use crate::record::compatible_classes;
use crate::record::views_of;
use crate::record::DataRecord;
use crate::record::Schema;
use crate::record::SchemaColumn;
use crate::record::SpecColumn;
use crate::record::SpecRecord;
use crate::record::StorageClass;

verus! {

/// The kind of join to perform.
#[derive(Clone, Copy, Debug, PartialEq, Eq, Structural)]
pub enum JoinType {
    Inner,
    Left,
    Right,
    Full,
    Semi,
    Anti,
}

/// A build row and a probe row side by side: the combined output row, with
/// no row identifier and a header-byte count of zero.
pub open spec fn combine(b: SpecRecord, p: SpecRecord) -> SpecRecord {
    SpecRecord { values: b.values + p.values, rowid: None, num_header_bytes: 0 }
}

/// `w` columns of `Null`.
pub open spec fn null_values(w: nat) -> Seq<SpecValue> {
    Seq::new(w, |i: int| SpecValue::Null)
}

/// A probe row emitted without a build match: the left side Null-filled.
pub open spec fn left_null_extended(p: SpecRecord, lw: nat) -> SpecRecord {
    SpecRecord { values: null_values(lw) + p.values, rowid: None, num_header_bytes: 0 }
}

/// A build row emitted without a probe match: the right side Null-filled.
pub open spec fn right_null_extended(b: SpecRecord, rw: nat) -> SpecRecord {
    SpecRecord { values: b.values + null_values(rw), rowid: None, num_header_bytes: 0 }
}

/// The indices of the first `n` build rows that match probe row `p`, in
/// build insertion order.
pub open spec fn match_indices(
    build: Seq<SpecRecord>,
    p: SpecRecord,
    on: Seq<(usize, usize)>,
    n: int,
) -> Seq<usize>
    decreases n,
{
    if n <= 0 {
        Seq::empty()
    } else {
        match_indices(build, p, on, n - 1) + if row_matches(build[n - 1], p, on) {
            seq![(n - 1) as usize]
        } else {
            Seq::empty()
        }
    }
}

/// The indices of the first `n` probe rows that match build row `b`, in
/// probe order.
pub open spec fn probe_match_indices(
    probe: Seq<SpecRecord>,
    b: SpecRecord,
    on: Seq<(usize, usize)>,
    n: int,
) -> Seq<usize>
    decreases n,
{
    if n <= 0 {
        Seq::empty()
    } else {
        probe_match_indices(probe, b, on, n - 1) + if row_matches(b, probe[n - 1], on) {
            seq![(n - 1) as usize]
        } else {
            Seq::empty()
        }
    }
}

/// What one probe row adds to a probe-major pass: its matches combined with
/// it, in build order; or, when it matches nothing and the pass emits
/// unmatched probe rows (`Right`, `Full`), the row once, left side
/// Null-filled.
pub open spec fn probe_one(
    build: Seq<SpecRecord>,
    p: SpecRecord,
    on: Seq<(usize, usize)>,
    lw: nat,
    emit_unmatched: bool,
) -> Seq<SpecRecord> {
    let mi = match_indices(build, p, on, build.len() as int);
    if mi.len() > 0 {
        mi.map_values(|j: usize| combine(build[j as int], p))
    } else if emit_unmatched {
        seq![left_null_extended(p, lw)]
    } else {
        Seq::empty()
    }
}

/// The probe-row-major pass over the first `n` probe rows.
pub open spec fn probe_major(
    build: Seq<SpecRecord>,
    probe: Seq<SpecRecord>,
    on: Seq<(usize, usize)>,
    lw: nat,
    emit_unmatched: bool,
    n: int,
) -> Seq<SpecRecord>
    decreases n,
{
    if n <= 0 {
        Seq::empty()
    } else {
        probe_major(build, probe, on, lw, emit_unmatched, n - 1) + probe_one(
            build,
            probe[n - 1],
            on,
            lw,
            emit_unmatched,
        )
    }
}

/// What one build row adds to a build-major (`Left`) pass: its matches
/// combined with it, in probe order; or the row once, right side
/// Null-filled, when it matches nothing.
pub open spec fn left_one(
    b: SpecRecord,
    probe: Seq<SpecRecord>,
    on: Seq<(usize, usize)>,
    rw: nat,
) -> Seq<SpecRecord> {
    let pm = probe_match_indices(probe, b, on, probe.len() as int);
    if pm.len() > 0 {
        pm.map_values(|i: usize| combine(b, probe[i as int]))
    } else {
        seq![right_null_extended(b, rw)]
    }
}

/// The build-row-major pass over the first `n` build rows.
pub open spec fn left_major(
    build: Seq<SpecRecord>,
    probe: Seq<SpecRecord>,
    on: Seq<(usize, usize)>,
    rw: nat,
    n: int,
) -> Seq<SpecRecord>
    decreases n,
{
    if n <= 0 {
        Seq::empty()
    } else {
        left_major(build, probe, on, rw, n - 1) + left_one(build[n - 1], probe, on, rw)
    }
}

/// Whether a build row matches at least one probe row.
pub open spec fn matched_in(b: SpecRecord, probe: Seq<SpecRecord>, on: Seq<(usize, usize)>) -> bool {
    probe_match_indices(probe, b, on, probe.len() as int).len() > 0
}

/// The first `n` build rows that the probe side did (`keep_matched`) or did
/// not match, each once, in build order, unchanged.
pub open spec fn filtered_build(
    build: Seq<SpecRecord>,
    probe: Seq<SpecRecord>,
    on: Seq<(usize, usize)>,
    keep_matched: bool,
    n: int,
) -> Seq<SpecRecord>
    decreases n,
{
    if n <= 0 {
        Seq::empty()
    } else {
        filtered_build(build, probe, on, keep_matched, n - 1) + if matched_in(
            build[n - 1],
            probe,
            on,
        ) == keep_matched {
            seq![build[n - 1]]
        } else {
            Seq::empty()
        }
    }
}

/// The unmatched build rows a `Full` join appends after its probe pass,
/// right side Null-filled, in build order.
pub open spec fn full_extra(
    build: Seq<SpecRecord>,
    probe: Seq<SpecRecord>,
    on: Seq<(usize, usize)>,
    rw: nat,
    n: int,
) -> Seq<SpecRecord>
    decreases n,
{
    if n <= 0 {
        Seq::empty()
    } else {
        full_extra(build, probe, on, rw, n - 1) + if !matched_in(build[n - 1], probe, on) {
            seq![right_null_extended(build[n - 1], rw)]
        } else {
            Seq::empty()
        }
    }
}

/// In a `Left` join's build-row-major output, a build row the probe side
/// never matched contributes exactly one row: itself, with the probe-side
/// columns `Null`-filled. A matched build row contributes its matches and
/// no such null-extended row.
pub proof fn lemma_left_join_unmatched_once(
    b: SpecRecord,
    probe: Seq<SpecRecord>,
    on: Seq<(usize, usize)>,
    rw: nat,
)
    ensures
        !matched_in(b, probe, on) ==> left_one(b, probe, on, rw) == seq![
            right_null_extended(b, rw),
        ],
        matched_in(b, probe, on) ==> left_one(b, probe, on, rw).len() == probe_match_indices(
            probe,
            b,
            on,
            probe.len() as int,
        ).len(),
{
}

/// The rows an equi hash join of the given type outputs, given the build
/// rows, the probe rows, the join column pairs, and the two sides' schema
/// widths (used to Null-fill the side an outer row lacks).
pub open spec fn join_spec(
    join_type: JoinType,
    build: Seq<SpecRecord>,
    probe: Seq<SpecRecord>,
    on: Seq<(usize, usize)>,
    lw: nat,
    rw: nat,
) -> Seq<SpecRecord> {
    match join_type {
        JoinType::Inner => probe_major(build, probe, on, lw, false, probe.len() as int),
        JoinType::Right => probe_major(build, probe, on, lw, true, probe.len() as int),
        JoinType::Full => probe_major(build, probe, on, lw, true, probe.len() as int) + full_extra(
            build,
            probe,
            on,
            rw,
            build.len() as int,
        ),
        JoinType::Left => left_major(build, probe, on, rw, build.len() as int),
        JoinType::Semi => filtered_build(build, probe, on, true, build.len() as int),
        JoinType::Anti => filtered_build(build, probe, on, false, build.len() as int),
    }
}

// ---- the hash index ----

/// The bucket the index holds under hash `h` after the first `n` rows: the
/// indices, in insertion order, of the rows whose key tuple hashes to `h`.
/// A row whose key has a `Null` component hashes to nothing and is excluded.
pub open spec fn bucket_spec(
    rows: Seq<SpecRecord>,
    cols: Seq<usize>,
    n: int,
    h: u64,
) -> Seq<usize>
    decreases n,
{
    if n <= 0 {
        Seq::empty()
    } else {
        bucket_spec(rows, cols, n - 1, h) + if row_hash(rows[n - 1], cols) == Some(h) {
            seq![(n - 1) as usize]
        } else {
            Seq::empty()
        }
    }
}

/// The index is exactly the buckets of the first `n` rows.
pub open spec fn index_wf(
    m: Map<u64, Vec<usize>>,
    rows: Seq<SpecRecord>,
    cols: Seq<usize>,
    n: int,
) -> bool {
    &&& forall|h: u64| #[trigger]
        m.contains_key(h) ==> m[h]@ == bucket_spec(rows, cols, n, h)
    &&& forall|h: u64| !(#[trigger] m.contains_key(h)) ==> bucket_spec(rows, cols, n, h).len()
        == 0
}

/// Every index a bucket holds is below the number of rows indexed.
pub proof fn lemma_bucket_elems(rows: Seq<SpecRecord>, cols: Seq<usize>, n: int, h: u64)
    requires
        n <= usize::MAX as int,
    ensures
        forall|k: int|
            0 <= k < bucket_spec(rows, cols, n, h).len() ==> (#[trigger] bucket_spec(
                rows,
                cols,
                n,
                h,
            )[k] as int) < n,
    decreases n,
{
    if n > 0 {
        lemma_bucket_elems(rows, cols, n - 1, h);
        let prev = bucket_spec(rows, cols, n - 1, h);
        let cur = bucket_spec(rows, cols, n, h);
        assert forall|k: int| 0 <= k < cur.len() implies (cur[k] as int) < n by {
            if k < prev.len() {
                assert(cur[k] == prev[k]);
            } else {
                assert(cur[k] == (n - 1) as usize);
            }
        }
    }
}

/// The candidates of a bucket that full key equality confirms, in order.
pub open spec fn filter_bucket_build(
    bkt: Seq<usize>,
    build: Seq<SpecRecord>,
    p: SpecRecord,
    on: Seq<(usize, usize)>,
) -> Seq<usize>
    decreases bkt.len(),
{
    if bkt.len() == 0 {
        Seq::empty()
    } else {
        filter_bucket_build(bkt.drop_last(), build, p, on) + if row_matches(
            build[bkt.last() as int],
            p,
            on,
        ) {
            seq![bkt.last()]
        } else {
            Seq::empty()
        }
    }
}

/// The candidates of a probe-side bucket that full key equality confirms.
pub open spec fn filter_bucket_probe(
    bkt: Seq<usize>,
    probe: Seq<SpecRecord>,
    b: SpecRecord,
    on: Seq<(usize, usize)>,
) -> Seq<usize>
    decreases bkt.len(),
{
    if bkt.len() == 0 {
        Seq::empty()
    } else {
        filter_bucket_probe(bkt.drop_last(), probe, b, on) + if row_matches(
            b,
            probe[bkt.last() as int],
            on,
        ) {
            seq![bkt.last()]
        } else {
            Seq::empty()
        }
    }
}

/// Looking a probe row's hash up and re-verifying each candidate by key
/// equality finds exactly the matching build rows: a matching row always
/// lands in the bucket that is looked up, because matching rows hash alike.
pub proof fn lemma_filter_bucket_build(
    build: Seq<SpecRecord>,
    p: SpecRecord,
    on: Seq<(usize, usize)>,
    n: int,
    h: u64,
)
    requires
        row_hash(p, key_cols(on, false)) == Some(h),
        n <= usize::MAX as int,
    ensures
        filter_bucket_build(bucket_spec(build, key_cols(on, true), n, h), build, p, on)
            == match_indices(build, p, on, n),
    decreases n,
{
    if n > 0 {
        lemma_filter_bucket_build(build, p, on, n - 1, h);
        let lc = key_cols(on, true);
        let bkt = bucket_spec(build, lc, n, h);
        let prev = bucket_spec(build, lc, n - 1, h);
        if row_hash(build[n - 1], lc) == Some(h) {
            assert(bkt =~= prev.push((n - 1) as usize));
            assert(bkt.drop_last() =~= prev);
            assert(bkt.last() == (n - 1) as usize);
        } else {
            assert(bkt =~= prev);
            if row_matches(build[n - 1], p, on) {
                lemma_matching_rows_hash_alike(build[n - 1], p, on);
                assert(false);
            }
        }
    }
}

/// The same, looking a build row up in an index of the probe rows.
pub proof fn lemma_filter_bucket_probe(
    probe: Seq<SpecRecord>,
    b: SpecRecord,
    on: Seq<(usize, usize)>,
    n: int,
    h: u64,
)
    requires
        row_hash(b, key_cols(on, true)) == Some(h),
        n <= usize::MAX as int,
    ensures
        filter_bucket_probe(bucket_spec(probe, key_cols(on, false), n, h), probe, b, on)
            == probe_match_indices(probe, b, on, n),
    decreases n,
{
    if n > 0 {
        lemma_filter_bucket_probe(probe, b, on, n - 1, h);
        let rc = key_cols(on, false);
        let bkt = bucket_spec(probe, rc, n, h);
        let prev = bucket_spec(probe, rc, n - 1, h);
        if row_hash(probe[n - 1], rc) == Some(h) {
            assert(bkt =~= prev.push((n - 1) as usize));
            assert(bkt.drop_last() =~= prev);
            assert(bkt.last() == (n - 1) as usize);
        } else {
            assert(bkt =~= prev);
            if row_matches(b, probe[n - 1], on) {
                lemma_matching_rows_hash_alike(b, probe[n - 1], on);
                assert(false);
            }
        }
    }
}

/// A row whose key has a `Null` component matches no build row.
pub proof fn lemma_null_probe_matches_nothing(
    build: Seq<SpecRecord>,
    p: SpecRecord,
    on: Seq<(usize, usize)>,
    n: int,
)
    requires
        row_hash(p, key_cols(on, false)) is None,
    ensures
        match_indices(build, p, on, n).len() == 0,
    decreases n,
{
    if n > 0 {
        lemma_null_probe_matches_nothing(build, p, on, n - 1);
        if row_matches(build[n - 1], p, on) {
            lemma_matching_rows_hash_alike(build[n - 1], p, on);
        }
    }
}

/// A build row whose key has a `Null` component matches no probe row.
pub proof fn lemma_null_build_matches_nothing(
    probe: Seq<SpecRecord>,
    b: SpecRecord,
    on: Seq<(usize, usize)>,
    n: int,
)
    requires
        row_hash(b, key_cols(on, true)) is None,
    ensures
        probe_match_indices(probe, b, on, n).len() == 0,
    decreases n,
{
    if n > 0 {
        lemma_null_build_matches_nothing(probe, b, on, n - 1);
        if row_matches(b, probe[n - 1], on) {
            lemma_matching_rows_hash_alike(b, probe[n - 1], on);
        }
    }
}

/// Builds the hash index over one side's rows: a multimap from key-tuple
/// hash to the indices of the rows with that hash, in insertion order,
/// leaving out every row whose key has a `Null` component.
fn build_index(rows: &Vec<DataRecord>, on: &Vec<(usize, usize)>, left: bool) -> (m: HashMap<
    u64,
    Vec<usize>,
>)
    ensures
        index_wf(m@, views_of(rows@), key_cols(on@, left), rows@.len() as int),
{
    broadcast use vstd::std_specs::hash::group_hash_axioms;

    let ghost vrows = views_of(rows@);
    let ghost cols = key_cols(on@, left);
    let mut m: HashMap<u64, Vec<usize>> = HashMap::new();
    let n = rows.len();
    let mut j: usize = 0;
    while j < n
        invariant
            j <= n,
            n == rows@.len(),
            vrows == views_of(rows@),
            cols == key_cols(on@, left),
            index_wf(m@, vrows, cols, j as int),
        decreases n - j,
    {
        match row_hash_exec(&rows[j], on, left) {
            Some(h) => {
                let ghost old_m = m@;
                let mut bucket: Vec<usize> = match m.remove(&h) {
                    Some(b) => b,
                    None => Vec::new(),
                };
                proof {
                    assert(bucket@ =~= bucket_spec(vrows, cols, j as int, h));
                }
                bucket.push(j);
                m.insert(h, bucket);
                proof {
                    assert(vrows[j as int] == rows@[j as int]@);
                    assert forall|h2: u64| #[trigger] m@.contains_key(h2) implies m@[h2]@
                        == bucket_spec(vrows, cols, j + 1, h2) by {
                        if h2 == h {
                            assert(bucket_spec(vrows, cols, j + 1, h) =~= bucket_spec(
                                vrows,
                                cols,
                                j as int,
                                h,
                            ).push(j));
                        } else {
                            assert(bucket_spec(vrows, cols, j + 1, h2) =~= bucket_spec(
                                vrows,
                                cols,
                                j as int,
                                h2,
                            ));
                            assert(old_m.contains_key(h2) ==> old_m[h2] == m@[h2]);
                        }
                    }
                    assert forall|h2: u64| !(#[trigger] m@.contains_key(h2)) implies bucket_spec(
                        vrows,
                        cols,
                        j + 1,
                        h2,
                    ).len() == 0 by {
                        assert(h2 != h);
                        assert(bucket_spec(vrows, cols, j + 1, h2) =~= bucket_spec(
                            vrows,
                            cols,
                            j as int,
                            h2,
                        ));
                    }
                }
            },
            None => {
                proof {
                    assert(vrows[j as int] == rows@[j as int]@);
                    assert forall|h2: u64| true implies bucket_spec(vrows, cols, j + 1, h2)
                        =~= bucket_spec(vrows, cols, j as int, h2) by {}
                }
            },
        }
        j = j + 1;
    }
    m
}

/// Finds the build rows that match one probe row: the bucket the probe
/// row's key hash selects, each candidate re-verified by full key-tuple
/// equality. Returns their indices in build insertion order; a probe row
/// whose key has a `Null` component matches nothing.
fn matching_build_rows(
    m: &HashMap<u64, Vec<usize>>,
    build: &Vec<DataRecord>,
    p: &DataRecord,
    on: &Vec<(usize, usize)>,
) -> (ms: Vec<usize>)
    requires
        index_wf(m@, views_of(build@), key_cols(on@, true), build@.len() as int),
    ensures
        ms@ == match_indices(views_of(build@), p@, on@, build@.len() as int),
        forall|k: int| 0 <= k < ms@.len() ==> (ms@[k] as int) < build@.len(),
{
    broadcast use vstd::std_specs::hash::group_hash_axioms;

    let ghost vbuild = views_of(build@);
    let nb = build.len();
    proof {
        lemma_bucket_elems(vbuild, key_cols(on@, true), nb as int, 0);
    }
    match row_hash_exec(p, on, false) {
        None => {
            proof {
                lemma_null_probe_matches_nothing(vbuild, p@, on@, nb as int);
                assert(match_indices(vbuild, p@, on@, nb as int) =~= Seq::<usize>::empty());
            }
            Vec::new()
        },
        Some(h) => {
            proof {
                lemma_filter_bucket_build(vbuild, p@, on@, nb as int, h);
                lemma_bucket_elems(vbuild, key_cols(on@, true), nb as int, h);
            }
            match m.get(&h) {
                None => {
                    proof {
                        assert(bucket_spec(vbuild, key_cols(on@, true), nb as int, h) =~= Seq::<
                            usize,
                        >::empty());
                        assert(match_indices(vbuild, p@, on@, nb as int) =~= Seq::<usize>::empty());
                    }
                    Vec::new()
                },
                Some(bucket) => {
                    let ghost bkt = bucket@;
                    let mut ms: Vec<usize> = Vec::new();
                    let nbk = bucket.len();
                    let mut k: usize = 0;
                    proof {
                        assert(bkt.take(0) =~= Seq::<usize>::empty());
                    }
                    while k < nbk
                        invariant
                            k <= nbk,
                            nbk == bkt.len(),
                            bkt == bucket@,
                            bkt == bucket_spec(vbuild, key_cols(on@, true), nb as int, h),
                            nb == build@.len(),
                            vbuild == views_of(build@),
                            forall|k2: int| 0 <= k2 < bkt.len() ==> (bkt[k2] as int) < nb,
                            ms@ == filter_bucket_build(bkt.take(k as int), vbuild, p@, on@),
                            forall|k2: int| 0 <= k2 < ms@.len() ==> (ms@[k2] as int) < nb,
                        decreases nbk - k,
                    {
                        proof {
                            assert(bkt.take(k + 1).drop_last() =~= bkt.take(k as int));
                            assert(bkt.take(k + 1).last() == bkt[k as int]);
                        }
                        let j = bucket[k];
                        if row_matches_exec(&build[j], p, on) {
                            ms.push(j);
                        }
                        k = k + 1;
                    }
                    proof {
                        assert(bkt.take(nbk as int) =~= bkt);
                    }
                    ms
                },
            }
        },
    }
}

/// Finds the probe rows that match one build row, against an index of the
/// probe side, in probe order; used by the build-row-major join types.
fn matching_probe_rows(
    m: &HashMap<u64, Vec<usize>>,
    probe: &Vec<DataRecord>,
    b: &DataRecord,
    on: &Vec<(usize, usize)>,
) -> (ms: Vec<usize>)
    requires
        index_wf(m@, views_of(probe@), key_cols(on@, false), probe@.len() as int),
    ensures
        ms@ == probe_match_indices(views_of(probe@), b@, on@, probe@.len() as int),
        forall|k: int| 0 <= k < ms@.len() ==> (ms@[k] as int) < probe@.len(),
{
    broadcast use vstd::std_specs::hash::group_hash_axioms;

    let ghost vprobe = views_of(probe@);
    let np = probe.len();
    match row_hash_exec(b, on, true) {
        None => {
            proof {
                lemma_null_build_matches_nothing(vprobe, b@, on@, np as int);
                assert(probe_match_indices(vprobe, b@, on@, np as int) =~= Seq::<usize>::empty());
            }
            Vec::new()
        },
        Some(h) => {
            proof {
                lemma_filter_bucket_probe(vprobe, b@, on@, np as int, h);
                lemma_bucket_elems(vprobe, key_cols(on@, false), np as int, h);
            }
            match m.get(&h) {
                None => {
                    proof {
                        assert(bucket_spec(vprobe, key_cols(on@, false), np as int, h) =~= Seq::<
                            usize,
                        >::empty());
                        assert(probe_match_indices(vprobe, b@, on@, np as int) =~= Seq::<
                            usize,
                        >::empty());
                    }
                    Vec::new()
                },
                Some(bucket) => {
                    let ghost bkt = bucket@;
                    let mut ms: Vec<usize> = Vec::new();
                    let nbk = bucket.len();
                    let mut k: usize = 0;
                    proof {
                        assert(bkt.take(0) =~= Seq::<usize>::empty());
                    }
                    while k < nbk
                        invariant
                            k <= nbk,
                            nbk == bkt.len(),
                            bkt == bucket@,
                            bkt == bucket_spec(vprobe, key_cols(on@, false), np as int, h),
                            np == probe@.len(),
                            vprobe == views_of(probe@),
                            forall|k2: int| 0 <= k2 < bkt.len() ==> (bkt[k2] as int) < np,
                            ms@ == filter_bucket_probe(bkt.take(k as int), vprobe, b@, on@),
                            forall|k2: int| 0 <= k2 < ms@.len() ==> (ms@[k2] as int) < np,
                        decreases nbk - k,
                    {
                        proof {
                            assert(bkt.take(k + 1).drop_last() =~= bkt.take(k as int));
                            assert(bkt.take(k + 1).last() == bkt[k as int]);
                        }
                        let i = bucket[k];
                        if row_matches_exec(b, &probe[i], on) {
                            ms.push(i);
                        }
                        k = k + 1;
                    }
                    proof {
                        assert(bkt.take(nbk as int) =~= bkt);
                    }
                    ms
                },
            }
        },
    }
}

/// Builds the combined output row of a build row and a probe row.
fn combine_records(b: &DataRecord, p: &DataRecord) -> (r: DataRecord)
    ensures
        r@ == combine(b@, p@),
{
    let mut values: Vec<ColumnValue> = Vec::new();
    let nb = b.values.len();
    let mut i: usize = 0;
    while i < nb
        invariant
            i <= nb,
            nb == b.values@.len(),
            values@.len() == i as int,
            forall|k: int| 0 <= k < i ==> values@[k]@ == b.values@[k]@,
        decreases nb - i,
    {
        values.push(clone_value(&b.values[i]));
        i = i + 1;
    }
    let np = p.values.len();
    let mut j: usize = 0;
    while j < np
        invariant
            j <= np,
            np == p.values@.len(),
            nb == b.values@.len(),
            values@.len() == nb + j,
            forall|k: int| 0 <= k < nb ==> values@[k]@ == b.values@[k]@,
            forall|k: int| 0 <= k < j ==> values@[nb + k]@ == p.values@[k]@,
        decreases np - j,
    {
        values.push(clone_value(&p.values[j]));
        j = j + 1;
    }
    let r = DataRecord { values, rowid: None, num_header_bytes: 0 };
    proof {
        assert(r@.values =~= b@.values + p@.values);
        assert(r@ =~= combine(b@, p@));
    }
    r
}

/// Builds a build row extended with `rw` `Null` columns on the right.
fn right_null_extend(b: &DataRecord, rw: usize) -> (r: DataRecord)
    ensures
        r@ == right_null_extended(b@, rw as nat),
{
    let mut values: Vec<ColumnValue> = Vec::new();
    let nb = b.values.len();
    let mut i: usize = 0;
    while i < nb
        invariant
            i <= nb,
            nb == b.values@.len(),
            values@.len() == i as int,
            forall|k: int| 0 <= k < i ==> values@[k]@ == b.values@[k]@,
        decreases nb - i,
    {
        values.push(clone_value(&b.values[i]));
        i = i + 1;
    }
    let mut j: usize = 0;
    while j < rw
        invariant
            j <= rw,
            nb == b.values@.len(),
            values@.len() == nb + j,
            forall|k: int| 0 <= k < nb ==> values@[k]@ == b.values@[k]@,
            forall|k: int| nb <= k < nb + j ==> (#[trigger] values@[k])@ == SpecValue::Null,
        decreases rw - j,
    {
        values.push(ColumnValue::Null);
        j = j + 1;
    }
    let r = DataRecord { values, rowid: None, num_header_bytes: 0 };
    proof {
        assert(r@.values =~~= b@.values + null_values(rw as nat));
        assert(r@ =~~= right_null_extended(b@, rw as nat));
    }
    r
}

/// Builds a probe row extended with `lw` `Null` columns on the left.
fn left_null_extend(p: &DataRecord, lw: usize) -> (r: DataRecord)
    ensures
        r@ == left_null_extended(p@, lw as nat),
{
    let mut values: Vec<ColumnValue> = Vec::new();
    let mut j: usize = 0;
    while j < lw
        invariant
            j <= lw,
            values@.len() == j as int,
            forall|k: int| 0 <= k < j ==> (#[trigger] values@[k])@ == SpecValue::Null,
        decreases lw - j,
    {
        values.push(ColumnValue::Null);
        j = j + 1;
    }
    let np = p.values.len();
    let mut i: usize = 0;
    while i < np
        invariant
            i <= np,
            np == p.values@.len(),
            values@.len() == lw + i,
            forall|k: int| 0 <= k < lw ==> (#[trigger] values@[k])@ == SpecValue::Null,
            forall|k: int| lw <= k < lw + i ==> (#[trigger] values@[k])@ == p.values@[k - lw]@,
        decreases np - i,
    {
        values.push(clone_value(&p.values[i]));
        i = i + 1;
    }
    let r = DataRecord { values, rowid: None, num_header_bytes: 0 };
    proof {
        assert(r@.values =~~= null_values(lw as nat) + p@.values);
        assert(r@ =~~= left_null_extended(p@, lw as nat));
    }
    r
}

/// The probe-row-major pass: index the build side, stream the probe side,
/// and emit every verified match (and, for the outer types, every unmatched
/// probe row once, left side Null-filled).
fn probe_pass(
    build: &Vec<DataRecord>,
    probe: &Vec<DataRecord>,
    on: &Vec<(usize, usize)>,
    left_width: usize,
    emit_unmatched: bool,
) -> (out: Vec<DataRecord>)
    ensures
        views_of(out@) == probe_major(
            views_of(build@),
            views_of(probe@),
            on@,
            left_width as nat,
            emit_unmatched,
            probe@.len() as int,
        ),
{
    let ghost vb = views_of(build@);
    let ghost vp = views_of(probe@);
    let ghost lw = left_width as nat;
    let index = build_index(build, on, true);
    let mut out: Vec<DataRecord> = Vec::new();
    let np = probe.len();
    let mut i: usize = 0;
    proof {
        assert(views_of(out@) =~= Seq::<SpecRecord>::empty());
    }
    while i < np
        invariant
            i <= np,
            np == probe@.len(),
            vb == views_of(build@),
            vp == views_of(probe@),
            lw == left_width as nat,
            index_wf(index@, vb, key_cols(on@, true), build@.len() as int),
            views_of(out@) == probe_major(vb, vp, on@, lw, emit_unmatched, i as int),
        decreases np - i,
    {
        let ghost prev = views_of(out@);
        let ms = matching_build_rows(&index, build, &probe[i], on);
        let ghost msv = ms@;
        proof {
            assert(vp[i as int] == probe@[i as int]@);
        }
        if ms.len() > 0 {
            let nm = ms.len();
            let mut k: usize = 0;
            while k < nm
                invariant
                    k <= nm,
                    nm == msv.len(),
                    msv == ms@,
                    vb == views_of(build@),
                    vp == views_of(probe@),
                    i < probe@.len(),
                    forall|k2: int| 0 <= k2 < msv.len() ==> (msv[k2] as int) < build@.len(),
                    out@.len() == prev.len() + k,
                    forall|m: int| 0 <= m < prev.len() ==> (#[trigger] out@[m])@ == prev[m],
                    forall|m: int|
                        prev.len() <= m < prev.len() + k ==> (#[trigger] out@[m])@ == combine(
                            vb[msv[m - prev.len()] as int],
                            vp[i as int],
                        ),
                decreases nm - k,
            {
                let j = ms[k];
                out.push(combine_records(&build[j], &probe[i]));
                k = k + 1;
            }
            proof {
                assert(views_of(out@) =~~= prev + probe_one(vb, vp[i as int], on@, lw,
                    emit_unmatched));
            }
        } else if emit_unmatched {
            let ghost pre = out@;
            out.push(left_null_extend(&probe[i], left_width));
            proof {
                assert(out@.drop_last() =~= pre);
                assert(views_of(out@) =~= prev + probe_one(vb, vp[i as int], on@, lw,
                    emit_unmatched));
            }
        } else {
            proof {
                assert(views_of(out@) =~= prev + probe_one(vb, vp[i as int], on@, lw,
                    emit_unmatched));
            }
        }
        i = i + 1;
    }
    out
}

/// The build-row-major pass a `Left` join uses: index the probe side, walk
/// the build rows in order, and emit each row's verified matches in probe
/// order, or the row once with the right side Null-filled.
fn left_pass(
    build: &Vec<DataRecord>,
    probe: &Vec<DataRecord>,
    on: &Vec<(usize, usize)>,
    right_width: usize,
) -> (out: Vec<DataRecord>)
    ensures
        views_of(out@) == left_major(
            views_of(build@),
            views_of(probe@),
            on@,
            right_width as nat,
            build@.len() as int,
        ),
{
    let ghost vb = views_of(build@);
    let ghost vp = views_of(probe@);
    let ghost rw = right_width as nat;
    let index = build_index(probe, on, false);
    let mut out: Vec<DataRecord> = Vec::new();
    let nb = build.len();
    let mut j: usize = 0;
    proof {
        assert(views_of(out@) =~= Seq::<SpecRecord>::empty());
    }
    while j < nb
        invariant
            j <= nb,
            nb == build@.len(),
            vb == views_of(build@),
            vp == views_of(probe@),
            rw == right_width as nat,
            index_wf(index@, vp, key_cols(on@, false), probe@.len() as int),
            views_of(out@) == left_major(vb, vp, on@, rw, j as int),
        decreases nb - j,
    {
        let ghost prev = views_of(out@);
        let ms = matching_probe_rows(&index, probe, &build[j], on);
        let ghost msv = ms@;
        proof {
            assert(vb[j as int] == build@[j as int]@);
        }
        if ms.len() > 0 {
            let nm = ms.len();
            let mut k: usize = 0;
            while k < nm
                invariant
                    k <= nm,
                    nm == msv.len(),
                    msv == ms@,
                    vb == views_of(build@),
                    vp == views_of(probe@),
                    j < build@.len(),
                    forall|k2: int| 0 <= k2 < msv.len() ==> (msv[k2] as int) < probe@.len(),
                    out@.len() == prev.len() + k,
                    forall|m: int| 0 <= m < prev.len() ==> (#[trigger] out@[m])@ == prev[m],
                    forall|m: int|
                        prev.len() <= m < prev.len() + k ==> (#[trigger] out@[m])@ == combine(
                            vb[j as int],
                            vp[msv[m - prev.len()] as int],
                        ),
                decreases nm - k,
            {
                let i = ms[k];
                out.push(combine_records(&build[j], &probe[i]));
                k = k + 1;
            }
            proof {
                assert(views_of(out@) =~~= prev + left_one(vb[j as int], vp, on@, rw));
            }
        } else {
            let ghost pre = out@;
            out.push(right_null_extend(&build[j], right_width));
            proof {
                assert(out@.drop_last() =~= pre);
                assert(views_of(out@) =~= prev + left_one(vb[j as int], vp, on@, rw));
            }
        }
        j = j + 1;
    }
    out
}

/// The build-row filter `Semi` and `Anti` joins share: index the probe
/// side, and emit each build row whose matched state equals `keep_matched`,
/// exactly once, unchanged, in build order.
fn filtered_build_pass(
    build: &Vec<DataRecord>,
    probe: &Vec<DataRecord>,
    on: &Vec<(usize, usize)>,
    keep_matched: bool,
) -> (out: Vec<DataRecord>)
    ensures
        views_of(out@) == filtered_build(
            views_of(build@),
            views_of(probe@),
            on@,
            keep_matched,
            build@.len() as int,
        ),
{
    let ghost vb = views_of(build@);
    let ghost vp = views_of(probe@);
    let index = build_index(probe, on, false);
    let mut out: Vec<DataRecord> = Vec::new();
    let nb = build.len();
    let mut j: usize = 0;
    proof {
        assert(views_of(out@) =~= Seq::<SpecRecord>::empty());
    }
    while j < nb
        invariant
            j <= nb,
            nb == build@.len(),
            vb == views_of(build@),
            vp == views_of(probe@),
            index_wf(index@, vp, key_cols(on@, false), probe@.len() as int),
            views_of(out@) == filtered_build(vb, vp, on@, keep_matched, j as int),
        decreases nb - j,
    {
        let ghost prev = views_of(out@);
        let ms = matching_probe_rows(&index, probe, &build[j], on);
        proof {
            assert(vb[j as int] == build@[j as int]@);
        }
        if (ms.len() > 0) == keep_matched {
            let ghost pre = out@;
            out.push(crate::record::clone_record(&build[j]));
            proof {
                assert(out@.drop_last() =~= pre);
            }
        }
        proof {
            assert(views_of(out@) =~= filtered_build(vb, vp, on@, keep_matched, j + 1));
        }
        j = j + 1;
    }
    out
}

/// The unmatched build rows a `Full` join appends after its probe pass.
fn full_extra_pass(
    build: &Vec<DataRecord>,
    probe: &Vec<DataRecord>,
    on: &Vec<(usize, usize)>,
    right_width: usize,
) -> (out: Vec<DataRecord>)
    ensures
        views_of(out@) == full_extra(
            views_of(build@),
            views_of(probe@),
            on@,
            right_width as nat,
            build@.len() as int,
        ),
{
    let ghost vb = views_of(build@);
    let ghost vp = views_of(probe@);
    let ghost rw = right_width as nat;
    let index = build_index(probe, on, false);
    let mut out: Vec<DataRecord> = Vec::new();
    let nb = build.len();
    let mut j: usize = 0;
    proof {
        assert(views_of(out@) =~= Seq::<SpecRecord>::empty());
    }
    while j < nb
        invariant
            j <= nb,
            nb == build@.len(),
            vb == views_of(build@),
            vp == views_of(probe@),
            rw == right_width as nat,
            index_wf(index@, vp, key_cols(on@, false), probe@.len() as int),
            views_of(out@) == full_extra(vb, vp, on@, rw, j as int),
        decreases nb - j,
    {
        let ms = matching_probe_rows(&index, probe, &build[j], on);
        proof {
            assert(vb[j as int] == build@[j as int]@);
        }
        if ms.len() == 0 {
            let ghost pre = out@;
            out.push(right_null_extend(&build[j], right_width));
            proof {
                assert(out@.drop_last() =~= pre);
            }
        }
        proof {
            assert(views_of(out@) =~= full_extra(vb, vp, on@, rw, j + 1));
        }
        j = j + 1;
    }
    out
}

/// Joins fully materialized build and probe rows: builds the hash index,
/// streams the other side against it re-verifying every candidate by full
/// key equality, and emits rows per join type with the ordering and
/// multiplicities of `join_spec`. The index lives only for this call.
pub fn hash_join_rows(
    build: &Vec<DataRecord>,
    probe: &Vec<DataRecord>,
    on: &Vec<(usize, usize)>,
    join_type: JoinType,
    left_width: usize,
    right_width: usize,
) -> (r: Vec<DataRecord>)
    ensures
        views_of(r@) == join_spec(
            join_type,
            views_of(build@),
            views_of(probe@),
            on@,
            left_width as nat,
            right_width as nat,
        ),
{
    match join_type {
        JoinType::Inner => probe_pass(build, probe, on, left_width, false),
        JoinType::Right => probe_pass(build, probe, on, left_width, true),
        JoinType::Full => {
            let mut out = probe_pass(build, probe, on, left_width, true);
            let ghost head = views_of(out@);
            let mut extra = full_extra_pass(build, probe, on, right_width);
            let ghost tail = views_of(extra@);
            out.append(&mut extra);
            proof {
                assert(views_of(out@) =~= head + tail);
            }
            out
        },
        JoinType::Left => left_pass(build, probe, on, right_width),
        JoinType::Semi => filtered_build_pass(build, probe, on, true),
        JoinType::Anti => filtered_build_pass(build, probe, on, false),
    }
}

/// The schema a join's output carries, fixed at construction: the left
/// columns followed by the right columns for `Inner`, `Left`, `Right` and
/// `Full`; the left columns alone for `Semi` and `Anti`.
pub open spec fn join_schema_spec(
    l: Seq<SpecColumn>,
    r: Seq<SpecColumn>,
    join_type: JoinType,
) -> Seq<SpecColumn> {
    match join_type {
        JoinType::Semi => l,
        JoinType::Anti => l,
        _ => l + r,
    }
}

/// The storage class a schema declares at a column position; a position the
/// schema does not have declares nothing (`Null`).
pub open spec fn decl_class(s: Seq<SpecColumn>, i: int) -> StorageClass {
    if 0 <= i < s.len() {
        s[i].column_type
    } else {
        StorageClass::Null
    }
}

/// Whether every join column pair's declared storage classes are
/// structurally compatible.
pub open spec fn on_compatible(
    l: Seq<SpecColumn>,
    r: Seq<SpecColumn>,
    on: Seq<(usize, usize)>,
) -> bool {
    forall|k: int|
        0 <= k < on.len() ==> compatible_classes(
            decl_class(l, #[trigger] on[k].0 as int),
            decl_class(r, on[k].1 as int),
        )
}

/// Decides structural compatibility of two declared storage classes.
fn compatible_exec(a: StorageClass, b: StorageClass) -> (r: bool)
    ensures
        r == compatible_classes(a, b),
{
    if a == b {
        true
    } else if a == StorageClass::Null || b == StorageClass::Null {
        true
    } else if a == StorageClass::Integer && b == StorageClass::Real {
        true
    } else if a == StorageClass::Real && b == StorageClass::Integer {
        true
    } else {
        false
    }
}

/// The hash join operator: the left child is the build side, the right
/// child the probe side, joined on equality over the given column pairs.
#[derive(Debug)]
pub struct ExecJoinHash {
    /// The left (build) side, which gets hashed.
    pub left: Box<Exec>,
    /// The right (probe) side, which is streamed against the hash index.
    pub right: Box<Exec>,
    /// The equi-join column pairs: (left column index, right column index).
    pub on: Vec<(usize, usize)>,
    /// The kind of join to perform.
    pub join_type: JoinType,
    /// The output schema, fixed at construction by `try_new`.
    pub schema: Schema,
}

impl ExecJoinHash {
    /// Validates a join's configuration and fixes its output schema, before
    /// any execution: an empty list of join column pairs is a
    /// `ConfigurationError`, and a pair whose declared column types are
    /// structurally incompatible is a `TypeMismatch`; either aborts the
    /// whole join here. Nothing is executed.
    pub fn try_new(
        left: Box<Exec>,
        right: Box<Exec>,
        on: Vec<(usize, usize)>,
        join_type: &JoinType,
    ) -> (r: Result<ExecJoinHash, Error>)
        ensures
            match r {
                Ok(j) => {
                    &&& on@.len() > 0
                    &&& on_compatible(spec_schema(*left), spec_schema(*right), on@)
                    &&& j.left == left
                    &&& j.right == right
                    &&& j.on == on
                    &&& j.join_type == *join_type
                    &&& j.schema@ == join_schema_spec(
                        spec_schema(*left),
                        spec_schema(*right),
                        *join_type,
                    )
                },
                Err(e) => {
                    ||| (e == Error::ConfigurationError && on@.len() == 0)
                    ||| (e == Error::TypeMismatch && on@.len() > 0 && !on_compatible(
                        spec_schema(*left),
                        spec_schema(*right),
                        on@,
                    ))
                },
            },
    {
        if on.len() == 0 {
            return Err(Error::ConfigurationError);
        }
        let ls = left.schema();
        let rs = right.schema();
        let n = on.len();
        let mut k: usize = 0;
        while k < n
            invariant
                k <= n,
                n == on@.len(),
                ls@ == spec_schema(*left),
                rs@ == spec_schema(*right),
                forall|m: int|
                    0 <= m < k ==> compatible_classes(
                        decl_class(ls@, #[trigger] on@[m].0 as int),
                        decl_class(rs@, on@[m].1 as int),
                    ),
            decreases n - k,
        {
            let lc = on[k].0;
            let rc = on[k].1;
            let lt = if lc < ls.columns.len() {
                ls.columns[lc].column_type
            } else {
                StorageClass::Null
            };
            let rt = if rc < rs.columns.len() {
                rs.columns[rc].column_type
            } else {
                StorageClass::Null
            };
            proof {
                assert(lt == decl_class(ls@, lc as int));
                assert(rt == decl_class(rs@, rc as int));
            }
            if !compatible_exec(lt, rt) {
                proof {
                    assert(!on_compatible(ls@, rs@, on@));
                }
                return Err(Error::TypeMismatch);
            }
            k = k + 1;
        }
        let semi_or_anti = match join_type {
            JoinType::Semi => true,
            JoinType::Anti => true,
            _ => false,
        };
        let mut columns: Vec<SchemaColumn> = Vec::new();
        let nl = ls.columns.len();
        let mut i: usize = 0;
        while i < nl
            invariant
                i <= nl,
                nl == ls.columns@.len(),
                columns@.len() == i as int,
                forall|m: int| 0 <= m < i ==> (#[trigger] columns@[m])@ == ls.columns@[m]@,
            decreases nl - i,
        {
            columns.push(clone_schema_column(&ls.columns[i]));
            i = i + 1;
        }
        if !semi_or_anti {
            let nr = rs.columns.len();
            let mut j: usize = 0;
            while j < nr
                invariant
                    j <= nr,
                    nr == rs.columns@.len(),
                    nl == ls.columns@.len(),
                    columns@.len() == nl + j,
                    forall|m: int| 0 <= m < nl ==> (#[trigger] columns@[m])@ == ls.columns@[m]@,
                    forall|m: int|
                        nl <= m < nl + j ==> (#[trigger] columns@[m])@ == rs.columns@[m - nl]@,
                decreases nr - j,
            {
                columns.push(clone_schema_column(&rs.columns[j]));
                j = j + 1;
            }
        }
        let schema = Schema { columns };
        proof {
            assert(schema@ =~= join_schema_spec(ls@, rs@, *join_type));
        }
        Ok(ExecJoinHash { left, right, on, join_type: *join_type, schema })
    }
}

} // verus!
