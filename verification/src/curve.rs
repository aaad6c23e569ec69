use vstd::prelude::*;

use crate::count::count_curve_keys;
use crate::model::{curve_absent, curve_round_trips, eq_curve, eq_key, FCurve, FCurveKey};
use crate::scalar::{eq_scalar, is_zero_scalar, scalar_eq, scalar_is_zero};

verus! {

/// A flattened curve record: a sample count and, when the count is not
/// zero, the index of the record's storage in the arena's scalar pool.
/// A zero-count record references no storage at all; it is the canonical
/// encoding of an absent or always-zero curve.
#[derive(Debug, Clone, Copy)]
pub struct FlatCurve {
    pub keys_count: u32,
    pub keys: Option<usize>,
}

/// A record is valid for a scalar pool of the given length when its
/// storage lies inside the pool: one scalar for a single-sample record,
/// three per sample otherwise (all frames contiguously, then all
/// value-tangent pairs contiguously).
pub open spec fn flat_curve_valid(pool_len: int, r: FlatCurve) -> bool {
    match r.keys {
        Option::None => r.keys_count == 0,
        Option::Some(k) => {
            &&& r.keys_count > 0
            &&& if r.keys_count == 1 {
                k + 1 <= pool_len
            } else {
                k + 3 * (r.keys_count as int) <= pool_len
            }
        },
    }
}

/// The samples a record denotes, read from the scalar pool: none for a
/// zero count; a single constant sample (frame zero, tangent zero) for
/// count one; otherwise `count` frames followed by `count` value-tangent
/// pairs, zipped by index.
pub open spec fn flat_curve_keys(pool: Seq<u32>, r: FlatCurve) -> Seq<FCurveKey> {
    match r.keys {
        Option::None => Seq::empty(),
        Option::Some(k) => {
            let n = r.keys_count as int;
            if n == 1 {
                seq![FCurveKey { frame: 0, value: pool[k as int], tangent: 0 }]
            } else {
                Seq::new(
                    n as nat,
                    |i: int|
                        FCurveKey {
                            frame: pool[k + i],
                            value: pool[k + n + 2 * i],
                            tangent: pool[k + n + 2 * i + 1],
                        },
                )
            }
        },
    }
}

/// The table of curve records already emitted into an arena: every record
/// is valid and holds at least one sample, so that a scan can compare a
/// candidate against each.
pub open spec fn curve_table_wf(pool: Seq<u32>, table: Seq<FlatCurve>) -> bool {
    forall|j: int|
        0 <= j < table.len() ==> flat_curve_valid(pool.len() as int, #[trigger] table[j])
            && table[j].keys_count > 0
}

/// A record valid for a pool stays valid for any extension of that pool
/// and denotes the same samples there: records never move once emitted.
pub proof fn lemma_flat_curve_stable(pool: Seq<u32>, longer: Seq<u32>, r: FlatCurve)
    requires
        flat_curve_valid(pool.len() as int, r),
        pool.is_prefix_of(longer),
    ensures
        flat_curve_valid(longer.len() as int, r),
        flat_curve_keys(longer, r) == flat_curve_keys(pool, r),
{
    match r.keys {
        Option::None => {},
        Option::Some(k) => {
            assert(flat_curve_keys(longer, r) =~= flat_curve_keys(pool, r));
        },
    }
}

/// Curve value equality is reflexive, symmetric and transitive.
pub proof fn lemma_eq_curve_equivalence(a: Seq<FCurveKey>, b: Seq<FCurveKey>, c: Seq<FCurveKey>)
    ensures
        eq_curve(a, a),
        eq_curve(a, b) == eq_curve(b, a),
        eq_curve(a, b) && eq_curve(b, c) ==> eq_curve(a, c),
{
}

/// Two structurally identical curves match the same emitted records, so a
/// scan that deduplicated the one deduplicates the other: flattening both
/// within one arena stores exactly one record.
pub proof fn law_curve_dedup(a: Seq<FCurveKey>, b: Seq<FCurveKey>, stored: Seq<FCurveKey>)
    requires
        eq_curve(a, b),
        eq_curve(a, stored),
    ensures
        eq_curve(b, stored),
{
    lemma_eq_curve_equivalence(a, b, stored);
    lemma_eq_curve_equivalence(b, a, stored);
}

/// Decides whether a curve equals, sample for sample, the samples an
/// emitted record denotes.  The cost is linear in the sample count; the
/// encoder below runs it against every earlier record.
pub fn fcurve_eq(c: &FCurve, pool: &Vec<u32>, r: &FlatCurve) -> (res: bool)
    requires
        flat_curve_valid(pool@.len() as int, *r),
    ensures
        res == eq_curve(c.keys@, flat_curve_keys(pool@, *r)),
{
    let n = c.keys.len();
    // bind the length so the verifier learns it fits a machine word
    let _pool_len = pool.len();
    match r.keys {
        Option::None => n == 0,
        Option::Some(k) => {
            if n != r.keys_count as usize {
                return false;
            }
            if n == 1 {
                scalar_eq(c.keys[0].value, pool[k])
            } else {
                let mut i: usize = 0;
                while i < n
                    invariant
                        n >= 2,
                        pool@.len() <= usize::MAX,
                        n == c.keys@.len(),
                        n == r.keys_count as usize,
                        0 <= i <= n,
                        r.keys == Option::Some(k),
                        flat_curve_valid(pool@.len() as int, *r),
                        forall|t: int| 0 <= t < i ==> eq_key(c.keys@[t], flat_curve_keys(pool@, *r)[t]),
                    decreases n - i,
                {
                    let key = c.keys[i];
                    if !scalar_eq(key.frame, pool[k + i]) || !scalar_eq(key.value, pool[k + n + 2 * i])
                        || !scalar_eq(key.tangent, pool[k + n + 2 * i + 1]) {
                        return false;
                    }
                    i += 1;
                }
                true
            }
        },
    }
}

/// Decodes an emitted record back into an owned curve: the exact samples
/// the record denotes.
pub fn decode_fcurve(pool: &Vec<u32>, r: &FlatCurve) -> (c: FCurve)
    requires
        flat_curve_valid(pool@.len() as int, *r),
    ensures
        c.keys@ == flat_curve_keys(pool@, *r),
{
    // bind the length so the verifier learns it fits a machine word
    let _pool_len = pool.len();
    match r.keys {
        Option::None => {
            let keys: Vec<FCurveKey> = Vec::new();
            assert(keys@ =~= flat_curve_keys(pool@, *r));
            FCurve { keys }
        },
        Option::Some(k) => {
            if r.keys_count == 1 {
                let mut keys: Vec<FCurveKey> = Vec::new();
                keys.push(FCurveKey { frame: 0, value: pool[k], tangent: 0 });
                assert(keys@ =~= flat_curve_keys(pool@, *r));
                FCurve { keys }
            } else {
                let n = r.keys_count as usize;
                let mut keys: Vec<FCurveKey> = Vec::new();
                let mut i: usize = 0;
                while i < n
                    invariant
                        n >= 2,
                        pool@.len() <= usize::MAX,
                        n == r.keys_count as usize,
                        0 <= i <= n,
                        r.keys == Option::Some(k),
                        flat_curve_valid(pool@.len() as int, *r),
                        keys@.len() == i,
                        forall|t: int| 0 <= t < i ==> keys@[t] == flat_curve_keys(pool@, *r)[t],
                    decreases n - i,
                {
                    keys.push(
                        FCurveKey {
                            frame: pool[k + i],
                            value: pool[k + n + 2 * i],
                            tangent: pool[k + n + 2 * i + 1],
                        },
                    );
                    i += 1;
                }
                assert(keys@ =~= flat_curve_keys(pool@, *r));
                FCurve { keys }
            }
        },
    }
}

/// Encodes a curve into the arena's scalar pool, deduplicating against
/// every record already in the table.
///
/// An absent curve (no samples, or one zero-valued sample) becomes the
/// zero-count record and touches nothing.  Otherwise the encoder scans
/// the table; on the first value-equal record it returns that record's
/// storage and again touches nothing; only a genuinely new curve appends
/// its scalars to the pool and its record to the table.
pub fn alloc_fcurve(c: &FCurve, pool: &mut Vec<u32>, table: &mut Vec<FlatCurve>) -> (r: FlatCurve)
    requires
        curve_table_wf(old(pool)@, old(table)@),
        c.keys@.len() <= u32::MAX,
        old(pool)@.len() + count_curve_keys(c.keys@) <= usize::MAX,
    ensures
        old(pool)@.is_prefix_of(final(pool)@),
        old(table)@.is_prefix_of(final(table)@),
        curve_table_wf(final(pool)@, final(table)@),
        flat_curve_valid(final(pool)@.len() as int, r),
        (r.keys_count == 0) == curve_absent(c.keys@),
        curve_round_trips(c.keys@) ==> eq_curve(c.keys@, flat_curve_keys(final(pool)@, r)),
        curve_absent(c.keys@) ==> final(pool)@ == old(pool)@ && final(table)@ == old(table)@,
        !curve_absent(c.keys@) && (exists|j: int|
            0 <= j < old(table)@.len() && eq_curve(
                c.keys@,
                flat_curve_keys(old(pool)@, #[trigger] old(table)@[j]),
            )) ==> final(pool)@ == old(pool)@ && final(table)@ == old(table)@ && (exists|j: int|
            {
                &&& 0 <= j < old(table)@.len()
                &&& eq_curve(c.keys@, flat_curve_keys(old(pool)@, #[trigger] old(table)@[j]))
                &&& forall|t: int|
                    0 <= t < j ==> !eq_curve(
                        c.keys@,
                        flat_curve_keys(old(pool)@, #[trigger] old(table)@[t]),
                    )
                &&& r.keys == old(table)@[j].keys
            }),
        !curve_absent(c.keys@) && !(exists|j: int|
            0 <= j < old(table)@.len() && eq_curve(
                c.keys@,
                flat_curve_keys(old(pool)@, #[trigger] old(table)@[j]),
            )) ==> final(table)@ == old(table)@.push(r) && final(pool)@.len() == old(pool)@.len()
            + (if c.keys@.len() == 1 {
            1int
        } else {
            3 * c.keys@.len() as int
        }),
{
    let n = c.keys.len();
    if n == 0 || (n == 1 && scalar_is_zero(c.keys[0].value)) {
        return FlatCurve { keys_count: 0, keys: Option::None };
    }
    let mut j: usize = 0;
    while j < table.len()
        invariant
            0 <= j <= table@.len(),
            pool@ == old(pool)@,
            table@ == old(table)@,
            curve_table_wf(pool@, table@),
            n == c.keys@.len(),
            !curve_absent(c.keys@),
            c.keys@.len() <= u32::MAX,
            forall|t: int|
                0 <= t < j ==> !eq_curve(c.keys@, flat_curve_keys(pool@, #[trigger] table@[t])),
        decreases table@.len() - j,
    {
        let rec = table[j];
        if fcurve_eq(c, pool, &rec) {
            return FlatCurve { keys_count: n as u32, keys: rec.keys };
        }
        j += 1;
    }
    let start = pool.len();
    if n == 1 {
        pool.push(c.keys[0].value);
    } else {
        let mut i: usize = 0;
        while i < n
            invariant
                n == c.keys@.len(),
                0 <= i <= n,
                pool@.len() == start + i,
                start == old(pool)@.len(),
                old(pool)@.is_prefix_of(pool@),
                forall|t: int| 0 <= t < i ==> pool@[start + t] == c.keys@[t].frame,
            decreases n - i,
        {
            pool.push(c.keys[i].frame);
            i += 1;
        }
        let mut i: usize = 0;
        while i < n
            invariant
                n == c.keys@.len(),
                0 <= i <= n,
                pool@.len() == start + n + 2 * i,
                start == old(pool)@.len(),
                old(pool)@.is_prefix_of(pool@),
                forall|t: int| 0 <= t < n ==> pool@[start + t] == c.keys@[t].frame,
                forall|t: int|
                    0 <= t < i ==> pool@[start + n + 2 * t] == c.keys@[t].value && pool@[start + n
                        + 2 * t + 1] == c.keys@[t].tangent,
            decreases n - i,
        {
            pool.push(c.keys[i].value);
            pool.push(c.keys[i].tangent);
            i += 1;
        }
    }
    let rec = FlatCurve { keys_count: n as u32, keys: Option::Some(start) };
    proof {
        assert forall|t: int|
            0 <= t < table@.len() implies flat_curve_valid(pool@.len() as int, #[trigger] table@[t])
            && table@[t].keys_count > 0 by {
            lemma_flat_curve_stable(old(pool)@, pool@, table@[t]);
        }
        assert(flat_curve_valid(pool@.len() as int, rec));
        if n == 1 {
            assert(eq_curve(c.keys@, flat_curve_keys(pool@, rec)));
        } else {
            assert(forall|i: int|
                0 <= i < n ==> eq_key(
                    c.keys@[i],
                    #[trigger] flat_curve_keys(pool@, rec)[i],
                ));
            assert(eq_curve(c.keys@, flat_curve_keys(pool@, rec)));
        }
    }
    table.push(rec);
    rec
}

} // verus!
