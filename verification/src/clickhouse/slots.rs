//! Slot arithmetic: ordering slot lists and splitting slot ranges by shard bucket.
use vstd::prelude::*;

use crate::lists;

verus! {

/// Number of consecutive slots that share one shard bucket.
pub const SLOT_SHARD_DIVISOR: u64 = 432_000;

/// Whether each number is smaller than every later one.
pub open spec fn strictly_increasing(s: Seq<u64>) -> bool {
    forall|i: int, j: int| 0 <= i < j < s.len() ==> #[trigger] s[i] < #[trigger] s[j]
}

/// Whether two lists hold the same numbers, whatever the order and the repetitions.
pub open spec fn same_numbers(a: Seq<u64>, b: Seq<u64>) -> bool {
    forall|x: u64| a.contains(x) <==> b.contains(x)
}

/// A strictly increasing list is fixed by the numbers it holds.
pub proof fn law_increasing_list_is_unique(a: Seq<u64>, b: Seq<u64>)
    requires
        strictly_increasing(a),
        strictly_increasing(b),
        same_numbers(a, b),
    ensures
        a == b,
    decreases a.len(),
{
    if a.len() == 0 {
        if b.len() > 0 {
            assert(b.contains(b[0]));
        }
    } else {
        assert(a.contains(a.last()));
        let j = choose|j: int| 0 <= j < b.len() && b[j] == a.last();
        assert(b.contains(b.last()));
        let i = choose|i: int| 0 <= i < a.len() && a[i] == b.last();
        assert(j == b.len() - 1);
        assert(i == a.len() - 1);
        let a1 = a.drop_last();
        let b1 = b.drop_last();
        assert forall|x: u64| a1.contains(x) <==> b1.contains(x) by {
            if a1.contains(x) {
                let k = choose|k: int| 0 <= k < a1.len() && a1[k] == x;
                assert(a[k] == x);
                assert(a.contains(x));
                assert(b.contains(x));
                let m = choose|m: int| 0 <= m < b.len() && b[m] == x;
                assert(b1[m] == x);
            }
            if b1.contains(x) {
                let k = choose|k: int| 0 <= k < b1.len() && b1[k] == x;
                assert(b[k] == x);
                assert(b.contains(x));
                assert(a.contains(x));
                let m = choose|m: int| 0 <= m < a.len() && a[m] == x;
                assert(a1[m] == x);
            }
        }
        law_increasing_list_is_unique(a1, b1);
        assert(a =~= a1.push(a.last()));
        assert(b =~= b1.push(b.last()));
    }
}

proof fn lemma_contains_push(s: Seq<u64>, x: u64)
    ensures
        forall|y: u64| #[trigger] s.push(x).contains(y) <==> s.contains(y) || y == x,
{
    assert forall|y: u64| #[trigger] s.push(x).contains(y) <==> s.contains(y) || y == x by {
        if s.contains(y) {
            let k = choose|k: int| 0 <= k < s.len() && s[k] == y;
            assert(s.push(x)[k] == y);
        }
        if y == x {
            assert(s.push(x)[s.len() as int] == y);
        }
        if s.push(x).contains(y) && y != x {
            let k = choose|k: int| 0 <= k < s.push(x).len() && s.push(x)[k] == y;
            assert(s[k] == y);
        }
    }
}

/// Merges two strictly increasing lists into one.
fn merge_increasing(a: &Vec<u64>, b: &Vec<u64>) -> (r: Vec<u64>)
    requires
        strictly_increasing(a@),
        strictly_increasing(b@),
    ensures
        strictly_increasing(r@),
        forall|x: u64| #[trigger] r@.contains(x) <==> a@.contains(x) || b@.contains(x),
{
    let mut r: Vec<u64> = Vec::new();
    let mut i: usize = 0;
    let mut j: usize = 0;
    while i < a.len() || j < b.len()
        invariant
            i <= a.len(),
            j <= b.len(),
            strictly_increasing(a@),
            strictly_increasing(b@),
            strictly_increasing(r@),
            i < a.len() ==> forall|k: int| 0 <= k < r@.len() ==> #[trigger] r@[k] < a@[i as int],
            j < b.len() ==> forall|k: int| 0 <= k < r@.len() ==> #[trigger] r@[k] < b@[j as int],
            forall|x: u64| #[trigger]
                r@.contains(x) <==> a@.take(i as int).contains(x) || b@.take(j as int).contains(x),
        decreases (a.len() - i) + (b.len() - j),
    {
        let ghost before = r@;
        let ghost i0 = i as int;
        let ghost j0 = j as int;
        let from_a = i < a.len() && (j >= b.len() || a[i] <= b[j]);
        let from_b = j < b.len() && (i >= a.len() || b[j] <= a[i]);
        let x: u64 = if from_a {
            a[i]
        } else {
            b[j]
        };
        r.push(x);
        if from_a {
            i += 1;
        }
        if from_b {
            j += 1;
        }
        proof {
            lemma_contains_push(before, x);
            if from_a {
                assert(a@.take(i0 + 1) =~= a@.take(i0).push(x));
                lemma_contains_push(a@.take(i0), x);
            }
            if from_b {
                assert(b@.take(j0 + 1) =~= b@.take(j0).push(x));
                lemma_contains_push(b@.take(j0), x);
            }
        }
    }
    proof {
        assert(a@.take(i as int) =~= a@);
        assert(b@.take(j as int) =~= b@);
    }
    r
}

fn sort_unique_range(v: &Vec<u64>, from: usize, to: usize) -> (r: Vec<u64>)
    requires
        from <= to <= v.len(),
    ensures
        strictly_increasing(r@),
        same_numbers(r@, v@.subrange(from as int, to as int)),
    decreases to - from,
{
    let ghost part = v@.subrange(from as int, to as int);
    if to - from <= 1 {
        let mut r: Vec<u64> = Vec::new();
        if to > from {
            r.push(v[from]);
        }
        proof {
            assert(r@ =~= part);
        }
        r
    } else {
        let mid: usize = from + (to - from) / 2;
        let a = sort_unique_range(v, from, mid);
        let b = sort_unique_range(v, mid, to);
        let r = merge_increasing(&a, &b);
        proof {
            let left = v@.subrange(from as int, mid as int);
            let right = v@.subrange(mid as int, to as int);
            assert(part =~= left + right);
            assert forall|x: u64| r@.contains(x) <==> part.contains(x) by {
                if left.contains(x) {
                    let k = choose|k: int| 0 <= k < left.len() && left[k] == x;
                    assert(part[k] == x);
                }
                if right.contains(x) {
                    let k = choose|k: int| 0 <= k < right.len() && right[k] == x;
                    assert(part[k + left.len()] == x);
                }
                if part.contains(x) {
                    let k = choose|k: int| 0 <= k < part.len() && part[k] == x;
                    if k < left.len() {
                        assert(left[k] == x);
                    } else {
                        assert(right[k - left.len()] == x);
                    }
                }
            }
        }
        r
    }
}

/// Sorts slots into ascending order and drops repetitions.
pub fn normalize_slots(slots: Vec<u64>) -> (r: Vec<u64>)
    ensures
        strictly_increasing(r@),
        same_numbers(r@, slots@),
{
    let r = sort_unique_range(&slots, 0, slots.len());
    proof {
        assert(slots@.subrange(0, slots@.len() as int) =~= slots@);
    }
    r
}

/// The bucket that a slot falls into.
pub open spec fn bucket_of(slot: u64) -> int {
    slot as int / SLOT_SHARD_DIVISOR as int
}

/// Whether `outs` lists one answer of `f` for each bucket from that of `start_slot` on.
pub open spec fn bucket_answers<F: Fn(u64) -> usize>(
    f: F,
    start_slot: u64,
    outs: Seq<usize>,
) -> bool {
    forall|i: int|
        0 <= i < outs.len() ==> call_ensures(
            f,
            ((bucket_of(start_slot) + i) as u64,),
            #[trigger] outs[i],
        )
}

/// Whether `f` may be asked for every bucket that a slot range touches.
pub open spec fn buckets_allowed<F: Fn(u64) -> usize>(f: F, start_slot: u64, end_slot: u64) -> bool {
    forall|b: u64|
        bucket_of(start_slot) <= b <= bucket_of(end_slot) ==> #[trigger] call_requires(f, (b,))
}

/// The number of buckets that a slot range touches.
pub open spec fn bucket_count(start_slot: u64, end_slot: u64) -> int {
    if end_slot < start_slot {
        0
    } else {
        bucket_of(end_slot) - bucket_of(start_slot) + 1
    }
}

fn contains_index(v: &Vec<usize>, x: usize) -> (r: bool)
    ensures
        r == v@.contains(x),
{
    let mut i: usize = 0;
    while i < v.len()
        invariant
            i <= v.len(),
            forall|k: int| 0 <= k < i ==> v@[k] != x,
        decreases v.len() - i,
    {
        if v[i] == x {
            assert(v@[i as int] == x);
            return true;
        }
        i += 1;
    }
    false
}

/// The shards that own a slot range, each once, in the order in which its buckets reach them.
pub fn shard_indices_for_slot_range<F: Fn(u64) -> usize>(
    start_slot: u64,
    end_slot: u64,
    shard_index_for_bucket: F,
) -> (r: Vec<usize>)
    requires
        buckets_allowed(shard_index_for_bucket, start_slot, end_slot),
    ensures
        exists|outs: Seq<usize>|
            {
                &&& outs.len() == bucket_count(start_slot, end_slot)
                &&& #[trigger] bucket_answers(shard_index_for_bucket, start_slot, outs)
                &&& r@ == lists::first_occurrences(outs)
            },
{
    let mut r: Vec<usize> = Vec::new();
    let ghost mut outs: Seq<usize> = Seq::empty();
    if end_slot < start_slot {
        assert(bucket_answers(shard_index_for_bucket, start_slot, outs));
        return r;
    }
    let start_bucket: u64 = start_slot / SLOT_SHARD_DIVISOR;
    let end_bucket: u64 = end_slot / SLOT_SHARD_DIVISOR;
    let mut bucket: u64 = start_bucket;
    while bucket <= end_bucket
        invariant
            start_slot <= end_slot,
            buckets_allowed(shard_index_for_bucket, start_slot, end_slot),
            start_bucket == bucket_of(start_slot),
            end_bucket == bucket_of(end_slot),
            end_bucket < u64::MAX,
            start_bucket <= bucket <= end_bucket + 1,
            outs.len() == bucket - start_bucket,
            bucket_answers(shard_index_for_bucket, start_slot, outs),
            r@ == lists::first_occurrences(outs),
        decreases end_bucket + 1 - bucket,
    {
        let shard_index: usize = shard_index_for_bucket(bucket);
        proof {
            let before = outs;
            outs = outs.push(shard_index);
            assert(outs.drop_last() =~= before);
            assert(bucket_answers(shard_index_for_bucket, start_slot, outs)) by {
                assert forall|i: int| 0 <= i < outs.len() implies call_ensures(
                    shard_index_for_bucket,
                    ((bucket_of(start_slot) + i) as u64,),
                    #[trigger] outs[i],
                ) by {
                    if i < before.len() {
                        assert(outs[i] == before[i]);
                    } else {
                        assert((bucket_of(start_slot) + i) as u64 == bucket);
                    }
                }
            }
        }
        if !contains_index(&r, shard_index) {
            r.push(shard_index);
        }
        bucket += 1;
    }
    r
}

/// A part of a slot range that one shard owns.
#[derive(Debug, Clone, Copy, PartialEq, Eq, Structural)]
pub struct ShardSlotRange {
    pub shard_index: usize,
    pub start_slot: u64,
    pub end_slot: u64,
}

/// The `i`-th part of a slot range cut at the bucket boundaries, owned by `shard_index`.
pub open spec fn slot_segment(start_slot: u64, end_slot: u64, i: int, shard_index: usize) -> ShardSlotRange {
    let bucket = bucket_of(start_slot) + i;
    let low = bucket * SLOT_SHARD_DIVISOR;
    let high = (bucket + 1) * SLOT_SHARD_DIVISOR - 1;
    ShardSlotRange {
        shard_index,
        start_slot: (if low < start_slot {
            start_slot as int
        } else {
            low
        }) as u64,
        end_slot: (if high > end_slot {
            end_slot as int
        } else {
            high
        }) as u64,
    }
}

/// Cuts a slot range at the bucket boundaries and names the shard of each part.
pub fn shard_slot_ranges_for_slot_range<F: Fn(u64) -> usize>(
    start_slot: u64,
    end_slot: u64,
    shard_index_for_bucket: F,
) -> (r: Vec<ShardSlotRange>)
    requires
        end_slot < u64::MAX,
        buckets_allowed(shard_index_for_bucket, start_slot, end_slot),
    ensures
        r@.len() == bucket_count(start_slot, end_slot),
        exists|outs: Seq<usize>|
            {
                &&& outs.len() == bucket_count(start_slot, end_slot)
                &&& #[trigger] bucket_answers(shard_index_for_bucket, start_slot, outs)
                &&& forall|i: int|
                    0 <= i < r@.len() ==> #[trigger] r@[i] == slot_segment(
                        start_slot,
                        end_slot,
                        i,
                        outs[i],
                    )
            },
{
    let mut r: Vec<ShardSlotRange> = Vec::new();
    let ghost mut outs: Seq<usize> = Seq::empty();
    if end_slot < start_slot {
        assert(bucket_answers(shard_index_for_bucket, start_slot, outs));
        return r;
    }
    let mut segment_start: u64 = start_slot;
    let mut done = false;
    while !done
        invariant
            start_slot <= end_slot < u64::MAX,
            buckets_allowed(shard_index_for_bucket, start_slot, end_slot),
            r@.len() == outs.len(),
            bucket_answers(shard_index_for_bucket, start_slot, outs),
            forall|i: int|
                0 <= i < r@.len() ==> #[trigger] r@[i] == slot_segment(
                    start_slot,
                    end_slot,
                    i,
                    outs[i],
                ),
            done ==> outs.len() == bucket_count(start_slot, end_slot),
            !done ==> {
                &&& start_slot <= segment_start <= end_slot
                &&& bucket_of(segment_start) == bucket_of(start_slot) + outs.len()
                &&& outs.len() > 0 ==> segment_start == bucket_of(segment_start)
                    * SLOT_SHARD_DIVISOR
                &&& outs.len() == 0 ==> segment_start == start_slot
            },
        decreases
                (if done {
                    0int
                } else {
                    1int
                }), end_slot - segment_start,
    {
        let bucket: u64 = segment_start / SLOT_SHARD_DIVISOR;
        let limit: u64 = u64::MAX / SLOT_SHARD_DIVISOR;
        let bucket_end: u64 = if bucket + 1 <= limit {
            (bucket + 1) * SLOT_SHARD_DIVISOR - 1
        } else {
            u64::MAX
        };
        let segment_end: u64 = if bucket_end < end_slot {
            bucket_end
        } else {
            end_slot
        };
        let shard_index: usize = shard_index_for_bucket(bucket);
        r.push(ShardSlotRange { shard_index, start_slot: segment_start, end_slot: segment_end });
        proof {
            let before = outs;
            outs = outs.push(shard_index);
            assert(r@[before.len() as int] == slot_segment(
                start_slot,
                end_slot,
                before.len() as int,
                shard_index,
            ));
            assert forall|i: int| 0 <= i < outs.len() implies call_ensures(
                shard_index_for_bucket,
                ((bucket_of(start_slot) + i) as u64,),
                #[trigger] outs[i],
            ) by {
                if i < before.len() {
                    assert(outs[i] == before[i]);
                } else {
                    assert((bucket_of(start_slot) + i) as u64 == bucket);
                }
            }
        }
        if segment_end == end_slot {
            done = true;
        } else {
            segment_start = segment_end + 1;
        }
    }
    r
}

/// The parts of a slot range start where the range starts, follow each other without gap or
/// overlap, end where the range ends, and none reaches over a bucket boundary.
pub proof fn law_segments_partition_the_range(
    start_slot: u64,
    end_slot: u64,
    i: int,
    shard: usize,
    next: usize,
)
    requires
        start_slot <= end_slot,
        0 <= i < bucket_count(start_slot, end_slot),
    ensures
        ({
            let part = slot_segment(start_slot, end_slot, i, shard);
            let following = slot_segment(start_slot, end_slot, i + 1, next);
            &&& part.start_slot <= part.end_slot
            &&& bucket_of(part.start_slot) == bucket_of(start_slot) + i
            &&& bucket_of(part.end_slot) == bucket_of(start_slot) + i
            &&& i == 0 ==> part.start_slot == start_slot
            &&& i == bucket_count(start_slot, end_slot) - 1 ==> part.end_slot == end_slot
            &&& i + 1 < bucket_count(start_slot, end_slot) ==> following.start_slot
                == part.end_slot + 1
        }),
{
}

/// A bucket has four hundred and thirty-two thousand slots, and the buckets follow one another.
pub proof fn law_buckets_follow_one_another(slot: u64, other: u64)
    ensures
        bucket_of(slot) * 432_000 <= slot < (bucket_of(slot) + 1) * 432_000,
        slot <= other ==> bucket_of(slot) <= bucket_of(other),
        bucket_of(slot) == bucket_of(other) ==> -432_000 < slot - other < 432_000,
{
}

} // verus!
