//! Signatures by their bytes: in which bucket and on which shard they are looked for, the queries,
//! and the ways to ask them.
use vstd::prelude::*;

use crate::clickhouse::client::ClickHouseClient;
use crate::clickhouse::disconnect::setting;
use crate::clickhouse::queries;
use crate::clickhouse::queries::check_signature_bytes;
use crate::clickhouse::read_query;
use crate::clickhouse::sharding;
use crate::clickhouse::sharding::ShardTopology;
use crate::clickhouse::slots;
use crate::clickhouse::sql;
use crate::clickhouse::startup;
use crate::clickhouse::types::SignatureStatusRecord;
use crate::hashing;
use crate::processing::ProcessingError;
use crate::text;
use crate::time::{Duration, NANOS_PER_MILLI};

verus! {

/// A signature as it is looked for: its hash, its bucket and its SQL literal.
#[derive(Debug)]
pub struct BucketedSignature {
    pub hash: u64,
    pub bucket: u64,
    pub literal: String,
}

/// The SQL literal of a signature.
pub open spec fn signature_text(bytes: Seq<u8>) -> Seq<char> {
    ("toFixedString(unhex('"@ + text::hex_upper(bytes) + "'), 64)"@)
}

/// Whether this is how a signature is looked for.
pub open spec fn is_entry_of(e: BucketedSignature, bytes: Seq<u8>, modulus: u64) -> bool {
    &&& e.hash == hashing::cityhash(bytes)
    &&& e.bucket == queries::signature_bucket(bytes, modulus)
    &&& e.literal@ == signature_text(bytes)
}

/// How a signature is looked for.
pub fn bucket_signature(bytes: &[u8], modulus: u64) -> (r: BucketedSignature)
    requires
        modulus > 0,
    ensures
        is_entry_of(r, bytes@, modulus),
{
    let hash: u64 = hashing::city_hash(bytes);
    let literal = {
        let mut m = "toFixedString(unhex('".to_owned();
        m.append(text::hex_upper_string(bytes).as_str());
        m.append("'), 64)");
        m
    };
    BucketedSignature { hash, bucket: hash % modulus, literal }
}

/// What is wrong with the text of a signature.
pub open spec fn signature_error(signature: Seq<char>) -> Option<Seq<char>> {
    queries::signature_bytes_error(hashing::base58_decoded(signature))
}

/// Whether the signatures up to some place are well-formed, and these are how they are looked for.
pub open spec fn entries_of(
    entries: Seq<BucketedSignature>,
    signatures: Seq<String>,
    modulus: u64,
) -> bool {
    &&& entries.len() == signatures.len()
    &&& forall|i: int|
        0 <= i < entries.len() ==> {
            &&& signature_error((#[trigger] signatures[i])@) is None
            &&& is_entry_of(entries[i], hashing::base58_decoded(signatures[i]@)->0, modulus)
        }
}

/// Whether a signature is the first that is not well-formed.
pub open spec fn is_first_invalid(signatures: Seq<String>, i: int) -> bool {
    &&& 0 <= i < signatures.len()
    &&& signature_error(signatures[i]@) is Some
    &&& forall|k: int| 0 <= k < i ==> signature_error((#[trigger] signatures[k])@) is None
}

/// Reads one signature.
pub fn parse_signature(signature: &str) -> (r: Result<Vec<u8>, ProcessingError>)
    ensures
        match signature_error(signature@) {
            Some(message) => r matches Err(e) && e is Deserialization && e.context() == message,
            None => r matches Ok(bytes) && hashing::base58_decoded(signature@) == Some(bytes@)
                && bytes@.len() == 64,
        },
{
    check_signature_bytes(hashing::base58_decode(signature))
}

/// Reads signatures, and says how they are looked for. The first that is not well-formed is
/// reported.
pub fn bucket_signatures(signatures: &[String], modulus: u64) -> (r: Result<
    Vec<BucketedSignature>,
    ProcessingError,
>)
    requires
        modulus > 0,
    ensures
        match r {
            Ok(entries) => entries_of(entries@, signatures@, modulus),
            Err(e) => exists|i: int|
                {
                    &&& #[trigger] is_first_invalid(signatures@, i)
                    &&& e is Deserialization
                    &&& Some(e.context()) == signature_error(signatures@[i]@)
                },
        },
{
    let mut entries: Vec<BucketedSignature> = Vec::new();
    let mut i: usize = 0;
    while i < signatures.len()
        invariant
            i <= signatures@.len(),
            modulus > 0,
            entries_of(entries@, signatures@.take(i as int), modulus),
            forall|k: int| 0 <= k < i ==> signature_error((#[trigger] signatures@[k])@) is None,
        decreases signatures@.len() - i,
    {
        let bytes = match parse_signature(signatures[i].as_str()) {
            Ok(bytes) => bytes,
            Err(e) => {
                assert(is_first_invalid(signatures@, i as int));
                return Err(e);
            },
        };
        let ghost before = entries@;
        entries.push(bucket_signature(bytes.as_slice(), modulus));
        proof {
            let more = signatures@.take(i + 1);
            assert forall|k: int| 0 <= k < entries@.len() implies {
                &&& signature_error((#[trigger] more[k])@) is None
                &&& is_entry_of(entries@[k], hashing::base58_decoded(more[k]@)->0, modulus)
            } by {
                if k < i {
                    assert(signatures@.take(i as int)[k] == more[k]);
                    assert(entries@[k] == before[k]);
                }
            }
        }
        i += 1;
    }
    assert(signatures@.take(i as int) =~= signatures@);
    Ok(entries)
}

/// The signatures that a shard holds, in their order.
pub open spec fn shard_entries(
    topology: ShardTopology,
    entries: Seq<BucketedSignature>,
    shard: int,
) -> Seq<BucketedSignature>
    decreases entries.len(),
{
    if entries.len() == 0 {
        Seq::empty()
    } else {
        let rest = shard_entries(topology, entries.drop_last(), shard);
        if sharding::is_weighted_index(
            topology.weights@,
            topology.total_weight,
            entries.last().hash,
            shard,
        ) {
            rest.push(entries.last())
        } else {
            rest
        }
    }
}

/// Deals signatures out to the shards that hold them.
pub fn signatures_per_shard(topology: &ShardTopology, entries: Vec<BucketedSignature>) -> (r: Vec<
    Vec<BucketedSignature>,
>)
    requires
        topology.wf(),
    ensures
        r@.len() == topology.shards@.len(),
        forall|k: int|
            0 <= k < r@.len() ==> (#[trigger] r@[k])@ == shard_entries(*topology, entries@, k),
{
    let shards: usize = topology.shards.len();
    let mut per_shard: Vec<Vec<BucketedSignature>> = Vec::new();
    let mut n: usize = 0;
    while n < shards
        invariant
            n <= shards,
            per_shard@.len() == n,
            forall|k: int| 0 <= k < n ==> (#[trigger] per_shard@[k])@ == Seq::<BucketedSignature>::empty(),
        decreases shards - n,
    {
        per_shard.push(Vec::new());
        n += 1;
    }
    let ghost all = entries@;
    let mut pending = entries;
    let ghost mut i: int = 0;
    proof {
        assert(all.skip(0) =~= all);
    }
    while pending.len() > 0
        invariant
            topology.wf(),
            shards == topology.shards@.len(),
            per_shard@.len() == shards,
            0 <= i <= all.len(),
            pending@ == all.skip(i),
            forall|k: int|
                0 <= k < shards ==> (#[trigger] per_shard@[k])@ == shard_entries(
                    *topology,
                    all.take(i),
                    k,
                ),
        decreases pending@.len(),
    {
        let entry = pending.remove(0);
        let shard: usize = topology.shard_index_for_hash(entry.hash);
        let ghost before = per_shard@;
        per_shard[shard].push(entry);
        proof {
            assert(entry == all[i]);
            assert(all.take(i + 1).drop_last() =~= all.take(i));
            assert(all.take(i + 1).last() == entry);
            assert forall|k: int| 0 <= k < shards implies (#[trigger] per_shard@[k])@
                == shard_entries(*topology, all.take(i + 1), k) by {
                assert(before[k]@ == shard_entries(*topology, all.take(i), k));
                if sharding::is_weighted_index(
                    topology.weights@,
                    topology.total_weight,
                    entry.hash,
                    k,
                ) {
                    sharding::law_weighted_index_is_unique(
                        topology.weights@,
                        topology.total_weight,
                        entry.hash,
                        k,
                        shard as int,
                    );
                }
            }
            i = i + 1;
            assert(pending@ =~= all.skip(i));
        }
    }
    proof {
        assert(all.take(i) =~= all);
    }
    per_shard
}

/// Signatures of one bucket.
#[derive(Debug)]
pub struct SignatureBucket {
    pub bucket: u64,
    pub literals: Vec<String>,
}

/// The literals of the signatures of a bucket, in their order.
pub open spec fn literals_in(entries: Seq<BucketedSignature>, bucket: u64) -> Seq<Seq<char>>
    decreases entries.len(),
{
    if entries.len() == 0 {
        Seq::empty()
    } else {
        let rest = literals_in(entries.drop_last(), bucket);
        if entries.last().bucket == bucket {
            rest.push(entries.last().literal@)
        } else {
            rest
        }
    }
}

/// The buckets of a grouping.
pub open spec fn buckets_of(groups: Seq<SignatureBucket>) -> Seq<u64> {
    Seq::new(groups.len(), |i: int| groups[i].bucket)
}

/// Whether signatures are grouped by their buckets: the buckets in increasing order, each with all
/// of its signatures.
pub open spec fn is_grouping(groups: Seq<SignatureBucket>, entries: Seq<BucketedSignature>) -> bool {
    &&& slots::strictly_increasing(buckets_of(groups))
    &&& forall|g: int|
        0 <= g < groups.len() ==> {
            &&& text::texts((#[trigger] groups[g]).literals@) == literals_in(
                entries,
                groups[g].bucket,
            )
            &&& groups[g].literals@.len() > 0
        }
    &&& forall|i: int|
        0 <= i < entries.len() ==> buckets_of(groups).contains((#[trigger] entries[i]).bucket)
}

proof fn lemma_literals_in_some(entries: Seq<BucketedSignature>, bucket: u64)
    requires
        literals_in(entries, bucket).len() > 0,
    ensures
        exists|i: int| 0 <= i < entries.len() && (#[trigger] entries[i]).bucket == bucket,
    decreases entries.len(),
{
    if entries.last().bucket == bucket {
        assert(entries[entries.len() - 1].bucket == bucket);
    } else {
        lemma_literals_in_some(entries.drop_last(), bucket);
        let i = choose|i: int|
            0 <= i < entries.len() - 1 && (#[trigger] entries.drop_last()[i]).bucket == bucket;
        assert(entries[i].bucket == bucket);
    }
}

/// There is one grouping of signatures: two have the same buckets with the same literals.
pub proof fn law_grouping_is_unique(
    a: Seq<SignatureBucket>,
    b: Seq<SignatureBucket>,
    entries: Seq<BucketedSignature>,
)
    requires
        is_grouping(a, entries),
        is_grouping(b, entries),
    ensures
        a.len() == b.len(),
        forall|g: int|
            0 <= g < a.len() ==> (#[trigger] a[g]).bucket == b[g].bucket && text::texts(
                a[g].literals@,
            ) == text::texts(b[g].literals@),
{
    lemma_grouping_covers(a, b, entries);
    lemma_grouping_covers(b, a, entries);
    slots::law_increasing_list_is_unique(buckets_of(a), buckets_of(b));
    assert(buckets_of(a).len() == a.len() && buckets_of(b).len() == b.len());
    assert forall|g: int| 0 <= g < a.len() implies (#[trigger] a[g]).bucket == b[g].bucket
        && text::texts(a[g].literals@) == text::texts(b[g].literals@) by {
        assert(buckets_of(a)[g] == buckets_of(b)[g]);
        assert(text::texts(b[g].literals@) == literals_in(entries, b[g].bucket));
    }
}

proof fn lemma_grouping_covers(
    a: Seq<SignatureBucket>,
    b: Seq<SignatureBucket>,
    entries: Seq<BucketedSignature>,
)
    requires
        is_grouping(a, entries),
        is_grouping(b, entries),
    ensures
        forall|x: u64| #[trigger] buckets_of(a).contains(x) ==> buckets_of(b).contains(x),
{
    assert forall|x: u64| #[trigger] buckets_of(a).contains(x) implies buckets_of(b).contains(
        x,
    ) by {
        let g = choose|g: int| 0 <= g < buckets_of(a).len() && buckets_of(a)[g] == x;
        assert(text::texts(a[g].literals@).len() > 0);
        lemma_literals_in_some(entries, x);
        let i = choose|i: int| 0 <= i < entries.len() && (#[trigger] entries[i]).bucket == x;
        assert(buckets_of(b).contains(entries[i].bucket));
    }
}

/// The first group whose bucket is not below the given one.
fn group_position(groups: &Vec<SignatureBucket>, bucket: u64) -> (r: usize)
    requires
        slots::strictly_increasing(buckets_of(groups@)),
    ensures
        r <= groups@.len(),
        forall|k: int| 0 <= k < r ==> (#[trigger] groups@[k]).bucket < bucket,
        forall|k: int| r <= k < groups@.len() ==> (#[trigger] groups@[k]).bucket >= bucket,
{
    let mut i: usize = 0;
    while i < groups.len() && groups[i].bucket < bucket
        invariant
            i <= groups@.len(),
            forall|k: int| 0 <= k < i ==> (#[trigger] groups@[k]).bucket < bucket,
        decreases groups@.len() - i,
    {
        i += 1;
    }
    proof {
        assert forall|k: int| i <= k < groups@.len() implies (#[trigger] groups@[k]).bucket
            >= bucket by {
            assert(buckets_of(groups@)[k] == groups@[k].bucket);
            assert(buckets_of(groups@)[i as int] == groups@[i as int].bucket);
        }
    }
    i
}

/// Adds a signature to its group, which may be new.
fn add_to_group(groups: &mut Vec<SignatureBucket>, bucket: u64, literal: String)
    requires
        slots::strictly_increasing(buckets_of(old(groups)@)),
    ensures
        slots::strictly_increasing(buckets_of(final(groups)@)),
        forall|x: u64| #[trigger]
            buckets_of(final(groups)@).contains(x) <==> buckets_of(old(groups)@).contains(x) || x
                == bucket,
        forall|g: int|
            0 <= g < final(groups)@.len() ==> {
                let group = #[trigger] final(groups)@[g];
                if group.bucket == bucket {
                    if exists|k: int| 0 <= k < old(groups)@.len() && (#[trigger] old(groups)@[k]).bucket == bucket {
                        exists|k: int|
                            {
                                &&& 0 <= k < old(groups)@.len()
                                &&& (#[trigger] old(groups)@[k]).bucket == bucket
                                &&& text::texts(group.literals@) == text::texts(
                                    old(groups)@[k].literals@,
                                ).push(literal@)
                            }
                    } else {
                        text::texts(group.literals@) == seq![literal@]
                    }
                } else {
                    exists|k: int|
                        {
                            &&& 0 <= k < old(groups)@.len()
                            &&& #[trigger] old(groups)@[k] == group
                        }
                }
            },
{
    let at: usize = group_position(groups, bucket);
    let ghost before = groups@;
    if at < groups.len() && groups[at].bucket == bucket {
        text::push_text(&mut groups[at].literals, literal);
        proof {
            assert(before[at as int].bucket == bucket);
            assert(buckets_of(groups@) =~= buckets_of(before));
            assert(buckets_of(before)[at as int] == bucket);
            assert forall|x: u64| #[trigger] buckets_of(groups@).contains(x) <==> buckets_of(
                before,
            ).contains(x) || x == bucket by {
                assert(buckets_of(before).contains(bucket));
            }
            assert forall|g: int| 0 <= g < groups@.len() && g != at implies (
            #[trigger] groups@[g]).bucket != bucket && groups@[g] == before[g] by {
                assert(buckets_of(before)[g] == before[g].bucket);
            }
        }
    } else {
        let mut literals: Vec<String> = Vec::new();
        text::push_text(&mut literals, literal);
        groups.insert(at, SignatureBucket { bucket, literals });
        proof {
            assert(text::texts(literals@) =~= seq![literal@]);
            let after = buckets_of(groups@);
            let earlier = buckets_of(before);
            assert(after =~= earlier.insert(at as int, bucket));
            assert forall|k: int| 0 <= k < before.len() implies (#[trigger] before[k]).bucket
                != bucket by {
                if k >= at {
                    assert(earlier[k] == before[k].bucket);
                    assert(earlier[at as int] == before[at as int].bucket);
                }
            }
            assert forall|i: int, j: int| 0 <= i < j < after.len() implies #[trigger] after[i]
                < #[trigger] after[j] by {
                let p = if i > at {
                    i - 1
                } else {
                    i
                };
                let q = if j > at {
                    j - 1
                } else {
                    j
                };
                if i != at {
                    assert(after[i] == earlier[p]);
                    assert(earlier[p] == before[p].bucket);
                }
                if j != at {
                    assert(after[j] == earlier[q]);
                    assert(earlier[q] == before[q].bucket);
                }
            }
            assert forall|x: u64| #[trigger] after.contains(x) <==> earlier.contains(x) || x
                == bucket by {
                if earlier.contains(x) {
                    let k = choose|k: int| 0 <= k < earlier.len() && earlier[k] == x;
                    assert(after[if k < at {
                        k
                    } else {
                        k + 1
                    }] == x);
                }
                assert(after[at as int] == bucket);
                if after.contains(x) && x != bucket {
                    let k = choose|k: int| 0 <= k < after.len() && after[k] == x;
                    assert(earlier[if k < at {
                        k
                    } else {
                        k - 1
                    }] == x);
                }
            }
            assert forall|g: int| 0 <= g < groups@.len() && g != at implies (
            #[trigger] groups@[g]).bucket != bucket && exists|k: int|
                0 <= k < before.len() && #[trigger] before[k] == groups@[g] by {
                let k = if g < at {
                    g
                } else {
                    g - 1
                };
                assert(before[k] == groups@[g]);
            }
        }
    }
}

/// Groups signatures by their buckets.
pub fn group_by_bucket(entries: &Vec<BucketedSignature>) -> (r: Vec<SignatureBucket>)
    ensures
        is_grouping(r@, entries@),
{
    let mut groups: Vec<SignatureBucket> = Vec::new();
    let mut i: usize = 0;
    proof {
        assert(entries@.take(0) =~= Seq::empty());
    }
    while i < entries.len()
        invariant
            i <= entries@.len(),
            is_grouping(groups@, entries@.take(i as int)),
        decreases entries@.len() - i,
    {
        let ghost before = groups@;
        let ghost known = entries@.take(i as int);
        let ghost more = entries@.take(i + 1);
        let bucket: u64 = entries[i].bucket;
        let literal = entries[i].literal.clone();
        add_to_group(&mut groups, bucket, literal);
        proof {
            assert(more.drop_last() =~= known);
            assert(more.last() == entries@[i as int]);
            if literals_in(known, bucket).len() > 0 {
                lemma_literals_in_some(known, bucket);
                let e = choose|e: int| 0 <= e < known.len() && (#[trigger] known[e]).bucket == bucket;
                assert(buckets_of(before).contains(known[e].bucket));
            }
            assert forall|g: int| 0 <= g < groups@.len() implies {
                &&& text::texts((#[trigger] groups@[g]).literals@) == literals_in(
                    more,
                    groups@[g].bucket,
                )
                &&& groups@[g].literals@.len() > 0
            } by {
                let group = groups@[g];
                assert(text::texts(group.literals@).len() == group.literals@.len());
                if group.bucket == bucket {
                    if !(exists|k: int| 0 <= k < before.len() && (#[trigger] before[k]).bucket == bucket) {
                        assert(literals_in(known, bucket).len() == 0) by {
                            if buckets_of(before).contains(bucket) {
                                let k = choose|k: int|
                                    0 <= k < buckets_of(before).len() && buckets_of(before)[k]
                                        == bucket;
                                assert(before[k].bucket == bucket);
                            }
                        }
                        assert(literals_in(known, bucket) =~= Seq::empty());
                        assert(seq![literal@] =~= Seq::<Seq<char>>::empty().push(literal@));
                    }
                }
            }
            assert forall|e: int| 0 <= e < more.len() implies buckets_of(groups@).contains(
                (#[trigger] more[e]).bucket,
            ) by {
                if e < i {
                    assert(known[e] == more[e]);
                    assert(buckets_of(before).contains(known[e].bucket));
                }
            }
        }
        i += 1;
    }
    assert(entries@.take(i as int) =~= entries@);
    groups
}

/// The test for some signatures of a bucket.
pub open spec fn bucket_clause(bucket: u64, literals: Seq<Seq<char>>) -> Seq<char> {
    if literals.len() == 1 {
        ("(sig_bucket = "@ + text::dec(bucket as nat) + " AND signature = "@ + literals[0] + ")"@)
    } else {
        ("(sig_bucket = "@ + text::dec(bucket as nat) + " AND signature IN ("@ + text::join(literals, ","@) + "))"@)
    }
}

/// The tests for the signatures of a bucket, so many at a time.
pub open spec fn bucket_clauses(bucket: u64, literals: Seq<Seq<char>>, n: int) -> Seq<Seq<char>>
    decreases literals.len(),
{
    if literals.len() == 0 || n <= 0 {
        Seq::empty()
    } else if literals.len() <= n {
        seq![bucket_clause(bucket, literals)]
    } else {
        seq![bucket_clause(bucket, literals.take(n))] + bucket_clauses(
            bucket,
            literals.skip(n),
            n,
        )
    }
}

/// The tests for the signatures of some buckets.
pub open spec fn filter_clauses(groups: Seq<SignatureBucket>, n: int) -> Seq<Seq<char>>
    decreases groups.len(),
{
    if groups.len() == 0 {
        Seq::empty()
    } else {
        filter_clauses(groups.drop_last(), n) + bucket_clauses(
            groups.last().bucket,
            text::texts(groups.last().literals@),
            n,
        )
    }
}

/// How many signatures one test holds: as configured, and never none.
pub open spec fn chunk_size(in_clause_chunk: usize) -> int {
    if in_clause_chunk == 0 {
        1
    } else {
        in_clause_chunk as int
    }
}

/// The condition on signatures.
pub open spec fn filter_text(groups: Seq<SignatureBucket>, in_clause_chunk: usize) -> Seq<char> {
    text::join(filter_clauses(groups, chunk_size(in_clause_chunk)), " OR "@)
}

fn bucket_clause_text(bucket: u64, literals: &Vec<String>, from: usize, to: usize) -> (r: String)
    requires
        from < to <= literals@.len(),
    ensures
        r@ == bucket_clause(bucket, text::texts(literals@).subrange(from as int, to as int)),
{
    let ghost part = text::texts(literals@).subrange(from as int, to as int);
    if to - from == 1 {
        assert(part[0] == literals@[from as int]@);
        return {
            let mut m = "(sig_bucket = ".to_owned();
            m.append(text::dec_string(bucket as u64).as_str());
            m.append(" AND signature = ");
            m.append(literals[from].as_str());
            m.append(")");
            m
        };
    }
    let mut chunk: Vec<String> = Vec::new();
    let mut i: usize = from;
    proof {
        assert(part.take(0) =~= Seq::empty());
        assert(text::texts(chunk@) =~= Seq::empty());
    }
    while i < to
        invariant
            from <= i <= to <= literals@.len(),
            part == text::texts(literals@).subrange(from as int, to as int),
            text::texts(chunk@) == part.take(i - from),
        decreases to - i,
    {
        text::push_text(&mut chunk, literals[i].clone());
        i += 1;
        proof {
            assert(part[i - 1 - from] == literals@[i - 1]@);
            assert(part.take(i - from) =~= part.take(i - 1 - from).push(part[i - 1 - from]));
        }
    }
    assert(part.take(to - from) =~= part);
    let mut m = "(sig_bucket = ".to_owned();
    m.append(text::dec_string(bucket as u64).as_str());
    m.append(" AND signature IN (");
    m.append(text::join_texts(&chunk, ",").as_str());
    m.append("))");
    m
}

fn append_bucket_clauses(clauses: &mut Vec<String>, group: &SignatureBucket, n: usize)
    requires
        n > 0,
    ensures
        text::texts(final(clauses)@) == text::texts(old(clauses)@) + bucket_clauses(
            group.bucket,
            text::texts(group.literals@),
            n as int,
        ),
{
    let ghost all = text::texts(group.literals@);
    let len: usize = group.literals.len();
    let mut from: usize = 0;
    assert(all.skip(0) =~= all);
    while from < len
        invariant
            n > 0,
            from <= len,
            len == group.literals@.len(),
            all == text::texts(group.literals@),
            text::texts(clauses@) + bucket_clauses(group.bucket, all.skip(from as int), n as int)
                == text::texts(old(clauses)@) + bucket_clauses(group.bucket, all, n as int),
        decreases len - from,
    {
        let to: usize = if len - from <= n {
            len
        } else {
            from + n
        };
        let ghost before = text::texts(clauses@);
        let ghost rest = all.skip(from as int);
        let clause = bucket_clause_text(group.bucket, &group.literals, from, to);
        text::push_text(clauses, clause);
        proof {
            if len - from <= n {
                assert(all.subrange(from as int, to as int) =~= rest);
                assert(all.skip(to as int) =~= Seq::empty());
            } else {
                assert(all.subrange(from as int, to as int) =~= rest.take(n as int));
                assert(all.skip(to as int) =~= rest.skip(n as int));
            }
            assert(text::texts(clauses@) + bucket_clauses(
                group.bucket,
                all.skip(to as int),
                n as int,
            ) =~= before + bucket_clauses(group.bucket, rest, n as int));
        }
        from = to;
    }
    proof {
        assert(all.skip(from as int) =~= Seq::empty());
        assert(text::texts(clauses@) =~= text::texts(clauses@) + bucket_clauses(
            group.bucket,
            all.skip(from as int),
            n as int,
        ));
    }
}

/// Builds the condition on signatures: one test for so many of a bucket at a time.
pub fn build_signature_filter(bucketed_signatures: &Vec<SignatureBucket>, in_clause_chunk: usize) -> (r:
    String)
    ensures
        r@ == filter_text(bucketed_signatures@, in_clause_chunk),
{
    let n: usize = if in_clause_chunk == 0 {
        1
    } else {
        in_clause_chunk
    };
    let mut clauses: Vec<String> = Vec::new();
    let mut i: usize = 0;
    proof {
        assert(bucketed_signatures@.take(0) =~= Seq::empty());
        assert(text::texts(clauses@) =~= Seq::empty());
    }
    while i < bucketed_signatures.len()
        invariant
            n > 0,
            i <= bucketed_signatures@.len(),
            text::texts(clauses@) == filter_clauses(bucketed_signatures@.take(i as int), n as int),
        decreases bucketed_signatures@.len() - i,
    {
        append_bucket_clauses(&mut clauses, &bucketed_signatures[i], n);
        i += 1;
        proof {
            let more = bucketed_signatures@.take(i as int);
            assert(more.drop_last() =~= bucketed_signatures@.take(i - 1));
            assert(more.last() == bucketed_signatures@[i - 1]);
        }
    }
    assert(bucketed_signatures@.take(i as int) =~= bucketed_signatures@);
    text::join_texts(&clauses, " OR ")
}

/// A way to look signatures up.
#[derive(Clone, Copy, Debug, PartialEq, Eq, Structural)]
pub enum LookupRoute {
    /// On their shards, natively.
    ShardTcp,
    /// On their shards.
    ShardHttp,
    /// In the distributed table.
    Distributed,
}

/// What follows a failure.
#[derive(Clone, Copy, Debug, PartialEq, Eq, Structural)]
pub enum AfterLookupFailure {
    /// Another way is tried.
    Try(LookupRoute),
    /// The failure is reported.
    Report,
}

impl LookupRoute {
    /// What follows a failure, given whether it may be gone the next time.
    pub open spec fn spec_after_failure(self, transient: bool) -> AfterLookupFailure {
        match self {
            LookupRoute::ShardTcp if transient => AfterLookupFailure::Try(LookupRoute::ShardHttp),
            LookupRoute::ShardHttp => AfterLookupFailure::Try(LookupRoute::Distributed),
            _ => AfterLookupFailure::Report,
        }
    }

    /// What follows a failure, given whether it may be gone the next time.
    pub fn after_failure(self, transient: bool) -> (r: AfterLookupFailure)
        ensures
            r == self.spec_after_failure(transient),
    {
        match self {
            LookupRoute::ShardTcp if transient => AfterLookupFailure::Try(LookupRoute::ShardHttp),
            LookupRoute::ShardHttp => AfterLookupFailure::Try(LookupRoute::Distributed),
            _ => AfterLookupFailure::Report,
        }
    }
}

/// Every failure on a shard whose cause may be gone leads to the distributed table in the end, and
/// a failure there is reported.
pub proof fn law_lookup_ends_at_the_distributed_table(transient: bool)
    ensures
        LookupRoute::ShardTcp.spec_after_failure(true) == AfterLookupFailure::Try(
            LookupRoute::ShardHttp,
        ),
        LookupRoute::ShardTcp.spec_after_failure(false) is Report,
        LookupRoute::ShardHttp.spec_after_failure(transient) == AfterLookupFailure::Try(
            LookupRoute::Distributed,
        ),
        LookupRoute::Distributed.spec_after_failure(transient) is Report,
{
}

/// The query for the slot of a signature in the distributed table.
pub open spec fn signature_slot_query(
    table: Seq<char>,
    sig_bucket: u64,
    signature_literal: Seq<char>,
    settings_clause: Seq<char>,
) -> Seq<char> {
    ("SELECT
                    slot,
                    slot_idx
                 FROM "@ + table + "
                 PREWHERE sig_bucket = "@ + text::dec(sig_bucket as nat) + " AND signature = "@ + signature_literal + "
                 ORDER BY slot DESC, slot_idx DESC, signature
                 LIMIT 1
                 "@ + settings_clause)
}

/// The query for the slot of a signature in a table of a shard.
pub open spec fn local_signature_slot_query(
    table: Seq<char>,
    sig_bucket: u64,
    signature_literal: Seq<char>,
    settings_clause: Seq<char>,
) -> Seq<char> {
    ("SELECT
                slot,
                slot_idx
             FROM "@ + table + "
             PREWHERE sig_bucket = "@ + text::dec(sig_bucket as nat) + " AND signature = "@ + signature_literal + "
             ORDER BY slot DESC, slot_idx DESC
             LIMIT 1
             "@ + settings_clause)
}

fn build_signature_slot_query(table: &str, entry: &BucketedSignature, settings_clause: &str) -> (q:
    String)
    ensures
        q@ == signature_slot_query(table@, entry.bucket, entry.literal@, settings_clause@),
{
    let sig_bucket: u64 = entry.bucket;
    let signature_literal = entry.literal.as_str();
    let mut m = "SELECT
                    slot,
                    slot_idx
                 FROM ".to_owned();
    m.append(table);
    m.append("
                 PREWHERE sig_bucket = ");
    m.append(text::dec_string(sig_bucket as u64).as_str());
    m.append(" AND signature = ");
    m.append(signature_literal);
    m.append("
                 ORDER BY slot DESC, slot_idx DESC, signature
                 LIMIT 1
                 ");
    m.append(settings_clause);
    m
}

/// A signature is looked for in its bucket, and its newest place is returned.
pub proof fn law_slot_of_a_signature_is_its_newest(
    table: Seq<char>,
    sig_bucket: u64,
    signature_literal: Seq<char>,
    settings_clause: Seq<char>,
)
    ensures
        sql::reads_as(signature_slot_query(table, sig_bucket, signature_literal, settings_clause), seq![
            "SELECT"@,
            "slot,"@,
            "slot_idx"@,
            "FROM"@,
            table,
            "PREWHERE"@,
            "sig_bucket = "@ + text::dec(sig_bucket as nat),
            "AND"@,
            "signature = "@ + signature_literal,
            "ORDER BY"@,
            "slot DESC, slot_idx DESC, signature"@,
            "LIMIT 1"@,
            settings_clause,
        ]),
{
    let words = sql::first("SELECT"@);
    let words = sql::next(words, 20, "slot,"@);
    let words = sql::next(words, 20, "slot_idx"@);
    let words = sql::next(words, 17, "FROM"@);
    let words = sql::next(words, -1, table);
    let words = sql::next(words, 17, "PREWHERE"@);
    let words = sql::next(words, -1, "sig_bucket = "@ + text::dec(sig_bucket as nat));
    let words = sql::next(words, -1, "AND"@);
    let words = sql::next(words, -1, "signature = "@ + signature_literal);
    let words = sql::next(words, 17, "ORDER BY"@);
    let words = sql::next(words, -1, "slot DESC, slot_idx DESC, signature"@);
    let words = sql::next(words, 17, "LIMIT 1"@);
    let words = sql::next(words, 17, settings_clause);
    assert(sql::reads_as(signature_slot_query(table, sig_bucket, signature_literal, settings_clause), words.1)) by {
        assert("SELECT
                    slot,
                    slot_idx
                 FROM "@ == "SELECT"@ + sql::gap(20) + "slot,"@ + sql::gap(20) + "slot_idx"@ + sql::gap(17) + "FROM"@ + sql::gap(-1)) by {
            reveal_strlit("SELECT
                    slot,
                    slot_idx
                 FROM ");
            reveal_strlit("SELECT");
            reveal_strlit("slot,");
            reveal_strlit("slot_idx");
            reveal_strlit("FROM");
        }
        assert("
                 PREWHERE sig_bucket = "@ == sql::gap(17) + "PREWHERE"@ + sql::gap(-1) + "sig_bucket = "@) by {
            reveal_strlit("
                 PREWHERE sig_bucket = ");
            reveal_strlit("PREWHERE");
            reveal_strlit("sig_bucket = ");
        }
        assert(" AND signature = "@ == sql::gap(-1) + "AND"@ + sql::gap(-1) + "signature = "@) by {
            reveal_strlit(" AND signature = ");
            reveal_strlit("AND");
            reveal_strlit("signature = ");
        }
        assert("
                 ORDER BY slot DESC, slot_idx DESC, signature
                 LIMIT 1
                 "@ == sql::gap(17) + "ORDER BY"@ + sql::gap(-1) + "slot DESC, slot_idx DESC, signature"@ + sql::gap(17) + "LIMIT 1"@ + sql::gap(17)) by {
            reveal_strlit("
                 ORDER BY slot DESC, slot_idx DESC, signature
                 LIMIT 1
                 ");
            reveal_strlit("ORDER BY");
            reveal_strlit("slot DESC, slot_idx DESC, signature");
            reveal_strlit("LIMIT 1");
        }
        broadcast use sql::lemma_joined_first;

        sql::lemma_same_text(signature_slot_query(table, sig_bucket, signature_literal, settings_clause), words);
    }
    assert(words.1 =~= seq![
        "SELECT"@,
        "slot,"@,
        "slot_idx"@,
        "FROM"@,
        table,
        "PREWHERE"@,
        "sig_bucket = "@ + text::dec(sig_bucket as nat),
        "AND"@,
        "signature = "@ + signature_literal,
        "ORDER BY"@,
        "slot DESC, slot_idx DESC, signature"@,
        "LIMIT 1"@,
        settings_clause,
    ]);
}

fn build_local_signature_slot_query(
    table: &str,
    entry: &BucketedSignature,
    settings_clause: &str,
) -> (q: String)
    ensures
        q@ == local_signature_slot_query(table@, entry.bucket, entry.literal@, settings_clause@),
{
    let sig_bucket: u64 = entry.bucket;
    let signature_literal = entry.literal.as_str();
    let mut m = "SELECT
                slot,
                slot_idx
             FROM ".to_owned();
    m.append(table);
    m.append("
             PREWHERE sig_bucket = ");
    m.append(text::dec_string(sig_bucket as u64).as_str());
    m.append(" AND signature = ");
    m.append(signature_literal);
    m.append("
             ORDER BY slot DESC, slot_idx DESC
             LIMIT 1
             ");
    m.append(settings_clause);
    m
}

/// A signature is looked for in its bucket, and its newest place is returned.
pub proof fn law_slot_on_a_shard_is_its_newest(
    table: Seq<char>,
    sig_bucket: u64,
    signature_literal: Seq<char>,
    settings_clause: Seq<char>,
)
    ensures
        sql::reads_as(local_signature_slot_query(table, sig_bucket, signature_literal, settings_clause), seq![
            "SELECT"@,
            "slot,"@,
            "slot_idx"@,
            "FROM"@,
            table,
            "PREWHERE"@,
            "sig_bucket = "@ + text::dec(sig_bucket as nat),
            "AND"@,
            "signature = "@ + signature_literal,
            "ORDER BY"@,
            "slot DESC, slot_idx DESC"@,
            "LIMIT 1"@,
            settings_clause,
        ]),
{
    let words = sql::first("SELECT"@);
    let words = sql::next(words, 16, "slot,"@);
    let words = sql::next(words, 16, "slot_idx"@);
    let words = sql::next(words, 13, "FROM"@);
    let words = sql::next(words, -1, table);
    let words = sql::next(words, 13, "PREWHERE"@);
    let words = sql::next(words, -1, "sig_bucket = "@ + text::dec(sig_bucket as nat));
    let words = sql::next(words, -1, "AND"@);
    let words = sql::next(words, -1, "signature = "@ + signature_literal);
    let words = sql::next(words, 13, "ORDER BY"@);
    let words = sql::next(words, -1, "slot DESC, slot_idx DESC"@);
    let words = sql::next(words, 13, "LIMIT 1"@);
    let words = sql::next(words, 13, settings_clause);
    assert(sql::reads_as(local_signature_slot_query(table, sig_bucket, signature_literal, settings_clause), words.1)) by {
        assert("SELECT
                slot,
                slot_idx
             FROM "@ == "SELECT"@ + sql::gap(16) + "slot,"@ + sql::gap(16) + "slot_idx"@ + sql::gap(13) + "FROM"@ + sql::gap(-1)) by {
            reveal_strlit("SELECT
                slot,
                slot_idx
             FROM ");
            reveal_strlit("SELECT");
            reveal_strlit("slot,");
            reveal_strlit("slot_idx");
            reveal_strlit("FROM");
        }
        assert("
             PREWHERE sig_bucket = "@ == sql::gap(13) + "PREWHERE"@ + sql::gap(-1) + "sig_bucket = "@) by {
            reveal_strlit("
             PREWHERE sig_bucket = ");
            reveal_strlit("PREWHERE");
            reveal_strlit("sig_bucket = ");
        }
        assert(" AND signature = "@ == sql::gap(-1) + "AND"@ + sql::gap(-1) + "signature = "@) by {
            reveal_strlit(" AND signature = ");
            reveal_strlit("AND");
            reveal_strlit("signature = ");
        }
        assert("
             ORDER BY slot DESC, slot_idx DESC
             LIMIT 1
             "@ == sql::gap(13) + "ORDER BY"@ + sql::gap(-1) + "slot DESC, slot_idx DESC"@ + sql::gap(13) + "LIMIT 1"@ + sql::gap(13)) by {
            reveal_strlit("
             ORDER BY slot DESC, slot_idx DESC
             LIMIT 1
             ");
            reveal_strlit("ORDER BY");
            reveal_strlit("slot DESC, slot_idx DESC");
            reveal_strlit("LIMIT 1");
        }
        broadcast use sql::lemma_joined_first;

        sql::lemma_same_text(local_signature_slot_query(table, sig_bucket, signature_literal, settings_clause), words);
    }
    assert(words.1 =~= seq![
        "SELECT"@,
        "slot,"@,
        "slot_idx"@,
        "FROM"@,
        table,
        "PREWHERE"@,
        "sig_bucket = "@ + text::dec(sig_bucket as nat),
        "AND"@,
        "signature = "@ + signature_literal,
        "ORDER BY"@,
        "slot DESC, slot_idx DESC"@,
        "LIMIT 1"@,
        settings_clause,
    ]);
}

/// The query for the outcomes of signatures, the newest of each.
pub open spec fn statuses_query(
    route: LookupRoute,
    table: Seq<char>,
    signature_filter: Seq<char>,
    settings_clause: Seq<char>,
) -> Seq<char> {
    match route {
        LookupRoute::Distributed => ("SELECT
                    signature,
                    tupleElement(latest, 1) AS slot,
                    tupleElement(latest, 2) AS err
                 FROM (
                    SELECT
                        signature,
                        argMax(tuple(slot, err), tuple(slot, slot_idx)) AS latest
                    FROM "@ + table + "
                    PREWHERE "@ + signature_filter + "
                    GROUP BY signature
                 )
                 "@ + settings_clause),
        LookupRoute::ShardTcp => ("SELECT
                        base58Encode(signature) AS signature,
                        tupleElement(latest, 1) AS slot,
                        tupleElement(latest, 2) AS err
                     FROM (
                        SELECT
                            signature,
                            argMax(tuple(slot, err), tuple(slot, slot_idx)) AS latest
                        FROM "@ + table + "
                        PREWHERE "@ + signature_filter + "
                        GROUP BY signature
                     )
                     "@ + settings_clause),
        LookupRoute::ShardHttp => ("SELECT
                        signature,
                        tupleElement(latest, 1) AS slot,
                        tupleElement(latest, 2) AS err
                     FROM (
                        SELECT
                            signature,
                            argMax(tuple(slot, err), tuple(slot, slot_idx)) AS latest
                        FROM "@ + table + "
                        PREWHERE "@ + signature_filter + "
                        GROUP BY signature
                     )
                     "@ + settings_clause),
    }
}

fn statuses_query_text(
    route: LookupRoute,
    table: &str,
    signature_filter: &str,
    settings_clause: &str,
) -> (q: String)
    ensures
        q@ == statuses_query(route, table@, signature_filter@, settings_clause@),
{
    match route {
        LookupRoute::Distributed => {
            let mut m = "SELECT
                    signature,
                    tupleElement(latest, 1) AS slot,
                    tupleElement(latest, 2) AS err
                 FROM (
                    SELECT
                        signature,
                        argMax(tuple(slot, err), tuple(slot, slot_idx)) AS latest
                    FROM ".to_owned();
            m.append(table);
            m.append("
                    PREWHERE ");
            m.append(signature_filter);
            m.append("
                    GROUP BY signature
                 )
                 ");
            m.append(settings_clause);
            m
        },
        LookupRoute::ShardTcp => {
            let mut m = "SELECT
                        base58Encode(signature) AS signature,
                        tupleElement(latest, 1) AS slot,
                        tupleElement(latest, 2) AS err
                     FROM (
                        SELECT
                            signature,
                            argMax(tuple(slot, err), tuple(slot, slot_idx)) AS latest
                        FROM ".to_owned();
            m.append(table);
            m.append("
                        PREWHERE ");
            m.append(signature_filter);
            m.append("
                        GROUP BY signature
                     )
                     ");
            m.append(settings_clause);
            m
        },
        LookupRoute::ShardHttp => {
            let mut m = "SELECT
                        signature,
                        tupleElement(latest, 1) AS slot,
                        tupleElement(latest, 2) AS err
                     FROM (
                        SELECT
                            signature,
                            argMax(tuple(slot, err), tuple(slot, slot_idx)) AS latest
                        FROM ".to_owned();
            m.append(table);
            m.append("
                        PREWHERE ");
            m.append(signature_filter);
            m.append("
                        GROUP BY signature
                     )
                     ");
            m.append(settings_clause);
            m
        },
    }
}

/// Of each signature that is asked for, the outcome at its newest place is returned.
pub proof fn law_outcome_is_the_newest_over_all_shards(
    table: Seq<char>,
    signature_filter: Seq<char>,
    settings_clause: Seq<char>,
)
    ensures
        sql::reads_as(statuses_query(LookupRoute::Distributed, table, signature_filter, settings_clause), seq![
            "SELECT"@,
            "signature,"@,
            "tupleElement(latest, 1) AS slot,"@,
            "tupleElement(latest, 2) AS err"@,
            "FROM ("@,
            "SELECT"@,
            "signature,"@,
            "argMax(tuple(slot, err), tuple(slot, slot_idx)) AS latest"@,
            "FROM"@,
            table,
            "PREWHERE"@,
            signature_filter,
            "GROUP BY signature"@,
            ")"@,
            settings_clause,
        ]),
{
    let words = sql::first("SELECT"@);
    let words = sql::next(words, 20, "signature,"@);
    let words = sql::next(words, 20, "tupleElement(latest, 1) AS slot,"@);
    let words = sql::next(words, 20, "tupleElement(latest, 2) AS err"@);
    let words = sql::next(words, 17, "FROM ("@);
    let words = sql::next(words, 20, "SELECT"@);
    let words = sql::next(words, 24, "signature,"@);
    let words = sql::next(words, 24, "argMax(tuple(slot, err), tuple(slot, slot_idx)) AS latest"@);
    let words = sql::next(words, 20, "FROM"@);
    let words = sql::next(words, -1, table);
    let words = sql::next(words, 20, "PREWHERE"@);
    let words = sql::next(words, -1, signature_filter);
    let words = sql::next(words, 20, "GROUP BY signature"@);
    let words = sql::next(words, 17, ")"@);
    let words = sql::next(words, 17, settings_clause);
    assert(sql::reads_as(statuses_query(LookupRoute::Distributed, table, signature_filter, settings_clause), words.1)) by {
        assert("SELECT
                    signature,
                    tupleElement(latest, 1) AS slot,
                    tupleElement(latest, 2) AS err
                 FROM (
                    SELECT
                        signature,
                        argMax(tuple(slot, err), tuple(slot, slot_idx)) AS latest
                    FROM "@ == "SELECT"@ + sql::gap(20) + "signature,"@ + sql::gap(20) + "tupleElement(latest, 1) AS slot,"@ + sql::gap(20) + "tupleElement(latest, 2) AS err"@ + sql::gap(17) + "FROM ("@ + sql::gap(20) + "SELECT"@ + sql::gap(24) + "signature,"@ + sql::gap(24) + "argMax(tuple(slot, err), tuple(slot, slot_idx)) AS latest"@ + sql::gap(20) + "FROM"@ + sql::gap(-1)) by {
            reveal_strlit("SELECT
                    signature,
                    tupleElement(latest, 1) AS slot,
                    tupleElement(latest, 2) AS err
                 FROM (
                    SELECT
                        signature,
                        argMax(tuple(slot, err), tuple(slot, slot_idx)) AS latest
                    FROM ");
            reveal_strlit("SELECT");
            reveal_strlit("signature,");
            reveal_strlit("tupleElement(latest, 1) AS slot,");
            reveal_strlit("tupleElement(latest, 2) AS err");
            reveal_strlit("FROM (");
            reveal_strlit("argMax(tuple(slot, err), tuple(slot, slot_idx)) AS latest");
            reveal_strlit("FROM");
        }
        assert("
                    PREWHERE "@ == sql::gap(20) + "PREWHERE"@ + sql::gap(-1)) by {
            reveal_strlit("
                    PREWHERE ");
            reveal_strlit("PREWHERE");
        }
        assert("
                    GROUP BY signature
                 )
                 "@ == sql::gap(20) + "GROUP BY signature"@ + sql::gap(17) + ")"@ + sql::gap(17)) by {
            reveal_strlit("
                    GROUP BY signature
                 )
                 ");
            reveal_strlit("GROUP BY signature");
            reveal_strlit(")");
        }
        broadcast use sql::lemma_joined_first;

        sql::lemma_same_text(statuses_query(LookupRoute::Distributed, table, signature_filter, settings_clause), words);
    }
    assert(words.1 =~= seq![
        "SELECT"@,
        "signature,"@,
        "tupleElement(latest, 1) AS slot,"@,
        "tupleElement(latest, 2) AS err"@,
        "FROM ("@,
        "SELECT"@,
        "signature,"@,
        "argMax(tuple(slot, err), tuple(slot, slot_idx)) AS latest"@,
        "FROM"@,
        table,
        "PREWHERE"@,
        signature_filter,
        "GROUP BY signature"@,
        ")"@,
        settings_clause,
    ]);
}

/// Of each signature that is asked for, the outcome at its newest place is returned, and a shard that is
/// asked natively gives the signature as text.
pub proof fn law_outcome_is_the_newest_on_a_shard_as_text(
    table: Seq<char>,
    signature_filter: Seq<char>,
    settings_clause: Seq<char>,
)
    ensures
        sql::reads_as(statuses_query(LookupRoute::ShardTcp, table, signature_filter, settings_clause), seq![
            "SELECT"@,
            "base58Encode(signature) AS signature,"@,
            "tupleElement(latest, 1) AS slot,"@,
            "tupleElement(latest, 2) AS err"@,
            "FROM ("@,
            "SELECT"@,
            "signature,"@,
            "argMax(tuple(slot, err), tuple(slot, slot_idx)) AS latest"@,
            "FROM"@,
            table,
            "PREWHERE"@,
            signature_filter,
            "GROUP BY signature"@,
            ")"@,
            settings_clause,
        ]),
{
    let words = sql::first("SELECT"@);
    let words = sql::next(words, 24, "base58Encode(signature) AS signature,"@);
    let words = sql::next(words, 24, "tupleElement(latest, 1) AS slot,"@);
    let words = sql::next(words, 24, "tupleElement(latest, 2) AS err"@);
    let words = sql::next(words, 21, "FROM ("@);
    let words = sql::next(words, 24, "SELECT"@);
    let words = sql::next(words, 28, "signature,"@);
    let words = sql::next(words, 28, "argMax(tuple(slot, err), tuple(slot, slot_idx)) AS latest"@);
    let words = sql::next(words, 24, "FROM"@);
    let words = sql::next(words, -1, table);
    let words = sql::next(words, 24, "PREWHERE"@);
    let words = sql::next(words, -1, signature_filter);
    let words = sql::next(words, 24, "GROUP BY signature"@);
    let words = sql::next(words, 21, ")"@);
    let words = sql::next(words, 21, settings_clause);
    assert(sql::reads_as(statuses_query(LookupRoute::ShardTcp, table, signature_filter, settings_clause), words.1)) by {
        assert("SELECT
                        base58Encode(signature) AS signature,
                        tupleElement(latest, 1) AS slot,
                        tupleElement(latest, 2) AS err
                     FROM (
                        SELECT
                            signature,
                            argMax(tuple(slot, err), tuple(slot, slot_idx)) AS latest
                        FROM "@ == "SELECT"@ + sql::gap(24) + "base58Encode(signature) AS signature,"@ + sql::gap(24) + "tupleElement(latest, 1) AS slot,"@ + sql::gap(24) + "tupleElement(latest, 2) AS err"@ + sql::gap(21) + "FROM ("@ + sql::gap(24) + "SELECT"@ + sql::gap(28) + "signature,"@ + sql::gap(28) + "argMax(tuple(slot, err), tuple(slot, slot_idx)) AS latest"@ + sql::gap(24) + "FROM"@ + sql::gap(-1)) by {
            reveal_strlit("SELECT
                        base58Encode(signature) AS signature,
                        tupleElement(latest, 1) AS slot,
                        tupleElement(latest, 2) AS err
                     FROM (
                        SELECT
                            signature,
                            argMax(tuple(slot, err), tuple(slot, slot_idx)) AS latest
                        FROM ");
            reveal_strlit("SELECT");
            reveal_strlit("base58Encode(signature) AS signature,");
            reveal_strlit("tupleElement(latest, 1) AS slot,");
            reveal_strlit("tupleElement(latest, 2) AS err");
            reveal_strlit("FROM (");
            reveal_strlit("signature,");
            reveal_strlit("argMax(tuple(slot, err), tuple(slot, slot_idx)) AS latest");
            reveal_strlit("FROM");
        }
        assert("
                        PREWHERE "@ == sql::gap(24) + "PREWHERE"@ + sql::gap(-1)) by {
            reveal_strlit("
                        PREWHERE ");
            reveal_strlit("PREWHERE");
        }
        assert("
                        GROUP BY signature
                     )
                     "@ == sql::gap(24) + "GROUP BY signature"@ + sql::gap(21) + ")"@ + sql::gap(21)) by {
            reveal_strlit("
                        GROUP BY signature
                     )
                     ");
            reveal_strlit("GROUP BY signature");
            reveal_strlit(")");
        }
        broadcast use sql::lemma_joined_first;

        sql::lemma_same_text(statuses_query(LookupRoute::ShardTcp, table, signature_filter, settings_clause), words);
    }
    assert(words.1 =~= seq![
        "SELECT"@,
        "base58Encode(signature) AS signature,"@,
        "tupleElement(latest, 1) AS slot,"@,
        "tupleElement(latest, 2) AS err"@,
        "FROM ("@,
        "SELECT"@,
        "signature,"@,
        "argMax(tuple(slot, err), tuple(slot, slot_idx)) AS latest"@,
        "FROM"@,
        table,
        "PREWHERE"@,
        signature_filter,
        "GROUP BY signature"@,
        ")"@,
        settings_clause,
    ]);
}

/// Of each signature that is asked for, the outcome at its newest place is returned by a shard.
pub proof fn law_outcome_is_the_newest_on_a_shard(
    table: Seq<char>,
    signature_filter: Seq<char>,
    settings_clause: Seq<char>,
)
    ensures
        sql::reads_as(statuses_query(LookupRoute::ShardHttp, table, signature_filter, settings_clause), seq![
            "SELECT"@,
            "signature,"@,
            "tupleElement(latest, 1) AS slot,"@,
            "tupleElement(latest, 2) AS err"@,
            "FROM ("@,
            "SELECT"@,
            "signature,"@,
            "argMax(tuple(slot, err), tuple(slot, slot_idx)) AS latest"@,
            "FROM"@,
            table,
            "PREWHERE"@,
            signature_filter,
            "GROUP BY signature"@,
            ")"@,
            settings_clause,
        ]),
{
    let words = sql::first("SELECT"@);
    let words = sql::next(words, 24, "signature,"@);
    let words = sql::next(words, 24, "tupleElement(latest, 1) AS slot,"@);
    let words = sql::next(words, 24, "tupleElement(latest, 2) AS err"@);
    let words = sql::next(words, 21, "FROM ("@);
    let words = sql::next(words, 24, "SELECT"@);
    let words = sql::next(words, 28, "signature,"@);
    let words = sql::next(words, 28, "argMax(tuple(slot, err), tuple(slot, slot_idx)) AS latest"@);
    let words = sql::next(words, 24, "FROM"@);
    let words = sql::next(words, -1, table);
    let words = sql::next(words, 24, "PREWHERE"@);
    let words = sql::next(words, -1, signature_filter);
    let words = sql::next(words, 24, "GROUP BY signature"@);
    let words = sql::next(words, 21, ")"@);
    let words = sql::next(words, 21, settings_clause);
    assert(sql::reads_as(statuses_query(LookupRoute::ShardHttp, table, signature_filter, settings_clause), words.1)) by {
        assert("SELECT
                        signature,
                        tupleElement(latest, 1) AS slot,
                        tupleElement(latest, 2) AS err
                     FROM (
                        SELECT
                            signature,
                            argMax(tuple(slot, err), tuple(slot, slot_idx)) AS latest
                        FROM "@ == "SELECT"@ + sql::gap(24) + "signature,"@ + sql::gap(24) + "tupleElement(latest, 1) AS slot,"@ + sql::gap(24) + "tupleElement(latest, 2) AS err"@ + sql::gap(21) + "FROM ("@ + sql::gap(24) + "SELECT"@ + sql::gap(28) + "signature,"@ + sql::gap(28) + "argMax(tuple(slot, err), tuple(slot, slot_idx)) AS latest"@ + sql::gap(24) + "FROM"@ + sql::gap(-1)) by {
            reveal_strlit("SELECT
                        signature,
                        tupleElement(latest, 1) AS slot,
                        tupleElement(latest, 2) AS err
                     FROM (
                        SELECT
                            signature,
                            argMax(tuple(slot, err), tuple(slot, slot_idx)) AS latest
                        FROM ");
            reveal_strlit("SELECT");
            reveal_strlit("signature,");
            reveal_strlit("tupleElement(latest, 1) AS slot,");
            reveal_strlit("tupleElement(latest, 2) AS err");
            reveal_strlit("FROM (");
            reveal_strlit("argMax(tuple(slot, err), tuple(slot, slot_idx)) AS latest");
            reveal_strlit("FROM");
        }
        assert("
                        PREWHERE "@ == sql::gap(24) + "PREWHERE"@ + sql::gap(-1)) by {
            reveal_strlit("
                        PREWHERE ");
            reveal_strlit("PREWHERE");
        }
        assert("
                        GROUP BY signature
                     )
                     "@ == sql::gap(24) + "GROUP BY signature"@ + sql::gap(21) + ")"@ + sql::gap(21)) by {
            reveal_strlit("
                        GROUP BY signature
                     )
                     ");
            reveal_strlit("GROUP BY signature");
            reveal_strlit(")");
        }
        broadcast use sql::lemma_joined_first;

        sql::lemma_same_text(statuses_query(LookupRoute::ShardHttp, table, signature_filter, settings_clause), words);
    }
    assert(words.1 =~= seq![
        "SELECT"@,
        "signature,"@,
        "tupleElement(latest, 1) AS slot,"@,
        "tupleElement(latest, 2) AS err"@,
        "FROM ("@,
        "SELECT"@,
        "signature,"@,
        "argMax(tuple(slot, err), tuple(slot, slot_idx)) AS latest"@,
        "FROM"@,
        table,
        "PREWHERE"@,
        signature_filter,
        "GROUP BY signature"@,
        ")"@,
        settings_clause,
    ]);
}

/// Whether this is the query for the outcomes of these signatures.
pub open spec fn is_statuses_query(
    q: Seq<char>,
    route: LookupRoute,
    table: Seq<char>,
    entries: Seq<BucketedSignature>,
    in_clause_chunk: usize,
    settings_clause: Seq<char>,
) -> bool {
    exists|groups: Seq<SignatureBucket>| #[trigger]
        is_grouping(groups, entries) && q == statuses_query(
            route,
            table,
            filter_text(groups, in_clause_chunk),
            settings_clause,
        )
}

/// Builds the query for the outcomes of signatures.
pub fn build_statuses_query(
    route: LookupRoute,
    table: &str,
    entries: &Vec<BucketedSignature>,
    in_clause_chunk: usize,
    settings_clause: &str,
) -> (q: String)
    ensures
        is_statuses_query(q@, route, table@, entries@, in_clause_chunk, settings_clause@),
{
    let groups = group_by_bucket(entries);
    let filter = build_signature_filter(&groups, in_clause_chunk);
    statuses_query_text(route, table, filter.as_str(), settings_clause)
}

/// What to ask for the outcomes of signatures.
#[derive(Debug)]
pub enum StatusesRequest {
    /// Nothing: no signature is asked for.
    Nothing,
    /// Each of these shards, with its query.
    Shards(Vec<(usize, String)>),
    /// The distributed table.
    Distributed(String),
}

/// The shards that hold any of the signatures, in order.
pub open spec fn shards_with_entries(
    topology: ShardTopology,
    entries: Seq<BucketedSignature>,
    n: int,
) -> Seq<int>
    decreases n,
{
    if n <= 0 {
        Seq::empty()
    } else {
        let rest = shards_with_entries(topology, entries, n - 1);
        if shard_entries(topology, entries, n - 1).len() > 0 {
            rest.push(n - 1)
        } else {
            rest
        }
    }
}

/// Whether these are the queries for the shards that hold the signatures.
pub open spec fn are_shard_queries(
    queries: Seq<(usize, String)>,
    c: ClickHouseClient,
    topology: ShardTopology,
    route: LookupRoute,
    entries: Seq<BucketedSignature>,
    settings_clause: Seq<char>,
) -> bool {
    let shards = shards_with_entries(topology, entries, topology.shards@.len() as int);
    &&& queries.len() == shards.len()
    &&& forall|k: int|
        0 <= k < queries.len() ==> {
            &&& (#[trigger] queries[k]).0 == shards[k]
            &&& is_statuses_query(
                queries[k].1@,
                route,
                c.signatures_local_table->0@,
                shard_entries(topology, entries, shards[k]),
                c.in_clause_chunk,
                settings_clause,
            )
        }
}

impl ClickHouseClient {
    /// Whether signatures can be looked up on their shards.
    pub open spec fn looks_up_on_shards(self) -> bool {
        startup::direct(self) && self.shard_topology is Some && self.signatures_local_table is Some
    }

    /// The first way to look signatures up.
    pub fn first_lookup_route(&self) -> (r: LookupRoute)
        ensures
            r == (if self.looks_up_on_shards() {
                if self.routing_policy.transport is Tcp {
                    LookupRoute::ShardTcp
                } else {
                    LookupRoute::ShardHttp
                }
            } else {
                LookupRoute::Distributed
            }),
    {
        if self.scope_shard_direct() && self.shard_topology.is_some()
            && self.signatures_local_table.is_some() {
            if self.transport_tcp() {
                LookupRoute::ShardTcp
            } else {
                LookupRoute::ShardHttp
            }
        } else {
            LookupRoute::Distributed
        }
    }

    /// The query for the slot of a signature, and the shard to ask.
    pub fn signature_slot_request(
        &self,
        route: LookupRoute,
        signature_bytes: &[u8],
        settings_clause: &str,
    ) -> (r: (Option<usize>, String))
        requires
            self.wf(),
            !(route is Distributed) ==> self.looks_up_on_shards(),
        ensures
            ({
                let bucket = queries::signature_bucket(
                    signature_bytes@,
                    self.bucket_moduli.signatures,
                );
                let literal = signature_text(signature_bytes@);
                if route is Distributed {
                    &&& r.0 is None
                    &&& r.1@ == signature_slot_query(
                        self.signature_statuses_table@,
                        bucket,
                        literal,
                        settings_clause@,
                    )
                } else {
                    &&& r.0 matches Some(shard)
                    &&& sharding::is_weighted_index(
                        self.shard_topology->0.weights@,
                        self.shard_topology->0.total_weight,
                        hashing::cityhash(signature_bytes@),
                        shard as int,
                    )
                    &&& r.1@ == local_signature_slot_query(
                        self.signatures_local_table->0@,
                        bucket,
                        literal,
                        settings_clause@,
                    )
                }
            }),
    {
        let entry = bucket_signature(signature_bytes, self.signatures_bucket_modulus());
        if let (Some(topology), Some(local_table)) = (
            &self.shard_topology,
            &self.signatures_local_table,
        ) {
            if route != LookupRoute::Distributed {
                let shard: usize = topology.shard_index_for_hash(entry.hash);
                return (
                    Some(shard),
                    build_local_signature_slot_query(
                        local_table.as_str(),
                        &entry,
                        settings_clause,
                    ),
                );
            }
        }
        (
            None,
            build_signature_slot_query(
                self.signature_statuses_table.as_str(),
                &entry,
                settings_clause,
            ),
        )
    }

    /// What to ask for the outcomes of signatures. Signatures that are not well-formed are reported
    /// before anything is asked.
    pub fn statuses_request(
        &self,
        route: LookupRoute,
        signatures: &[String],
        settings_clause: &str,
    ) -> (r: Result<StatusesRequest, ProcessingError>)
        requires
            self.wf(),
            !(route is Distributed) ==> self.looks_up_on_shards(),
        ensures
            match r {
                Ok(StatusesRequest::Nothing) => signatures@.len() == 0,
                Ok(StatusesRequest::Distributed(q)) => {
                    &&& signatures@.len() > 0
                    &&& route is Distributed
                    &&& exists|entries: Seq<BucketedSignature>| #[trigger]
                        entries_of(entries, signatures@, self.bucket_moduli.signatures)
                            && is_statuses_query(
                            q@,
                            route,
                            self.signature_statuses_table@,
                            entries,
                            self.in_clause_chunk,
                            settings_clause@,
                        )
                },
                Ok(StatusesRequest::Shards(list)) => {
                    &&& signatures@.len() > 0
                    &&& !(route is Distributed)
                    &&& exists|entries: Seq<BucketedSignature>| #[trigger]
                        entries_of(entries, signatures@, self.bucket_moduli.signatures)
                            && are_shard_queries(
                            list@,
                            *self,
                            self.shard_topology->0,
                            route,
                            entries,
                            settings_clause@,
                        )
                },
                Err(e) => exists|i: int|
                    {
                        &&& #[trigger] is_first_invalid(signatures@, i)
                        &&& e is Deserialization
                        &&& Some(e.context()) == signature_error(signatures@[i]@)
                    },
            },
    {
        if signatures.len() == 0 {
            return Ok(StatusesRequest::Nothing);
        }
        let entries = match bucket_signatures(signatures, self.signatures_bucket_modulus()) {
            Ok(entries) => entries,
            Err(e) => return Err(e),
        };
        if let (Some(topology), Some(local_table)) = (
            &self.shard_topology,
            &self.signatures_local_table,
        ) {
            if route != LookupRoute::Distributed {
                let list = self.shard_queries(
                    topology,
                    local_table.as_str(),
                    route,
                    entries,
                    settings_clause,
                );
                return Ok(StatusesRequest::Shards(list));
            }
        }
        Ok(
            StatusesRequest::Distributed(
                build_statuses_query(
                    route,
                    self.signature_statuses_table.as_str(),
                    &entries,
                    self.in_clause_chunk,
                    settings_clause,
                ),
            ),
        )
    }

    fn shard_queries(
        &self,
        topology: &ShardTopology,
        local_table: &str,
        route: LookupRoute,
        entries: Vec<BucketedSignature>,
        settings_clause: &str,
    ) -> (r: Vec<(usize, String)>)
        requires
            topology.wf(),
            self.signatures_local_table matches Some(table) && table@ == local_table@,
        ensures
            are_shard_queries(r@, *self, *topology, route, entries@, settings_clause@),
    {
        let ghost all = entries@;
        let per_shard = signatures_per_shard(topology, entries);
        let mut r: Vec<(usize, String)> = Vec::new();
        let mut shard: usize = 0;
        while shard < per_shard.len()
            invariant
                shard <= per_shard@.len(),
                per_shard@.len() == topology.shards@.len(),
                self.signatures_local_table matches Some(table) && table@ == local_table@,
                forall|k: int|
                    0 <= k < per_shard@.len() ==> (#[trigger] per_shard@[k])@ == shard_entries(
                        *topology,
                        all,
                        k,
                    ),
                r@.len() == shards_with_entries(*topology, all, shard as int).len(),
                forall|k: int|
                    0 <= k < r@.len() ==> {
                        let shards = shards_with_entries(*topology, all, shard as int);
                        &&& (#[trigger] r@[k]).0 == shards[k]
                        &&& is_statuses_query(
                            r@[k].1@,
                            route,
                            self.signatures_local_table->0@,
                            shard_entries(*topology, all, shards[k]),
                            self.in_clause_chunk,
                            settings_clause@,
                        )
                    },
            decreases per_shard@.len() - shard,
        {
            if per_shard[shard].len() > 0 {
                let query = build_statuses_query(
                    route,
                    local_table,
                    &per_shard[shard],
                    self.in_clause_chunk,
                    settings_clause,
                );
                r.push((shard, query));
            }
            shard += 1;
        }
        r
    }
}

/// A row with the outcome of a signature, with its error as it is reported. A row without an error
/// has none to report.
pub fn map_status_row<E>(
    signature: &[u8],
    slot: u64,
    err: Option<String>,
    parsed_err: Option<E>,
) -> (r: SignatureStatusRecord<E>)
    ensures
        r.signature@ == hashing::base58_text(signature@),
        r.slot == slot,
        r.err == (if err is Some {
            parsed_err
        } else {
            None
        }),
{
    let reported = if err.is_some() {
        parsed_err
    } else {
        None
    };
    SignatureStatusRecord { signature: hashing::base58_encode(signature), slot, err: reported }
}

impl ClickHouseClient {
    /// Whether outcomes are read in the distributed tables in the first place, and not for a local
    /// cache.
    pub open spec fn reads_primary_statuses(self, for_cache: bool) -> bool {
        &&& !for_cache
        &&& self.routing_policy.scope is Distributed
        &&& self.routing_policy.transport is Http
    }

    /// The settings of a read of outcomes over HTTP: its name, and, where they are read in the
    /// distributed tables in the first place, those by which the server ends it when its connection
    /// is closed.
    pub fn signature_status_http_settings(&self, for_cache: bool, query_id: Option<&str>) -> (r: Vec<
        (String, String),
    >)
        ensures
            read_query::settings_texts(r@) == (match query_id {
                Some(id) => seq![("query_id"@, id@)],
                None => Seq::empty(),
            }) + (if self.reads_primary_statuses(for_cache) {
                read_query::protecting()
            } else {
                Seq::empty()
            }),
    {
        let mut r: Vec<(String, String)> = Vec::new();
        if let Some(id) = query_id {
            r.push(setting("query_id", id));
        }
        let ghost named = read_query::settings_texts(r@);
        proof {
            assert(named =~= (match query_id {
                Some(id) => seq![("query_id"@, id@)],
                None => Seq::empty(),
            }));
        }
        if !for_cache && !self.scope_shard_direct() && self.transport_http() {
            r.push(setting("readonly", "2"));
            r.push(setting("cancel_http_readonly_queries_on_client_close", "1"));
            proof {
                assert(read_query::settings_texts(r@) =~= named + read_query::protecting());
            }
        } else {
            proof {
                assert(named + Seq::<(Seq<char>, Seq<char>)>::empty() =~= named);
            }
        }
        r
    }
}

/// What a shard replied: outcomes, a failure that another way may avoid, or one that is reported.
#[derive(Debug)]
pub enum StatusesReply<E> {
    Records(Vec<SignatureStatusRecord<E>>),
    Fallback,
    Error(ProcessingError),
}

/// Why a shard gave no outcomes.
#[derive(Debug)]
pub enum StatusesFailure {
    /// Its query failed, and whether the cause may be gone the next time.
    Query { transient: bool, error: ProcessingError },
    /// Its reply could not be read.
    Row(ProcessingError),
    /// The task that was to ask it broke off.
    Task,
}

impl LookupRoute {
    /// What a failure means: asked over HTTP, another way is tried in any case. Asked natively, it
    /// is tried where the cause may be gone or the task broke off.
    pub open spec fn spec_failed_statuses<E>(self, failure: StatusesFailure) -> StatusesReply<E> {
        match (self, failure) {
            (LookupRoute::ShardHttp, _) => StatusesReply::Fallback,
            (_, StatusesFailure::Task) => StatusesReply::Fallback,
            (LookupRoute::ShardTcp, StatusesFailure::Query { transient: true, .. }) => {
                StatusesReply::Fallback
            },
            (_, StatusesFailure::Query { error, .. }) => StatusesReply::Error(error),
            (_, StatusesFailure::Row(error)) => StatusesReply::Error(error),
        }
    }

    /// What a failure means for a lookup of outcomes.
    pub fn failed_statuses<E>(self, failure: StatusesFailure) -> (r: StatusesReply<E>)
        ensures
            r == self.spec_failed_statuses::<E>(failure),
    {
        match (self, failure) {
            (LookupRoute::ShardHttp, _) => StatusesReply::Fallback,
            (_, StatusesFailure::Task) => StatusesReply::Fallback,
            (LookupRoute::ShardTcp, StatusesFailure::Query { transient: true, .. }) => {
                StatusesReply::Fallback
            },
            (_, StatusesFailure::Query { error, .. }) => StatusesReply::Error(error),
            (_, StatusesFailure::Row(error)) => StatusesReply::Error(error),
        }
    }
}

/// The outcomes of replies.
pub open spec fn replied_statuses<E>(replies: Seq<StatusesReply<E>>) -> Seq<SignatureStatusRecord<E>>
    decreases replies.len(),
{
    if replies.len() == 0 {
        Seq::empty()
    } else {
        replied_statuses(replies.drop_last()) + match replies.last() {
            StatusesReply::Records(records) => records@,
            _ => Seq::empty(),
        }
    }
}

/// Whether a reply is the first without outcomes.
pub open spec fn is_first_without_records<E>(replies: Seq<StatusesReply<E>>, i: int) -> bool {
    &&& 0 <= i < replies.len()
    &&& !(replies[i] is Records)
    &&& forall|k: int| 0 <= k < i ==> (#[trigger] replies[k]) is Records
}

/// Puts the replies of shards together, in the order in which they came. The first without outcomes
/// decides: another way is tried (`None`), or its failure is reported.
pub fn collect_statuses<E>(replies: Vec<StatusesReply<E>>) -> (r: Result<
    Option<Vec<SignatureStatusRecord<E>>>,
    ProcessingError,
>)
    ensures
        match r {
            Ok(Some(records)) => {
                &&& forall|i: int| 0 <= i < replies@.len() ==> (#[trigger] replies@[i]) is Records
                &&& records@ == replied_statuses(replies@)
            },
            Ok(None) => exists|i: int| #[trigger]
                is_first_without_records(replies@, i) && replies@[i] is Fallback,
            Err(e) => exists|i: int| #[trigger]
                is_first_without_records(replies@, i) && replies@[i] == StatusesReply::<E>::Error(
                    e,
                ),
        },
{
    let ghost all = replies@;
    let mut pending = replies;
    let mut records: Vec<SignatureStatusRecord<E>> = Vec::new();
    let ghost mut i: int = 0;
    proof {
        assert(all.take(0) =~= Seq::empty());
        assert(all.skip(0) =~= all);
    }
    while pending.len() > 0
        invariant
            0 <= i <= all.len(),
            all == replies@,
            pending@ == all.skip(i),
            records@ == replied_statuses(all.take(i)),
            forall|k: int| 0 <= k < i ==> (#[trigger] all[k]) is Records,
        decreases pending@.len(),
    {
        let reply = pending.remove(0);
        proof {
            assert(reply == all[i]);
            assert(all.take(i + 1).drop_last() =~= all.take(i));
            assert(all.take(i + 1).last() == reply);
            if !(reply is Records) {
                assert(is_first_without_records(all, i));
            }
            assert(pending@ =~= all.skip(i + 1));
            i = i + 1;
        }
        match reply {
            StatusesReply::Records(mut shard_records) => {
                records.append(&mut shard_records);
            },
            StatusesReply::Fallback => {
                return Ok(None);
            },
            StatusesReply::Error(e) => {
                return Err(e);
            },
        }
    }
    assert(all.take(i) =~= all);
    Ok(Some(records))
}

/// Three digits.
pub open spec fn three_digits(n: int) -> Seq<char> {
    seq![
        text::digit_char(n / 100 % 10),
        text::digit_char(n / 10 % 10),
        text::digit_char(n % 10),
    ]
}

/// A length of time in seconds, down to the millisecond.
pub open spec fn seconds_text(d: Duration) -> Seq<char> {
    text::dec(d.secs as nat) + "."@ + three_digits(d.nanos as int / NANOS_PER_MILLI as int)
}

fn seconds_string(d: Duration) -> (r: String)
    requires
        d.wf(),
    ensures
        r@ == seconds_text(d),
{
    let ms: u32 = d.nanos / NANOS_PER_MILLI;
    let mut r = text::dec_string(d.secs);
    r.append(".");
    r.push(text::digit_of((ms / 100 % 10) as u64));
    r.push(text::digit_of((ms / 10 % 10) as u64));
    r.push(text::digit_of((ms % 10) as u64));
    proof {
        assert(r@ =~= seconds_text(d));
    }
    r
}

/// The settings of a query for outcomes: what bounds its use of the server, and its time there.
pub open spec fn primary_settings(settings_clause: Seq<char>, max_threads: u64, remaining: Duration) -> Seq<char> {
    let head = if settings_clause.len() == 0 {
        "SETTINGS "@
    } else {
        (settings_clause + ", "@)
    };
    (head + "max_threads="@ + text::dec(max_threads as nat) + ", max_threads_for_indexes="@ + text::dec(max_threads as nat) + ", use_hedged_requests=0, max_parallel_replicas=1, max_execution_time="@ + seconds_text(remaining) + ", max_execution_time_leaf="@ + seconds_text(remaining) + ", timeout_overflow_mode='throw', timeout_overflow_mode_leaf='throw', timeout_before_checking_execution_speed=0"@)
}

/// Adds the settings of a query for outcomes to a clause. The time that remains is what the server
/// may take; with less than a millisecond of it there is no query, because no limit would mean
/// that it may take forever.
pub fn primary_signature_status_settings(
    settings_clause: &str,
    max_threads: u64,
    remaining: Duration,
) -> (r: Result<String, ProcessingError>)
    requires
        remaining.wf(),
    ensures
        if remaining.millis() < 1 {
            &&& r matches Err(e)
            &&& e is Timeout
            &&& e.context() == "ClickHouse signature status deadline is exhausted"@
        } else {
            &&& r matches Ok(text)
            &&& text@ == primary_settings(settings_clause@, max_threads, remaining)
        },
{
    if remaining.as_millis() < 1 {
        return Err(
            ProcessingError::timeout_msg(
                "ClickHouse signature status deadline is exhausted".to_owned(),
            ),
        );
    }
    let seconds = seconds_string(remaining);
    proof {
        reveal_strlit("");
    }
    let head = if text::text_eq(settings_clause, "") {
        "SETTINGS ".to_owned()
    } else {
        proof {
            if settings_clause@.len() == 0 {
                assert(settings_clause@ =~= ""@);
            }
        }
        let mut m = settings_clause.to_owned();
        m.append(", ");
        m
    };
    let mut m = head.as_str().to_owned();
    m.append("max_threads=");
    m.append(text::dec_string(max_threads as u64).as_str());
    m.append(", max_threads_for_indexes=");
    m.append(text::dec_string(max_threads as u64).as_str());
    m.append(", use_hedged_requests=0, max_parallel_replicas=1, max_execution_time=");
    m.append(seconds.as_str());
    m.append(", max_execution_time_leaf=");
    m.append(seconds.as_str());
    m.append(", timeout_overflow_mode='throw', timeout_overflow_mode_leaf='throw', timeout_before_checking_execution_speed=0");
    Ok(m)
}

/// Every signature of a bucket stands in exactly one test of the bucket: the tests take the signatures
/// in order, as many as they may hold, and the last takes what is left.
pub proof fn law_tests_take_all_signatures(bucket: u64, literals: Seq<Seq<char>>, n: int, k: int)
    requires
        n > 0,
        0 <= k,
    ensures
        k < bucket_clauses(bucket, literals, n).len() <==> k * n < literals.len(),
        k * n < literals.len() ==> bucket_clauses(bucket, literals, n)[k] == bucket_clause(
            bucket,
            literals.subrange(
                k * n,
                if (k + 1) * n < literals.len() {
                    (k + 1) * n
                } else {
                    literals.len() as int
                },
            ),
        ),
    decreases literals.len(),
{
    assert(k * n >= 0 && (k + 1) * n == k * n + n) by (nonlinear_arith)
        requires
            n > 0,
            k >= 0,
    ;
    if literals.len() > 0 {
        if k > 0 {
            assert(k * n >= n && (k - 1) * n == k * n - n) by (nonlinear_arith)
                requires
                    n > 0,
                    k > 0,
            ;
        }
        if literals.len() <= n {
            assert(literals.subrange(0, literals.len() as int) =~= literals);
        } else {
            let rest = literals.skip(n);
            assert(literals.take(n) =~= literals.subrange(0, n));
            if k > 0 {
                law_tests_take_all_signatures(bucket, rest, n, k - 1);
                let from = (k - 1) * n;
                assert(k * n == from + n);
                if from < rest.len() {
                    let to = if from + n < rest.len() {
                        from + n
                    } else {
                        rest.len() as int
                    };
                    assert(rest.subrange(from, to) =~= literals.subrange(from + n, to + n));
                }
            } else {
                law_tests_take_all_signatures(bucket, rest, n, 0);
            }
        }
    }
}

/// A test asks for the bucket and for one of its signatures.
pub proof fn law_test_asks_for_bucket_and_signature(bucket: u64, literals: Seq<Seq<char>>)
    requires
        literals.len() > 0,
    ensures
        bucket_clause(bucket, literals) == "(sig_bucket = "@ + text::dec(bucket as nat)
            + " AND signature "@ + (if literals.len() == 1 {
            "= "@ + literals[0] + ")"@
        } else {
            "IN ("@ + text::join(literals, ","@) + "))"@
        }),
{
    broadcast use sql::lemma_joined_first;

    assert(" AND signature = "@ == " AND signature "@ + "= "@) by {
        reveal_strlit(" AND signature = ");
        reveal_strlit(" AND signature ");
        reveal_strlit("= ");
    }
    assert(" AND signature IN ("@ == " AND signature "@ + "IN ("@) by {
        reveal_strlit(" AND signature IN (");
        reveal_strlit(" AND signature ");
        reveal_strlit("IN (");
    }
    sql::lemma_equal(
        bucket_clause(bucket, literals),
        "(sig_bucket = "@ + text::dec(bucket as nat) + " AND signature "@ + (if literals.len() == 1 {
            "= "@ + literals[0] + ")"@
        } else {
            "IN ("@ + text::join(literals, ","@) + "))"@
        }),
    );
}

/// The tests of all buckets are asked for, and nothing else: a clause is one of the filter exactly where
/// it is one of some bucket.
pub proof fn law_every_bucket_is_asked_for(groups: Seq<SignatureBucket>, n: int, clause: Seq<char>)
    ensures
        filter_clauses(groups, n).contains(clause) <==> exists|i: int|
            0 <= i < groups.len() && bucket_clauses(
                (#[trigger] groups[i]).bucket,
                text::texts(groups[i].literals@),
                n,
            ).contains(clause),
    decreases groups.len(),
{
    if groups.len() > 0 {
        let rest = groups.drop_last();
        law_every_bucket_is_asked_for(rest, n, clause);
        let a = filter_clauses(rest, n);
        let b = bucket_clauses(groups.last().bucket, text::texts(groups.last().literals@), n);
        if a.contains(clause) {
            let i = choose|i: int|
                0 <= i < rest.len() && bucket_clauses(
                    (#[trigger] rest[i]).bucket,
                    text::texts(rest[i].literals@),
                    n,
                ).contains(clause);
            assert(groups[i] == rest[i]);
            let p = a.index_of(clause);
            assert((a + b)[p] == clause);
        }
        if b.contains(clause) {
            assert(groups[groups.len() - 1] == groups.last());
            let p = b.index_of(clause);
            assert((a + b)[a.len() + p] == clause);
        }
        if (a + b).contains(clause) {
            let p = (a + b).index_of(clause);
            assert(if p < a.len() {
                a[p] == clause
            } else {
                b[p - a.len()] == clause
            });
        }
        if exists|i: int|
            0 <= i < groups.len() && bucket_clauses(
                (#[trigger] groups[i]).bucket,
                text::texts(groups[i].literals@),
                n,
            ).contains(clause) {
            let i = choose|i: int|
                0 <= i < groups.len() && bucket_clauses(
                    (#[trigger] groups[i]).bucket,
                    text::texts(groups[i].literals@),
                    n,
                ).contains(clause);
            if i < rest.len() {
                assert(rest[i] == groups[i]);
            }
        }
    }
}

/// A length of time is written as its seconds and, behind the point, its milliseconds in three digits.
pub proof fn law_seconds_keep_the_milliseconds(d: Duration)
    requires
        d.nanos < 1_000_000_000,
    ensures
        ({
            let millis = d.nanos as int / 1_000_000;
            let behind = three_digits(millis);
            &&& seconds_text(d) == text::dec(d.secs as nat) + "."@ + behind
            &&& behind.len() == 3
            &&& text::dec_value(behind) == millis
            &&& text::all_digits(behind)
        }),
{
    let n = d.nanos as int / 1_000_000;
    let s = three_digits(n);
    assert(0 <= n < 1000);
    assert(n / 100 % 10 == n / 100);
    reveal_with_fuel(text::dec_value, 4);
    assert(s.drop_last().len() == 2);
    assert(s.drop_last().drop_last().len() == 1);
    assert(s.drop_last().drop_last().drop_last().len() == 0);
    assert(n == n / 100 * 100 + n / 10 % 10 * 10 + n % 10);
}

/// A signature is refused exactly where it does not decode to 64 bytes.
pub proof fn law_signatures_have_sixty_four_bytes(signature: Seq<char>)
    ensures
        signature_error(signature) is None <==> (hashing::base58_decoded(signature) matches Some(bytes)
            && bytes.len() == 64),
{
}

/// A shard is asked for exactly the signatures that it holds.
pub proof fn law_shard_is_asked_for_its_signatures(
    topology: ShardTopology,
    entries: Seq<BucketedSignature>,
    shard: int,
    e: BucketedSignature,
)
    ensures
        shard_entries(topology, entries, shard).contains(e) <==> entries.contains(e)
            && sharding::is_weighted_index(topology.weights@, topology.total_weight, e.hash, shard),
    decreases entries.len(),
{
    if entries.len() > 0 {
        let less = entries.drop_last();
        law_shard_is_asked_for_its_signatures(topology, less, shard, e);
        let front = shard_entries(topology, less, shard);
        let all = shard_entries(topology, entries, shard);
        assert(entries[entries.len() - 1] == entries.last());
        if less.contains(e) {
            assert(entries[less.index_of(e)] == e);
        }
        if front.contains(e) {
            assert(all[front.index_of(e)] == e);
        }
        if entries.contains(e) && !less.contains(e) {
            let p = entries.index_of(e);
            if p < less.len() {
                assert(less[p] == e);
            }
        }
        if sharding::is_weighted_index(
            topology.weights@,
            topology.total_weight,
            entries.last().hash,
            shard,
        ) {
            assert(all[all.len() - 1] == entries.last());
        }
        if all.contains(e) && !front.contains(e) {
            let p = all.index_of(e);
            if p < front.len() {
                assert(front[p] == e);
            }
        }
    }
}

/// A shard is asked exactly where it holds one of the signatures.
pub proof fn law_shards_with_signatures_are_asked(
    topology: ShardTopology,
    entries: Seq<BucketedSignature>,
    n: int,
    shard: int,
)
    ensures
        shards_with_entries(topology, entries, n).contains(shard) <==> 0 <= shard < n && shard_entries(
            topology,
            entries,
            shard,
        ).len() > 0,
    decreases n,
{
    if n > 0 {
        law_shards_with_signatures_are_asked(topology, entries, n - 1, shard);
        let front = shards_with_entries(topology, entries, n - 1);
        let all = shards_with_entries(topology, entries, n);
        if front.contains(shard) {
            assert(all[front.index_of(shard)] == shard);
        }
        if shard_entries(topology, entries, n - 1).len() > 0 {
            assert(all[all.len() - 1] == n - 1);
        }
        if all.contains(shard) && !front.contains(shard) {
            let p = all.index_of(shard);
            if p < front.len() {
                assert(front[p] == shard);
            }
        }
    }
}

/// A bucket has the signatures that fall into it, and no other.
pub proof fn law_bucket_has_its_signatures(
    entries: Seq<BucketedSignature>,
    bucket: u64,
    literal: Seq<char>,
)
    ensures
        literals_in(entries, bucket).contains(literal) <==> exists|i: int|
            0 <= i < entries.len() && (#[trigger] entries[i]).bucket == bucket && entries[i].literal@
                == literal,
    decreases entries.len(),
{
    if entries.len() > 0 {
        let less = entries.drop_last();
        law_bucket_has_its_signatures(less, bucket, literal);
        let front = literals_in(less, bucket);
        let all = literals_in(entries, bucket);
        assert(entries[entries.len() - 1] == entries.last());
        if front.contains(literal) {
            let i = choose|i: int|
                0 <= i < less.len() && (#[trigger] less[i]).bucket == bucket && less[i].literal@ == literal;
            assert(entries[i] == less[i]);
            assert(all[front.index_of(literal)] == literal);
        }
        if entries.last().bucket == bucket {
            assert(all[all.len() - 1] == entries.last().literal@);
        }
        if all.contains(literal) && !front.contains(literal) {
            let p = all.index_of(literal);
            if p < front.len() {
                assert(front[p] == literal);
            }
        }
        if exists|i: int|
            0 <= i < entries.len() && (#[trigger] entries[i]).bucket == bucket && entries[i].literal@
                == literal {
            let i = choose|i: int|
                0 <= i < entries.len() && (#[trigger] entries[i]).bucket == bucket && entries[i].literal@
                    == literal;
            if i < less.len() {
                assert(less[i] == entries[i]);
            }
        }
    }
}

/// A failure on the way over HTTP always leads to another way, and so does a task that broke off. On the
/// native way one does whose cause may be gone; every other failure is reported as it is.
pub proof fn law_status_failures_are_followed<E>(route: LookupRoute, failure: StatusesFailure)
    ensures
        ({
            let reply: StatusesReply<E> = route.spec_failed_statuses(failure);
            &&& reply is Fallback <==> route is ShardHttp || failure is Task || (route is ShardTcp && (
            failure matches StatusesFailure::Query { transient, .. } && transient))
            &&& !(reply is Records)
            &&& reply matches StatusesReply::Error(e) ==> {
                ||| failure matches StatusesFailure::Query { error, .. } && error == e
                ||| failure == StatusesFailure::Row(e)
            }
        }),
{
}

/// The outcomes of all replies count.
pub proof fn law_every_status_counts<E>(
    replies: Seq<StatusesReply<E>>,
    record: SignatureStatusRecord<E>,
)
    ensures
        replied_statuses(replies).contains(record) <==> exists|i: int|
            0 <= i < replies.len() && (#[trigger] replies[i]) is Records
                && replies[i]->Records_0@.contains(record),
    decreases replies.len(),
{
    if replies.len() > 0 {
        let rest = replies.drop_last();
        law_every_status_counts(rest, record);
        let a = replied_statuses(rest);
        let b = match replies.last() {
            StatusesReply::Records(records) => records@,
            _ => Seq::empty(),
        };
        if a.contains(record) {
            let i = choose|i: int|
                0 <= i < rest.len() && (#[trigger] rest[i]) is Records && rest[i]->Records_0@.contains(
                    record,
                );
            assert(replies[i] == rest[i]);
            assert((a + b)[a.index_of(record)] == record);
        }
        if b.contains(record) {
            assert(replies[replies.len() - 1] == replies.last());
            assert((a + b)[a.len() + b.index_of(record)] == record);
        }
        if (a + b).contains(record) {
            let p = (a + b).index_of(record);
            assert(if p < a.len() {
                a[p] == record
            } else {
                b[p - a.len()] == record
            });
        }
        if exists|i: int|
            0 <= i < replies.len() && (#[trigger] replies[i]) is Records
                && replies[i]->Records_0@.contains(record) {
            let i = choose|i: int|
                0 <= i < replies.len() && (#[trigger] replies[i]) is Records
                    && replies[i]->Records_0@.contains(record);
            if i < rest.len() {
                assert(rest[i] == replies[i]);
            }
        }
    }
}

/// Signatures are looked up on their shards only where queries go to shards, and outcomes are read in the
/// distributed tables in the first place only over HTTP, not for a local cache, and where queries do not
/// go to shards.
pub proof fn law_shards_and_tables_exclude_each_other(c: ClickHouseClient, for_cache: bool)
    ensures
        c.looks_up_on_shards() ==> !c.reads_primary_statuses(for_cache),
        c.looks_up_on_shards() <==> c.routing_policy.scope is ShardDirect && c.shard_topology is Some
            && c.signatures_local_table is Some,
        c.reads_primary_statuses(true) == false,
        c.reads_primary_statuses(false) <==> c.routing_policy.scope is Distributed
            && c.routing_policy.transport is Http,
{
}

/// A query for outcomes is bounded in its threads and its time, on every server that takes part, breaks
/// off where that time is over, and is sent once. Other settings come before these.
pub proof fn law_outcome_queries_are_bounded(
    settings_clause: Seq<char>,
    max_threads: u64,
    remaining: Duration,
)
    ensures
        primary_settings(settings_clause, max_threads, remaining) == (if settings_clause.len() == 0 {
            "SETTINGS "@
        } else {
            settings_clause + ", "@
        }) + text::join(
            seq![
                "max_threads="@ + text::dec(max_threads as nat),
                "max_threads_for_indexes="@ + text::dec(max_threads as nat),
                "use_hedged_requests=0"@,
                "max_parallel_replicas=1"@,
                "max_execution_time="@ + seconds_text(remaining),
                "max_execution_time_leaf="@ + seconds_text(remaining),
                "timeout_overflow_mode='throw'"@,
                "timeout_overflow_mode_leaf='throw'"@,
                "timeout_before_checking_execution_speed=0"@,
            ],
            ", "@,
        ),
{
    let head = if settings_clause.len() == 0 {
        "SETTINGS "@
    } else {
        settings_clause + ", "@
    };
    let comma = ", "@;
    let threads = text::dec(max_threads as nat);
    let time = seconds_text(remaining);
    let s1 = seq!["max_threads="@ + threads];
    let s2 = s1.push("max_threads_for_indexes="@ + threads);
    let s3 = s2.push("use_hedged_requests=0"@);
    let s4 = s3.push("max_parallel_replicas=1"@);
    let s5 = s4.push("max_execution_time="@ + time);
    let s6 = s5.push("max_execution_time_leaf="@ + time);
    let s7 = s6.push("timeout_overflow_mode='throw'"@);
    let s8 = s7.push("timeout_overflow_mode_leaf='throw'"@);
    let s9 = s8.push("timeout_before_checking_execution_speed=0"@);
    text::law_texts_are_joined_one_by_one(s1, s2.last(), comma);
    text::law_texts_are_joined_one_by_one(s2, s3.last(), comma);
    text::law_texts_are_joined_one_by_one(s3, s4.last(), comma);
    text::law_texts_are_joined_one_by_one(s4, s5.last(), comma);
    text::law_texts_are_joined_one_by_one(s5, s6.last(), comma);
    text::law_texts_are_joined_one_by_one(s6, s7.last(), comma);
    text::law_texts_are_joined_one_by_one(s7, s8.last(), comma);
    text::law_texts_are_joined_one_by_one(s8, s9.last(), comma);
    assert(text::join(s1, comma) == s1[0]);
    assert(s9 =~= seq![
        "max_threads="@ + threads,
        "max_threads_for_indexes="@ + threads,
        "use_hedged_requests=0"@,
        "max_parallel_replicas=1"@,
        "max_execution_time="@ + time,
        "max_execution_time_leaf="@ + time,
        "timeout_overflow_mode='throw'"@,
        "timeout_overflow_mode_leaf='throw'"@,
        "timeout_before_checking_execution_speed=0"@,
    ]);
    assert(", max_threads_for_indexes="@ == comma + "max_threads_for_indexes="@) by {
        reveal_strlit(", max_threads_for_indexes=");
        reveal_strlit(", ");
        reveal_strlit("max_threads_for_indexes=");
    }
    assert(", use_hedged_requests=0, max_parallel_replicas=1, max_execution_time="@ == comma
        + "use_hedged_requests=0"@ + comma + "max_parallel_replicas=1"@ + comma + "max_execution_time="@) by {
        reveal_strlit(", use_hedged_requests=0, max_parallel_replicas=1, max_execution_time=");
        reveal_strlit(", ");
        reveal_strlit("use_hedged_requests=0");
        reveal_strlit("max_parallel_replicas=1");
        reveal_strlit("max_execution_time=");
    }
    assert(", max_execution_time_leaf="@ == comma + "max_execution_time_leaf="@) by {
        reveal_strlit(", max_execution_time_leaf=");
        reveal_strlit(", ");
        reveal_strlit("max_execution_time_leaf=");
    }
    assert(", timeout_overflow_mode='throw', timeout_overflow_mode_leaf='throw', timeout_before_checking_execution_speed=0"@
        == comma + "timeout_overflow_mode='throw'"@ + comma + "timeout_overflow_mode_leaf='throw'"@ + comma
        + "timeout_before_checking_execution_speed=0"@) by {
        reveal_strlit(", timeout_overflow_mode='throw', timeout_overflow_mode_leaf='throw', timeout_before_checking_execution_speed=0");
        reveal_strlit(", ");
        reveal_strlit("timeout_overflow_mode='throw'");
        reveal_strlit("timeout_overflow_mode_leaf='throw'");
        reveal_strlit("timeout_before_checking_execution_speed=0");
    }
    assert(primary_settings(settings_clause, max_threads, remaining) == head + text::join(s9, comma)) by {
        broadcast use sql::lemma_joined_first;

        sql::lemma_equal(
            primary_settings(settings_clause, max_threads, remaining),
            head + text::join(s9, comma),
        );
    }
}

/// Signatures are looked for by any of their tests, and a signature by its bytes. A test holds at least one.
pub proof fn law_signatures_are_looked_for_by_any_test(
    groups: Seq<SignatureBucket>,
    in_clause_chunk: usize,
    bytes: Seq<u8>,
)
    ensures
        in_clause_chunk > 0 ==> filter_text(groups, in_clause_chunk) == text::join(
            filter_clauses(groups, in_clause_chunk as int),
            " OR "@,
        ),
        filter_text(groups, 0) == filter_text(groups, 1),
        signature_text(bytes) == "toFixedString(unhex('"@ + text::hex_upper(bytes) + "'), 64)"@,
{
}

} // verus!
