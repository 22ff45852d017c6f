//! Reads that their caller abandoned. Each keeps its admission until the server was seen without it
//! twice in a row: dropping the connection is what ends a read, and probes only watch.
//!
//! Points in time are lengths of time since some fixed start.
use vstd::prelude::*;

use crate::clickhouse::sql;
use crate::lists;
use crate::processing::ProcessingError;
use crate::text;
use crate::text_search;
use crate::time::{Duration, MILLIS_PER_SEC};

verus! {

/// The milliseconds between probes while all reads that are left are unconfirmed.
pub const PROBE_TIMEOUT_MILLIS: u64 = 1_000;

/// The milliseconds between probes.
pub const POLL_INTERVAL_MILLIS: u64 = 250;

/// After so many seconds a read that is still there is reported.
pub const UNCONFIRMED_AFTER_SECS: u64 = 5;

/// So many seconds after a failed preparation another one may begin.
pub const INITIALIZATION_BACKOFF_SECS: u64 = 1;

/// So many reads are watched by one probe.
pub const PROBE_BATCH: usize = 128;

/// The seconds that a probe may take where nothing else is configured.
pub const DEFAULT_VERIFICATION_SECS: u64 = 10;

/// How long probes may take.
#[derive(Clone, Copy, Debug, PartialEq, Eq, Structural)]
pub struct VerificationTimeouts {
    /// Each query of the preparation.
    pub startup: Duration,
    /// Each probe after it.
    pub runtime: Duration,
}

impl Default for VerificationTimeouts {
    fn default() -> (r: VerificationTimeouts)
        ensures
            r.startup == (Duration { secs: DEFAULT_VERIFICATION_SECS, nanos: 0 }),
            r.runtime == (Duration { secs: DEFAULT_VERIFICATION_SECS, nanos: 0 }),
    {
        VerificationTimeouts {
            startup: Duration::from_secs(DEFAULT_VERIFICATION_SECS),
            runtime: Duration::from_secs(DEFAULT_VERIFICATION_SECS),
        }
    }
}

/// The whole seconds of a limit on the server: the milliseconds of a length of time, rounded up.
pub fn execution_limit_secs(timeout: Duration) -> (r: u64)
    requires
        timeout.secs < u64::MAX,
        timeout.wf(),
    ensures
        (r - 1) * MILLIS_PER_SEC < timeout.millis() <= r * MILLIS_PER_SEC,
{
    let ms: u32 = timeout.nanos / 1_000_000;
    if ms > 0 {
        timeout.secs + 1
    } else {
        timeout.secs
    }
}

/// A read that was abandoned, with its admission.
#[derive(Debug)]
pub struct PendingRead<P> {
    pub query_id: String,
    pub permit: P,
    pub abandoned_at: Duration,
    pub quiet_observations: u8,
    pub unconfirmed: bool,
}

/// The reads that were abandoned and are not known to have ended, by their names.
#[derive(Debug)]
pub struct DisconnectState<P> {
    pub pending: Vec<PendingRead<P>>,
}

/// Reads in the order of their names, each once.
pub open spec fn by_name<P>(s: Seq<PendingRead<P>>) -> bool {
    forall|i: int, j: int|
        0 <= i < j < s.len() ==> text_search::text_before(
            (#[trigger] s[i]).query_id@,
            (#[trigger] s[j]).query_id@,
        )
}

/// Whether this is the place of a read.
pub open spec fn is_place_of<P>(s: Seq<PendingRead<P>>, id: Seq<char>, i: int) -> bool {
    0 <= i < s.len() && s[i].query_id@ == id
}

/// Whether a read is among these.
pub open spec fn is_pending<P>(s: Seq<PendingRead<P>>, id: Seq<char>) -> bool {
    exists|i: int| is_place_of(s, id, i)
}

proof fn lemma_place_is_unique<P>(s: Seq<PendingRead<P>>, id: Seq<char>, i: int, j: int)
    requires
        by_name(s),
        is_place_of(s, id, i),
        is_place_of(s, id, j),
    ensures
        i == j,
{
    if i < j {
        text_search::lemma_text_before_asymmetric(s[i].query_id@, s[j].query_id@);
    }
    if j < i {
        text_search::lemma_text_before_asymmetric(s[j].query_id@, s[i].query_id@);
    }
}

/// Whether a read has been abandoned for so long that it is reported.
pub open spec fn is_overdue(abandoned_at: Duration, now: Duration) -> bool {
    now.total_nanos() - abandoned_at.total_nanos() >= (Duration {
        secs: UNCONFIRMED_AFTER_SECS,
        nanos: 0,
    }).total_nanos()
}

/// A read after one observation, or nothing once it was quiet twice in a row.
pub open spec fn observed_read<P>(e: PendingRead<P>, quiet: bool, now: Duration) -> Option<
    PendingRead<P>,
> {
    if quiet && e.quiet_observations >= 1 {
        None
    } else {
        Some(
            PendingRead {
                quiet_observations: if quiet {
                    1
                } else {
                    0
                },
                unconfirmed: e.unconfirmed || is_overdue(e.abandoned_at, now),
                ..e
            },
        )
    }
}

/// The reads after one of them was observed.
pub open spec fn observed_one<P>(
    s: Seq<PendingRead<P>>,
    id: Seq<char>,
    quiet: bool,
    now: Duration,
) -> Seq<PendingRead<P>> {
    if is_pending(s, id) {
        let i = choose|i: int| is_place_of(s, id, i);
        match observed_read(s[i], quiet, now) {
            Some(e) => s.update(i, e),
            None => s.remove(i),
        }
    } else {
        s
    }
}

/// Whether an observation saw no trace of a read. A probe that failed saw nothing at all.
pub open spec fn is_quiet(active: Option<Seq<Seq<char>>>, id: Seq<char>) -> bool {
    match active {
        Some(ids) => !ids.contains(id),
        None => false,
    }
}

/// The reads after an observation of some of them.
pub open spec fn observed<P>(
    s: Seq<PendingRead<P>>,
    ids: Seq<Seq<char>>,
    active: Option<Seq<Seq<char>>>,
    now: Duration,
) -> Seq<PendingRead<P>>
    decreases ids.len(),
{
    if ids.len() == 0 {
        s
    } else {
        observed_one(
            observed(s, ids.drop_last(), active, now),
            ids.last(),
            is_quiet(active, ids.last()),
            now,
        )
    }
}

/// A read is given up only by an observation without a trace of it right after another one: any
/// observation that saw it, and any probe that failed, begins the count anew, and a read that was
/// just abandoned is kept.
pub proof fn law_release_needs_two_quiet_observations<P>(
    s: Seq<PendingRead<P>>,
    i: int,
    quiet: bool,
    now: Duration,
)
    requires
        by_name(s),
        0 <= i < s.len(),
        s[i].quiet_observations < 2,
    ensures
        ({
            let id = s[i].query_id@;
            let after = observed_one(s, id, quiet, now);
            &&& !is_pending(after, id) <==> quiet && s[i].quiet_observations == 1
            &&& !quiet ==> after[i].quiet_observations == 0
            &&& quiet && s[i].quiet_observations == 0 ==> after[i].quiet_observations == 1
            &&& forall|other: Seq<char>|
                other != id ==> (#[trigger] is_pending(after, other) <==> is_pending(s, other))
        }),
{
    let id = s[i].query_id@;
    let after = observed_one(s, id, quiet, now);
    assert(is_place_of(s, id, i));
    let c = choose|c: int| is_place_of(s, id, c);
    lemma_place_is_unique(s, id, i, c);
    match observed_read(s[i], quiet, now) {
        Some(e) => {
            assert(is_place_of(after, id, i));
            assert forall|other: Seq<char>| other != id implies (#[trigger] is_pending(after, other)
                <==> is_pending(s, other)) by {
                if is_pending(s, other) {
                    let k = choose|k: int| is_place_of(s, other, k);
                    assert(is_place_of(after, other, k));
                }
                if is_pending(after, other) {
                    let k = choose|k: int| is_place_of(after, other, k);
                    assert(is_place_of(s, other, k));
                }
            }
        },
        None => {
            if is_pending(after, id) {
                let k = choose|k: int| is_place_of(after, id, k);
                let from = if k < i {
                    k
                } else {
                    k + 1
                };
                assert(is_place_of(s, id, from));
                lemma_place_is_unique(s, id, i, from);
            }
            assert forall|other: Seq<char>| other != id implies (#[trigger] is_pending(after, other)
                <==> is_pending(s, other)) by {
                if is_pending(s, other) {
                    let k = choose|k: int| is_place_of(s, other, k);
                    assert(is_place_of(
                        after,
                        other,
                        if k < i {
                            k
                        } else {
                            k - 1
                        },
                    ));
                }
                if is_pending(after, other) {
                    let k = choose|k: int| is_place_of(after, other, k);
                    assert(is_place_of(
                        s,
                        other,
                        if k < i {
                            k
                        } else {
                            k + 1
                        },
                    ));
                }
            }
        },
    }
}

/// The read of a name, where it is among these.
pub open spec fn read_of<P>(s: Seq<PendingRead<P>>, id: Seq<char>) -> Option<PendingRead<P>> {
    if is_pending(s, id) {
        Some(s[choose|i: int| is_place_of(s, id, i)])
    } else {
        None
    }
}

/// What an observation leaves of a read, where there is one.
pub open spec fn observed_opt<P>(e: Option<PendingRead<P>>, quiet: bool, now: Duration) -> Option<
    PendingRead<P>,
> {
    match e {
        Some(read) => observed_read(read, quiet, now),
        None => None,
    }
}

proof fn lemma_read_of_place<P>(s: Seq<PendingRead<P>>, id: Seq<char>, i: int)
    requires
        by_name(s),
        is_place_of(s, id, i),
    ensures
        read_of(s, id) == Some(s[i]),
{
    let c = choose|c: int| is_place_of(s, id, c);
    lemma_place_is_unique(s, id, i, c);
}

proof fn lemma_observed_one<P>(
    s: Seq<PendingRead<P>>,
    id: Seq<char>,
    other: Seq<char>,
    quiet: bool,
    now: Duration,
)
    requires
        by_name(s),
    ensures
        by_name(observed_one(s, id, quiet, now)),
        read_of(observed_one(s, id, quiet, now), other) == (if other == id {
            observed_opt(read_of(s, other), quiet, now)
        } else {
            read_of(s, other)
        }),
{
    let after = observed_one(s, id, quiet, now);
    if is_pending(s, id) {
        let i = choose|i: int| is_place_of(s, id, i);
        match observed_read(s[i], quiet, now) {
            Some(e) => {
                assert forall|a: int, b: int| 0 <= a < b < after.len() implies text_search::text_before(
                    (#[trigger] after[a]).query_id@,
                    (#[trigger] after[b]).query_id@,
                ) by {
                    assert(after[a].query_id == s[a].query_id);
                    assert(after[b].query_id == s[b].query_id);
                }
                if is_pending(s, other) {
                    let k = choose|k: int| is_place_of(s, other, k);
                    assert(is_place_of(after, other, k));
                    lemma_read_of_place(after, other, k);
                    if k == i {
                        assert(other == id);
                    }
                    if other == id {
                        lemma_place_is_unique(s, id, i, k);
                    }
                } else if is_pending(after, other) {
                    let k = choose|k: int| is_place_of(after, other, k);
                    assert(is_place_of(s, other, k));
                }
            },
            None => {
                assert forall|a: int, b: int| 0 <= a < b < after.len() implies text_search::text_before(
                    (#[trigger] after[a]).query_id@,
                    (#[trigger] after[b]).query_id@,
                ) by {
                    let from_a = if a < i {
                        a
                    } else {
                        a + 1
                    };
                    let from_b = if b < i {
                        b
                    } else {
                        b + 1
                    };
                    assert(after[a] == s[from_a]);
                    assert(after[b] == s[from_b]);
                }
                if is_pending(after, other) {
                    let k = choose|k: int| is_place_of(after, other, k);
                    let from = if k < i {
                        k
                    } else {
                        k + 1
                    };
                    assert(is_place_of(s, other, from));
                    lemma_read_of_place(s, other, from);
                    if other == id {
                        lemma_place_is_unique(s, id, i, from);
                    }
                } else if is_pending(s, other) && other != id {
                    let k = choose|k: int| is_place_of(s, other, k);
                    let to = if k < i {
                        k
                    } else {
                        k - 1
                    };
                    assert(k != i);
                    assert(is_place_of(after, other, to));
                }
            },
        }
    }
}

/// An observation of some reads, each named once, changes just these: each of them that is among the
/// abandoned ones is observed once, and all others stay as they are.
pub proof fn law_observation_changes_its_reads<P>(
    s: Seq<PendingRead<P>>,
    ids: Seq<Seq<char>>,
    active: Option<Seq<Seq<char>>>,
    now: Duration,
    id: Seq<char>,
)
    requires
        by_name(s),
        ids.no_duplicates(),
    ensures
        by_name(observed(s, ids, active, now)),
        read_of(observed(s, ids, active, now), id) == (if ids.contains(id) {
            observed_opt(read_of(s, id), is_quiet(active, id), now)
        } else {
            read_of(s, id)
        }),
    decreases ids.len(),
{
    if ids.len() > 0 {
        let rest = ids.drop_last();
        let last = ids.last();
        assert forall|a: int, b: int| 0 <= a < rest.len() && 0 <= b < rest.len() && a
            != b implies rest[a] != rest[b] by {
            assert(ids[a] != ids[b]);
        }
        law_observation_changes_its_reads(s, rest, active, now, id);
        let before = observed(s, rest, active, now);
        lemma_observed_one(before, last, id, is_quiet(active, last), now);
        assert(ids =~= rest.push(last));
        if ids.contains(id) {
            let k = choose|k: int| 0 <= k < ids.len() && ids[k] == id;
            if id == last {
                if rest.contains(id) {
                    let j = choose|j: int| 0 <= j < rest.len() && rest[j] == id;
                    assert(ids[j] == ids[ids.len() - 1]);
                }
            } else {
                assert(rest[k] == id);
            }
        } else {
            assert(ids[ids.len() - 1] == last);
            if rest.contains(id) {
                let j = choose|j: int| 0 <= j < rest.len() && rest[j] == id;
                assert(ids[j] == id);
            }
        }
    }
}

/// A probe: the reads that it asked for, what it saw, and when.
pub struct Observation {
    pub ids: Seq<Seq<char>>,
    pub active: Option<Seq<Seq<char>>>,
    pub now: Duration,
}

/// The reads after some probes.
pub open spec fn observed_all<P>(s: Seq<PendingRead<P>>, probes: Seq<Observation>) -> Seq<
    PendingRead<P>,
>
    decreases probes.len(),
{
    if probes.len() == 0 {
        s
    } else {
        let last = probes.last();
        observed(observed_all(s, probes.drop_last()), last.ids, last.active, last.now)
    }
}

/// How many of the last probes of a read, up to the last one, saw no trace of it.
pub open spec fn quiet_in_a_row(probes: Seq<Observation>, id: Seq<char>) -> nat
    decreases probes.len(),
{
    if probes.len() == 0 {
        0
    } else {
        let last = probes.last();
        if !last.ids.contains(id) {
            quiet_in_a_row(probes.drop_last(), id)
        } else if is_quiet(last.active, id) {
            quiet_in_a_row(probes.drop_last(), id) + 1
        } else {
            0
        }
    }
}

/// Over any probes, each of which names a read once, a read that was just abandoned is kept until two
/// probes of it in a row saw no trace of it, and is released at the second one: a probe that saw it,
/// and one that failed, begin the count anew, and probes of other reads do not count.
pub proof fn law_read_is_released_at_the_second_quiet_probe<P>(
    s: Seq<PendingRead<P>>,
    id: Seq<char>,
    probes: Seq<Observation>,
)
    requires
        by_name(s),
        read_of(s, id) matches Some(read) && read.quiet_observations == 0,
        forall|n: int| 0 <= n < probes.len() ==> (#[trigger] probes[n]).ids.no_duplicates(),
    ensures
        by_name(observed_all(s, probes)),
        is_pending(observed_all(s, probes), id) <==> forall|n: int|
            0 <= n <= probes.len() ==> quiet_in_a_row(#[trigger] probes.take(n), id) < 2,
        read_of(observed_all(s, probes), id) matches Some(read) ==> read.quiet_observations
            == quiet_in_a_row(probes, id),
    decreases probes.len(),
{
    if probes.len() == 0 {
        assert forall|n: int| 0 <= n <= probes.len() implies quiet_in_a_row(
            #[trigger] probes.take(n),
            id,
        ) < 2 by {
            assert(probes.take(n).len() == 0);
        }
    } else {
        let rest = probes.drop_last();
        let last = probes.last();
        assert forall|n: int| 0 <= n < rest.len() implies (#[trigger] rest[n]).ids.no_duplicates() by {
            assert(rest[n] == probes[n]);
        }
        law_read_is_released_at_the_second_quiet_probe(s, id, rest);
        assert(probes[probes.len() - 1] == last);
        law_observation_changes_its_reads(
            observed_all(s, rest),
            last.ids,
            last.active,
            last.now,
            id,
        );
        assert(probes.take(probes.len() as int) =~= probes);
        assert forall|n: int| 0 <= n < probes.len() implies #[trigger] probes.take(n) == rest.take(
            n,
        ) by {
            assert(probes.take(n) =~= rest.take(n));
        }
        let kept = is_pending(observed_all(s, rest), id);
        if kept {
            assert(rest.take(rest.len() as int) =~= rest);
            assert(quiet_in_a_row(rest, id) < 2);
            assert forall|n: int| 0 <= n < probes.len() implies quiet_in_a_row(
                #[trigger] probes.take(n),
                id,
            ) < 2 by {
                assert(quiet_in_a_row(rest.take(n), id) < 2);
            }
            if quiet_in_a_row(probes, id) >= 2 {
                assert(quiet_in_a_row(probes.take(probes.len() as int), id) >= 2);
            }
        } else {
            let n = choose|n: int|
                0 <= n <= rest.len() && quiet_in_a_row(#[trigger] rest.take(n), id) >= 2;
            assert(quiet_in_a_row(probes.take(n), id) >= 2);
        }
    }
}

impl<P> PendingRead<P> {
    /// Counts and times are within their bounds.
    pub open spec fn wf(self) -> bool {
        &&& self.quiet_observations < 2
        &&& self.abandoned_at.wf()
        &&& self.abandoned_at.secs + UNCONFIRMED_AFTER_SECS < u64::MAX
    }
}

/// The texts of a list that may not be there.
pub open spec fn opt_texts(v: Option<Vec<String>>) -> Option<Seq<Seq<char>>> {
    match v {
        Some(list) => Some(text::texts(list@)),
        None => None,
    }
}

impl<P> DisconnectState<P> {
    /// The reads are in the order of their names, each once.
    pub open spec fn wf(self) -> bool {
        &&& by_name(self.pending@)
        &&& forall|i: int| 0 <= i < self.pending@.len() ==> (#[trigger] self.pending@[i]).wf()
    }

    /// No read.
    pub fn new() -> (r: Self)
        ensures
            r.wf(),
            r.pending@.len() == 0,
    {
        DisconnectState { pending: Vec::new() }
    }

    fn position_of(&self, id: &str) -> (r: Option<usize>)
        ensures
            match r {
                Some(i) => is_place_of(self.pending@, id@, i as int),
                None => !is_pending(self.pending@, id@),
            },
    {
        let mut i: usize = 0;
        while i < self.pending.len()
            invariant
                i <= self.pending@.len(),
                forall|k: int| 0 <= k < i ==> !is_place_of(self.pending@, id@, k),
            decreases self.pending@.len() - i,
        {
            if text::text_eq(self.pending[i].query_id.as_str(), id) {
                return Some(i);
            }
            i += 1;
        }
        None
    }

    /// Takes an abandoned read. One of the same name gives way to it.
    pub fn insert(&mut self, read: PendingRead<P>)
        requires
            old(self).wf(),
            read.wf(),
        ensures
            final(self).wf(),
            forall|id: Seq<char>| #[trigger]
                is_pending(final(self).pending@, id) <==> is_pending(old(self).pending@, id) || id
                    == read.query_id@,
            forall|i: int|
                0 <= i < final(self).pending@.len() ==> #[trigger] final(self).pending@[i] == read
                    || old(self).pending@.contains(final(self).pending@[i]),
            final(self).pending@.contains(read),
    {
        let ghost before = self.pending@;
        let mut at: usize = 0;
        while at < self.pending.len() && text_search::is_text_before(
            self.pending[at].query_id.as_str(),
            read.query_id.as_str(),
        )
            invariant
                at <= self.pending@.len(),
                self.pending@ == before,
                forall|k: int|
                    0 <= k < at ==> text_search::text_before(
                        (#[trigger] before[k]).query_id@,
                        read.query_id@,
                    ),
            decreases self.pending@.len() - at,
        {
            at += 1;
        }
        proof {
            assert forall|k: int| at < k < before.len() implies text_search::text_before(
                read.query_id@,
                (#[trigger] before[k]).query_id@,
            ) by {
                let a = read.query_id@;
                let b = before[at as int].query_id@;
                let c = before[k].query_id@;
                if !text_search::text_before(a, c) {
                    text_search::lemma_text_before_asymmetric(b, c);
                    if !text_search::text_before(c, a) {
                        text_search::lemma_text_before_total(a, c);
                    }
                    text_search::lemma_text_before_transitive(b, a, c);
                }
            }
        }
        if at < self.pending.len() && text::text_eq(
            self.pending[at].query_id.as_str(),
            read.query_id.as_str(),
        ) {
            self.pending.set(at, read);
            proof {
                let after = self.pending@;
                assert forall|id: Seq<char>| #[trigger] is_pending(after, id) <==> is_pending(
                    before,
                    id,
                ) || id == read.query_id@ by {
                    assert(is_place_of(after, read.query_id@, at as int));
                    if is_pending(before, id) {
                        let k = choose|k: int| is_place_of(before, id, k);
                        assert(is_place_of(after, id, k));
                    }
                    if is_pending(after, id) {
                        let k = choose|k: int| is_place_of(after, id, k);
                        assert(k != at ==> is_place_of(before, id, k));
                    }
                }
                assert(after[at as int] == read);
                assert forall|i: int| 0 <= i < after.len() implies #[trigger] after[i] == read
                    || before.contains(after[i]) by {
                    if i != at {
                        assert(after[i] == before[i]);
                    }
                }
                assert forall|i: int, j: int| 0 <= i < j < after.len() implies
                    text_search::text_before(
                    (#[trigger] after[i]).query_id@,
                    (#[trigger] after[j]).query_id@,
                ) by {
                    assert(text_search::text_before(before[i].query_id@, before[j].query_id@));
                }
            }
        } else {
            proof {
                if at < before.len() && !text_search::text_before(
                    read.query_id@,
                    before[at as int].query_id@,
                ) {
                    text_search::lemma_text_before_total(
                        read.query_id@,
                        before[at as int].query_id@,
                    );
                }
            }
            self.pending.insert(at, read);
            proof {
                let after = self.pending@;
                assert(after == before.insert(at as int, read));
                assert forall|id: Seq<char>| #[trigger] is_pending(after, id) <==> is_pending(
                    before,
                    id,
                ) || id == read.query_id@ by {
                    assert(is_place_of(after, read.query_id@, at as int));
                    if is_pending(before, id) {
                        let k = choose|k: int| is_place_of(before, id, k);
                        assert(is_place_of(
                            after,
                            id,
                            if k < at {
                                k
                            } else {
                                k + 1
                            },
                        ));
                    }
                    if is_pending(after, id) {
                        let k = choose|k: int| is_place_of(after, id, k);
                        if k != at {
                            assert(is_place_of(
                                before,
                                id,
                                if k < at {
                                    k
                                } else {
                                    k - 1
                                },
                            ));
                        }
                    }
                }
                assert(after[at as int] == read);
                assert forall|i: int| 0 <= i < after.len() implies #[trigger] after[i] == read
                    || before.contains(after[i]) by {
                    if i < at {
                        assert(after[i] == before[i]);
                    } else if i > at {
                        assert(after[i] == before[i - 1]);
                    }
                }
                assert forall|i: int, j: int| 0 <= i < j < after.len() implies
                    text_search::text_before(
                    (#[trigger] after[i]).query_id@,
                    (#[trigger] after[j]).query_id@,
                ) by {
                    let p = if i < at {
                        i
                    } else {
                        i - 1
                    };
                    let q = if j < at {
                        j
                    } else {
                        j - 1
                    };
                    if i != at && j != at {
                        assert(after[i] == before[p]);
                        assert(after[j] == before[q]);
                    } else if i == at {
                        assert(after[j] == before[q]);
                    } else {
                        assert(after[i] == before[i]);
                    }
                }
            }
        }
    }

    /// Takes what a probe saw of one read.
    pub fn observe_one(&mut self, id: &str, quiet: bool, now: Duration)
        requires
            old(self).wf(),
            now.wf(),
        ensures
            final(self).wf(),
            final(self).pending@ == observed_one(old(self).pending@, id@, quiet, now),
    {
        let ghost before = self.pending@;
        if let Some(i) = self.position_of(id) {
            proof {
                let c = choose|c: int| is_place_of(before, id@, c);
                lemma_place_is_unique(before, id@, i as int, c);
            }
            if quiet && self.pending[i].quiet_observations >= 1 {
                self.pending.remove(i);
                proof {
                    let after = self.pending@;
                    assert forall|a: int, b: int| 0 <= a < b < after.len() implies
                        text_search::text_before(
                        (#[trigger] after[a]).query_id@,
                        (#[trigger] after[b]).query_id@,
                    ) by {
                        let p = if a < i {
                            a
                        } else {
                            a + 1
                        };
                        let q = if b < i {
                            b
                        } else {
                            b + 1
                        };
                        assert(after[a] == before[p]);
                        assert(after[b] == before[q]);
                    }
                    assert forall|a: int| 0 <= a < after.len() implies (#[trigger] after[a]).wf() by {
                        assert(after[a] == before[if a < i {
                            a
                        } else {
                            a + 1
                        }]);
                    }
                }
            } else {
                let deadline = self.pending[i].abandoned_at.plus(
                    Duration::from_secs(UNCONFIRMED_AFTER_SECS),
                );
                let overdue = !now.is_shorter(deadline);
                proof {
                    lemma_shorter_is_less(now, deadline);
                }
                let count: u8 = if quiet {
                    1
                } else {
                    0
                };
                self.pending[i].quiet_observations = count;
                if overdue {
                    self.pending[i].unconfirmed = true;
                }
                proof {
                    let after = self.pending@;
                    let e = observed_read(before[i as int], quiet, now)->0;
                    assert(after[i as int] == e);
                    assert(after =~= before.update(i as int, e));
                    assert forall|a: int, b: int| 0 <= a < b < after.len() implies
                        text_search::text_before(
                        (#[trigger] after[a]).query_id@,
                        (#[trigger] after[b]).query_id@,
                    ) by {
                        assert(text_search::text_before(before[a].query_id@, before[b].query_id@));
                    }
                    assert forall|a: int| 0 <= a < after.len() implies (#[trigger] after[a]).wf() by {
                        if a != i {
                            assert(after[a] == before[a]);
                        } else {
                            assert(before[a].wf());
                        }
                    }
                }
            }
        }
    }

    /// Takes what a probe saw of some reads: the names of those with a trace, or nothing where it
    /// failed. Returns how long to wait for the next probe.
    pub fn apply_observation(
        &mut self,
        ids: &Vec<String>,
        active: &Option<Vec<String>>,
        now: Duration,
    ) -> (r: Duration)
        requires
            old(self).wf(),
            now.wf(),
        ensures
            final(self).wf(),
            final(self).pending@ == observed(
                old(self).pending@,
                text::texts(ids@),
                opt_texts(*active),
                now,
            ),
            r == (if forall|i: int|
                0 <= i < final(self).pending@.len() ==> (
                #[trigger] final(self).pending@[i]).unconfirmed {
                Duration::of_millis(PROBE_TIMEOUT_MILLIS)
            } else {
                Duration::of_millis(POLL_INTERVAL_MILLIS)
            }),
    {
        let ghost all = text::texts(ids@);
        let mut i: usize = 0;
        proof {
            assert(all.take(0) =~= Seq::empty());
        }
        while i < ids.len()
            invariant
                i <= ids@.len(),
                all == text::texts(ids@),
                now.wf(),
                self.wf(),
                self.pending@ == observed(
                    old(self).pending@,
                    all.take(i as int),
                    opt_texts(*active),
                    now,
                ),
            decreases ids@.len() - i,
        {
            let quiet = match active {
                Some(list) => !text::holds_text(list, ids[i].as_str()),
                None => false,
            };
            self.observe_one(ids[i].as_str(), quiet, now);
            i += 1;
            proof {
                assert(all.take(i as int).drop_last() =~= all.take(i - 1));
                assert(all.take(i as int).last() == ids@[i - 1]@);
            }
        }
        proof {
            assert(all.take(i as int) =~= all);
        }
        self.next_probe_after()
    }

    /// How long to wait for the next probe: longer once every read that is left was reported.
    pub fn next_probe_after(&self) -> (r: Duration)
        ensures
            r == (if forall|i: int|
                0 <= i < self.pending@.len() ==> (#[trigger] self.pending@[i]).unconfirmed {
                Duration::of_millis(PROBE_TIMEOUT_MILLIS)
            } else {
                Duration::of_millis(POLL_INTERVAL_MILLIS)
            }),
    {
        let mut i: usize = 0;
        while i < self.pending.len()
            invariant
                i <= self.pending@.len(),
                forall|k: int| 0 <= k < i ==> (#[trigger] self.pending@[k]).unconfirmed,
            decreases self.pending@.len() - i,
        {
            if !self.pending[i].unconfirmed {
                assert(!self.pending@[i as int].unconfirmed);
                return Duration::from_millis(POLL_INTERVAL_MILLIS);
            }
            i += 1;
        }
        Duration::from_millis(PROBE_TIMEOUT_MILLIS)
    }

    /// The names of the reads, in order.
    pub fn pending_ids(&self) -> (r: Vec<String>)
        ensures
            r@.len() == self.pending@.len(),
            forall|i: int| 0 <= i < r@.len() ==> (#[trigger] r@[i])@ == self.pending@[i].query_id@,
    {
        let mut r: Vec<String> = Vec::new();
        let mut i: usize = 0;
        while i < self.pending.len()
            invariant
                i <= self.pending@.len(),
                r@.len() == i,
                forall|k: int| 0 <= k < i ==> (#[trigger] r@[k])@ == self.pending@[k].query_id@,
            decreases self.pending@.len() - i,
        {
            r.push(self.pending[i].query_id.clone());
            i += 1;
        }
        r
    }
}

proof fn lemma_shorter_is_less(a: Duration, b: Duration)
    requires
        a.wf(),
        b.wf(),
    ensures
        a.shorter(b) <==> a.total_nanos() < b.total_nanos(),
{
    if a.secs < b.secs {
        assert(a.total_nanos() < b.total_nanos()) by (nonlinear_arith)
            requires
                a.secs < b.secs,
                a.nanos < 1_000_000_000,
                a.total_nanos() == a.secs * 1_000_000_000 + a.nanos,
                b.total_nanos() == b.secs * 1_000_000_000 + b.nanos,
        ;
    } else if b.secs < a.secs {
        assert(b.total_nanos() < a.total_nanos()) by (nonlinear_arith)
            requires
                b.secs < a.secs,
                b.nanos < 1_000_000_000,
                a.total_nanos() == a.secs * 1_000_000_000 + a.nanos,
                b.total_nanos() == b.secs * 1_000_000_000 + b.nanos,
        ;
    }
}

/// Names in batches: one after the other, each of `n` but for the last.
pub open spec fn in_batches(batches: Seq<Vec<String>>, ids: Seq<String>, n: int) -> bool {
    &&& batches.len() * n >= ids.len()
    &&& batches.len() > 0 ==> (batches.len() - 1) * n < ids.len()
    &&& forall|b: int, k: int|
        0 <= b < batches.len() && 0 <= k < batches[b]@.len() ==> (#[trigger] batches[b]@[k])@
            == ids[b * n + k]@
    &&& forall|b: int|
        0 <= b < batches.len() ==> (#[trigger] batches[b])@.len() == if b < batches.len() - 1 {
            n
        } else {
            ids.len() - b * n
        }
}

/// The batches in which reads are watched.
pub fn probe_batches(ids: &Vec<String>) -> (r: Vec<Vec<String>>)
    ensures
        in_batches(r@, ids@, PROBE_BATCH as int),
{
    let mut r: Vec<Vec<String>> = Vec::new();
    let mut i: usize = 0;
    while i < ids.len()
        invariant
            i <= ids@.len(),
            i == r@.len() * PROBE_BATCH || i == ids@.len(),
            r@.len() > 0 ==> (r@.len() - 1) * PROBE_BATCH < i,
            i <= r@.len() * PROBE_BATCH,
            forall|b: int, k: int|
                0 <= b < r@.len() && 0 <= k < r@[b]@.len() ==> (#[trigger] r@[b]@[k])@ == ids@[b
                    * PROBE_BATCH + k]@,
            forall|b: int|
                0 <= b < r@.len() ==> (#[trigger] r@[b])@.len() == if b < r@.len() - 1 {
                    PROBE_BATCH as int
                } else {
                    i - b * PROBE_BATCH
                },
        decreases ids@.len() - i,
    {
        let mut batch: Vec<String> = Vec::new();
        let ghost base = i;
        while i < ids.len() && batch.len() < PROBE_BATCH
            invariant
                base <= i <= ids@.len(),
                batch@.len() == i - base,
                batch@.len() <= PROBE_BATCH,
                forall|k: int| 0 <= k < batch@.len() ==> (#[trigger] batch@[k])@ == ids@[base + k]@,
            decreases ids@.len() - i,
        {
            batch.push(ids[i].clone());
            i += 1;
        }
        r.push(batch);
    }
    r
}

/// A read that may come to be abandoned.
#[derive(Debug)]
pub struct DisconnectGuard<P> {
    pub query_id: String,
    pub permit: Option<P>,
    pub submitted: bool,
}

impl<P> DisconnectGuard<P> {
    /// A read that is about to be submitted. Nothing is, before the preparation is done.
    pub fn arm_ready(ready: bool, query_id: String, permit: P) -> (r: Result<
        DisconnectGuard<P>,
        ProcessingError,
    >)
        ensures
            if ready {
                r == Ok::<DisconnectGuard<P>, ProcessingError>(
                    DisconnectGuard { query_id, permit: Some(permit), submitted: false },
                )
            } else {
                &&& r matches Err(e)
                &&& e is Database
                &&& e.context() == "ClickHouse read cancellation is not initialized"@
            },
    {
        if !ready {
            return Err(
                ProcessingError::database_msg(
                    "ClickHouse read cancellation is not initialized".to_owned(),
                ),
            );
        }
        Ok(DisconnectGuard { query_id, permit: Some(permit), submitted: false })
    }

    /// The read was submitted.
    pub fn submitted(&mut self)
        ensures
            *final(self) == (DisconnectGuard { submitted: true, ..*old(self) }),
    {
        self.submitted = true;
    }

    /// The reply was read to its end, or nothing was submitted: the admission is given back.
    pub fn disarm(&mut self)
        ensures
            *final(self) == (DisconnectGuard { permit: None, ..*old(self) }),
    {
        self.permit = None;
    }

    /// The caller went away. A read that was submitted and did not end keeps its admission.
    pub fn abandon(self, state: &mut DisconnectState<P>, now: Duration)
        requires
            old(state).wf(),
            now.wf(),
            now.secs + UNCONFIRMED_AFTER_SECS < u64::MAX,
        ensures
            final(state).wf(),
            match self.permit {
                Some(permit) if self.submitted => {
                    let read = PendingRead {
                        query_id: self.query_id,
                        permit,
                        abandoned_at: now,
                        quiet_observations: 0u8,
                        unconfirmed: false,
                    };
                    &&& final(state).pending@.contains(read)
                    &&& forall|id: Seq<char>| #[trigger]
                        is_pending(final(state).pending@, id) <==> is_pending(
                            old(state).pending@,
                            id,
                        ) || id == self.query_id@
                    &&& forall|i: int|
                        0 <= i < final(state).pending@.len() ==> #[trigger] final(state).pending@[i]
                            == read || old(state).pending@.contains(final(state).pending@[i])
                },
                _ => *final(state) == *old(state),
            },
    {
        if !self.submitted {
            return;
        }
        if let Some(permit) = self.permit {
            state.insert(
                PendingRead {
                    query_id: self.query_id,
                    permit,
                    abandoned_at: now,
                    quiet_observations: 0,
                    unconfirmed: false,
                },
            );
        }
    }
}

/// When a preparation may begin.
#[derive(Clone, Copy, Debug, PartialEq, Eq, Structural)]
pub struct InitializationBackoff {
    pub retry_after: Option<Duration>,
}

impl InitializationBackoff {
    /// At once.
    pub fn none() -> (r: Self)
        ensures
            r.retry_after is None,
    {
        InitializationBackoff { retry_after: None }
    }

    /// Begins a preparation, unless one failed a moment ago.
    pub fn begin(&self, now: Duration) -> (r: Result<(), ProcessingError>)
        ensures
            match self.retry_after {
                Some(deadline) if now.shorter(deadline) => {
                    &&& r matches Err(e)
                    &&& e is Database
                    &&& e.context()
                        == "primary disconnect verification initialization is backing off"@
                },
                _ => r is Ok,
            },
    {
        if let Some(deadline) = self.retry_after {
            if now.is_shorter(deadline) {
                return Err(
                    ProcessingError::database_msg(
                        "primary disconnect verification initialization is backing off".to_owned(),
                    ),
                );
            }
        }
        Ok(())
    }

    /// A preparation ended. One that failed, or that its caller gave up, delays the next.
    pub fn ended(&mut self, succeeded: bool, now: Duration)
        requires
            now.wf(),
            now.secs + INITIALIZATION_BACKOFF_SECS < u64::MAX,
        ensures
            final(self).retry_after == (if succeeded {
                None
            } else {
                Some(
                    Duration { secs: (now.secs + INITIALIZATION_BACKOFF_SECS) as u64, nanos: now.nanos },
                )
            }),
    {
        self.retry_after = if succeeded {
            None
        } else {
            Some(Duration { secs: now.secs + INITIALIZATION_BACKOFF_SECS, nanos: now.nanos })
        };
    }
}

/// A text between quotes.
pub open spec fn quoted_text(value: Seq<char>) -> Seq<char> {
    "'"@ + text_search::replace_char(
        text_search::replace_char(value, '\\', "\\\\"@),
        '\'',
        "\\'"@,
    ) + "'"@
}

/// Puts a text between quotes.
pub fn quoted(value: &str) -> (r: String)
    ensures
        r@ == quoted_text(value@),
{
    let slashes = text_search::replace_char_text(value, '\\', "\\\\");
    let quotes = text_search::replace_char_text(slashes.as_str(), '\'', "\\'");
    let mut r = "'".to_owned();
    r.append(quotes.as_str());
    r.append("'");
    r
}

/// Each character of a text between quotes is one that a reader takes for itself, or one of two that
/// stand for a quote or a backslash.
pub open spec fn unquoted(s: Seq<char>) -> Option<Seq<char>>
    decreases s.len(),
{
    if s.len() == 0 {
        Some(Seq::empty())
    } else if s[0] == '\\' {
        if s.len() < 2 {
            None
        } else {
            match unquoted(s.skip(2)) {
                Some(rest) => Some(seq![s[1]] + rest),
                None => None,
            }
        }
    } else if s[0] == '\'' {
        None
    } else {
        match unquoted(s.skip(1)) {
            Some(rest) => Some(seq![s[0]] + rest),
            None => None,
        }
    }
}

proof fn lemma_unquoted_append(a: Seq<char>, b: Seq<char>)
    requires
        unquoted(a) is Some,
    ensures
        unquoted(a + b) == (match unquoted(b) {
            Some(rest) => Some(unquoted(a)->0 + rest),
            None => None::<Seq<char>>,
        }),
    decreases a.len(),
{
    if a.len() == 0 {
        assert(a + b =~= b);
        if let Some(rest) = unquoted(b) {
            assert(Seq::<char>::empty() + rest =~= rest);
        }
    } else if a[0] == '\\' {
        assert((a + b).skip(2) =~= a.skip(2) + b);
        lemma_unquoted_append(a.skip(2), b);
        assert((a + b)[1] == a[1]);
        if let Some(rest) = unquoted(b) {
            assert(seq![a[1]] + (unquoted(a.skip(2))->0 + rest) =~= (seq![a[1]] + unquoted(
                a.skip(2),
            )->0) + rest);
        }
    } else {
        assert((a + b).skip(1) =~= a.skip(1) + b);
        lemma_unquoted_append(a.skip(1), b);
        if let Some(rest) = unquoted(b) {
            assert(seq![a[0]] + (unquoted(a.skip(1))->0 + rest) =~= (seq![a[0]] + unquoted(
                a.skip(1),
            )->0) + rest);
        }
    }
}

proof fn lemma_replace_char_push(s: Seq<char>, x: char, c: char, with: Seq<char>)
    ensures
        text_search::replace_char(s.push(x), c, with) == text_search::replace_char(s, c, with)
            + (if x == c {
            with
        } else {
            seq![x]
        }),
{
    assert(s.push(x).drop_last() =~= s);
    if x != c {
        assert(text_search::replace_char(s, c, with).push(x) =~= text_search::replace_char(
            s,
            c,
            with,
        ) + seq![x]);
    }
}

/// A text between quotes is read back as it was: nothing in it ends the quotes.
pub proof fn law_quoted_text_reads_back(value: Seq<char>)
    ensures
        ({
            let q = quoted_text(value);
            &&& q.len() >= 2
            &&& q[0] == '\''
            &&& q.last() == '\''
            &&& unquoted(q.subrange(1, q.len() - 1)) == Some(value)
        }),
{
    reveal_strlit("'");
    let inner = text_search::replace_char(
        text_search::replace_char(value, '\\', "\\\\"@),
        '\'',
        "\\'"@,
    );
    lemma_quoted_inner(value);
    let q = quoted_text(value);
    assert(q.subrange(1, q.len() - 1) =~= inner);
}

proof fn lemma_quoted_inner(value: Seq<char>)
    ensures
        unquoted(
            text_search::replace_char(
                text_search::replace_char(value, '\\', "\\\\"@),
                '\'',
                "\\'"@,
            ),
        ) == Some(value),
    decreases value.len(),
{
    reveal_strlit("\\\\");
    reveal_strlit("\\'");
    if value.len() > 0 {
        let rest = value.drop_last();
        let x = value.last();
        lemma_quoted_inner(rest);
        let slashes = text_search::replace_char(rest, '\\', "\\\\"@);
        let inner = text_search::replace_char(slashes, '\'', "\\'"@);
        assert(value =~= rest.push(x));
        lemma_replace_char_push(rest, x, '\\', "\\\\"@);
        if x == '\\' {
            assert(slashes + "\\\\"@ =~= slashes.push('\\').push('\\'));
            lemma_replace_char_push(slashes, '\\', '\'', "\\'"@);
            lemma_replace_char_push(slashes.push('\\'), '\\', '\'', "\\'"@);
            let tail = seq!['\\', '\\'];
            assert(inner + seq!['\\'] + seq!['\\'] =~= inner + tail);
            assert(tail.skip(2) =~= Seq::empty());
            assert(unquoted(tail.skip(2)) == Some(Seq::<char>::empty()));
            assert(seq!['\\'] + Seq::<char>::empty() =~= seq!['\\']);
            lemma_unquoted_append(inner, tail);
            assert(rest + seq!['\\'] =~= value);
        } else {
            assert(slashes + seq![x] =~= slashes.push(x));
            lemma_replace_char_push(slashes, x, '\'', "\\'"@);
            if x == '\'' {
                let tail = "\\'"@;
                assert(tail.skip(2) =~= Seq::empty());
                assert(unquoted(tail.skip(2)) == Some(Seq::<char>::empty()));
                assert(seq![x] + Seq::<char>::empty() =~= seq![x]);
                lemma_unquoted_append(inner, tail);
                assert(rest + seq![x] =~= value);
            } else {
                let tail = seq![x];
                assert(tail.skip(1) =~= Seq::empty());
                assert(unquoted(tail.skip(1)) == Some(Seq::<char>::empty()));
                assert(seq![x] + Seq::<char>::empty() =~= seq![x]);
                lemma_unquoted_append(inner, tail);
                assert(rest + seq![x] =~= value);
            }
        }
    }
}

/// A system table, on all replicas of a cluster where there is one.
pub open spec fn table_text(cluster: Option<Seq<char>>, name: Seq<char>) -> Seq<char> {
    match cluster {
        Some(cluster) => ("clusterAllReplicas("@ + quoted_text(cluster) + ", system."@ + name + ")"@),
        None => ("system."@ + name),
    }
}

/// A system table, on all replicas of a cluster where there is one.
pub fn table(cluster: Option<&str>, name: &str) -> (r: String)
    ensures
        r@ == table_text(opt_str(cluster), name@),
{
    match cluster {
        Some(cluster) => {
            let mut m = "clusterAllReplicas(".to_owned();
            m.append(quoted(cluster).as_str());
            m.append(", system.");
            m.append(name);
            m.append(")");
            m
        },
        None => {
            let mut m = "system.".to_owned();
            m.append(name);
            m
        },
    }
}

/// The characters of a text that may not be there.
pub open spec fn opt_str(s: Option<&str>) -> Option<Seq<char>> {
    match s {
        Some(t) => Some(t@),
        None => None,
    }
}

/// The query for the replicas that probes have to reach.
pub open spec fn discovery_text(cluster: Option<Seq<char>>) -> Seq<char> {
    match cluster {
        None => "SELECT hostName() AS node, toUInt64(1) AS expected, toUInt8(1) AS coordinator FROM system.one"@,
        Some(name) => ("SELECT hostName() AS node, toUInt64(0) AS expected, toUInt8(0) AS coordinator FROM "@ + table_text(cluster, "one"@) + " UNION ALL SELECT hostName() AS node, ifNull((SELECT count() FROM system.clusters WHERE cluster = "@ + quoted_text(name) + "), toUInt64(0)) AS expected, toUInt8(1) AS coordinator FROM system.one"@),
    }
}

/// Builds the query for the replicas that probes have to reach.
pub fn discovery_sql(cluster: Option<&str>) -> (r: String)
    ensures
        r@ == discovery_text(opt_str(cluster)),
{
    match cluster {
        None => "SELECT hostName() AS node, toUInt64(1) AS expected, toUInt8(1) AS coordinator FROM system.one".to_owned(),
        Some(name) => {
            let one = table(cluster, "one");
            let quoted_name = quoted(name);
            let mut m = "SELECT hostName() AS node, toUInt64(0) AS expected, toUInt8(0) AS coordinator FROM ".to_owned();
            m.append(one.as_str());
            m.append(" UNION ALL SELECT hostName() AS node, ifNull((SELECT count() FROM system.clusters WHERE cluster = ");
            m.append(quoted_name.as_str());
            m.append("), toUInt64(0)) AS expected, toUInt8(1) AS coordinator FROM system.one");
            m
        },
    }
}

/// The parts of a cluster's name: texts, and macros between braces. A brace that is not closed, and
/// a macro without a name or with a brace in it, are wrong.
pub open spec fn macro_pieces(cluster: Seq<char>) -> Result<Seq<Seq<char>>, Seq<char>>
    decreases cluster.len(),
{
    let start = text_search::first_position(cluster, '{');
    if start < 0 || start >= cluster.len() {
        Ok(seq![quoted_text(cluster)])
    } else {
        let after = cluster.skip(start + 1);
        let end = text_search::first_position(after, '}');
        if end < 0 || end >= after.len() {
            Err("unclosed ClickHouse cluster macro"@)
        } else {
            let name = after.take(end);
            if name.len() == 0 || name.contains('{') {
                Err("invalid ClickHouse cluster macro"@)
            } else {
                match macro_pieces(after.skip(end + 1)) {
                    Ok(rest) => Ok(
                        seq![
                            quoted_text(cluster.take(start)),
                            ("getMacro("@ + quoted_text(name) + ")"@),
                        ] + rest,
                    ),
                    Err(message) => Err(message),
                }
            }
        }
    }
}

/// Builds the query that resolves the macros in a cluster's name.
pub fn macro_sql(cluster: &str) -> (r: Result<String, ProcessingError>)
    ensures
        match macro_pieces(cluster@) {
            Ok(pieces) => r matches Ok(sql) && sql@ == ("SELECT concat("@ + text::join(pieces, ", "@) + ") AS cluster FROM system.one"@),
            Err(message) => r matches Err(e) && e is Database && e.context() == message,
        },
{
    let mut remaining = cluster.to_owned();
    let mut pieces: Vec<String> = Vec::new();
    let mut done = false;
    proof {
        if let Ok(rest) = macro_pieces(cluster@) {
            assert(text::texts(pieces@) + rest =~= rest);
        }
    }
    while !done
        invariant
            match macro_pieces(cluster@) {
                Ok(all) => if done {
                    all == text::texts(pieces@)
                } else {
                    macro_pieces(remaining@) matches Ok(rest) && all == text::texts(pieces@) + rest
                },
                Err(message) => !done && macro_pieces(remaining@) == Err::<
                    Seq<Seq<char>>,
                    Seq<char>,
                >(message),
            },
        decreases
            if done {
                0
            } else {
                remaining@.len() + 1
            },
    {
        let ghost before = text::texts(pieces@);
        let ghost rest = remaining@;
        match text_search::split_once_text(remaining.as_str(), '{') {
            None => {
                text::push_text(&mut pieces, quoted(remaining.as_str()));
                done = true;
                proof {
                    assert(before + seq![quoted_text(rest)] =~= text::texts(pieces@));
                }
            },
            Some((head, after)) => {
                proof {
                    text_search::lemma_first_position(rest, '{');
                    text_search::lemma_first_position(after@, '}');
                }
                match text_search::split_once_text(after.as_str(), '}') {
                    None => {
                        return Err(
                            ProcessingError::database_msg(
                                "unclosed ClickHouse cluster macro".to_owned(),
                            ),
                        );
                    },
                    Some((name, tail)) => {
                        proof {
                            reveal_strlit("");
                            assert(name@.len() == 0 <==> name@ == ""@) by {
                                if name@.len() == 0 {
                                    assert(name@ =~= ""@);
                                }
                            }
                        }
                        if text::text_eq(name.as_str(), "") || text_search::contains_char(
                            name.as_str(),
                            '{',
                        ) {
                            return Err(
                                ProcessingError::database_msg(
                                    "invalid ClickHouse cluster macro".to_owned(),
                                ),
                            );
                        }
                        let quoted_name = quoted(name.as_str());
                        text::push_text(&mut pieces, quoted(head.as_str()));
                        let call = {
                            let mut m = "getMacro(".to_owned();
                            m.append(quoted_name.as_str());
                            m.append(")");
                            m
                        };
                        text::push_text(&mut pieces, call);
                        remaining = tail;
                        proof {
                            if let Ok(more) = macro_pieces(tail@) {
                                assert(before + (seq![quoted_text(head@), call@] + more)
                                    =~= text::texts(pieces@) + more);
                            }
                        }
                    },
                }
            },
        }
    }
    Ok({
        let mut m = "SELECT concat(".to_owned();
        m.append(text::join_texts(&pieces, ", ").as_str());
        m.append(") AS cluster FROM system.one");
        m
    })
}

/// How the name of a cluster is found.
#[derive(Debug)]
pub enum ClusterName {
    /// There is no cluster.
    Absent,
    /// This is the name.
    Literal(String),
    /// This query resolves it.
    Resolve(String),
}

/// Says how the name of a cluster is found: one with a brace is resolved by the server.
pub fn cluster_name(cluster: Option<&str>) -> (r: Result<ClusterName, ProcessingError>)
    ensures
        match cluster {
            None => r matches Ok(name) && name is Absent,
            Some(text) => if !text@.contains('{') {
                r matches Ok(ClusterName::Literal(name)) && name@ == text@
            } else {
                match macro_pieces(text@) {
                    Ok(pieces) => r matches Ok(ClusterName::Resolve(sql)) && sql@ == ("SELECT concat("@ + text::join(pieces, ", "@) + ") AS cluster FROM system.one"@),
                    Err(message) => r matches Err(e) && e is Database && e.context() == message,
                }
            },
        },
{
    match cluster {
        None => Ok(ClusterName::Absent),
        Some(name) => {
            if !text_search::contains_char(name, '{') {
                return Ok(ClusterName::Literal(name.to_owned()));
            }
            match macro_sql(name) {
                Ok(sql) => Ok(ClusterName::Resolve(sql)),
                Err(e) => Err(e),
            }
        },
    }
}

/// Takes the rows of the query that resolves a cluster's name: there has to be one, with a name.
pub fn resolve_cluster(rows: Vec<String>) -> (r: Result<String, ProcessingError>)
    ensures
        if rows@.len() == 0 || rows@[0]@.len() == 0 {
            r matches Err(e) && e is Database && e.context()
                == "empty ClickHouse cluster macro resolution"@
        } else if rows@.len() > 1 {
            r matches Err(e) && e is Database && e.context()
                == "ambiguous ClickHouse cluster macro resolution"@
        } else {
            r matches Ok(name) && name@ == rows@[0]@
        },
{
    proof {
        reveal_strlit("");
        if rows@.len() > 0 && rows@[0]@.len() == 0 {
            assert(rows@[0]@ =~= ""@);
        }
    }
    if rows.len() == 0 || text::text_eq(rows[0].as_str(), "") {
        return Err(
            ProcessingError::database_msg("empty ClickHouse cluster macro resolution".to_owned()),
        );
    }
    if rows.len() > 1 {
        return Err(
            ProcessingError::database_msg(
                "ambiguous ClickHouse cluster macro resolution".to_owned(),
            ),
        );
    }
    Ok(rows[0].clone())
}

/// A row of the query for replicas.
#[derive(Debug)]
pub struct DiscoveryRow {
    pub node: String,
    pub expected: u64,
    pub coordinator: u8,
}

/// What the rows read so far say.
pub struct DiscoverySpec {
    pub expected: Option<u64>,
    pub coordinator: Option<Seq<char>>,
    pub nodes: Seq<Seq<char>>,
}

/// What rows say, or what is wrong with the first that is wrong: there is one coordinator, and every
/// replica has a name of its own.
pub open spec fn discovered(rows: Seq<DiscoveryRow>, distributed: bool) -> Result<
    DiscoverySpec,
    Seq<char>,
>
    decreases rows.len(),
{
    if rows.len() == 0 {
        Ok(DiscoverySpec { expected: None, coordinator: None, nodes: Seq::empty() })
    } else {
        let row = rows.last();
        match discovered(rows.drop_last(), distributed) {
            Err(message) => Err(message),
            Ok(d) => if row.coordinator == 1 {
                if d.coordinator is Some {
                    Err("duplicate verification coordinator"@)
                } else {
                    Ok(
                        DiscoverySpec {
                            expected: Some(row.expected),
                            coordinator: Some(row.node@),
                            nodes: if distributed || d.nodes.contains(row.node@) {
                                d.nodes
                            } else {
                                d.nodes.push(row.node@)
                            },
                        },
                    )
                }
            } else if row.node@.len() == 0 || d.nodes.contains(row.node@) {
                Err("ambiguous verification replica identity"@)
            } else {
                Ok(DiscoverySpec { nodes: d.nodes.push(row.node@), ..d })
            },
        }
    }
}

/// Whether rows name every replica: as many as the coordinator expects, the coordinator among them.
pub open spec fn is_complete(d: DiscoverySpec) -> bool {
    &&& d.expected matches Some(n) && n == d.nodes.len()
    &&& d.nodes.len() > 0
    &&& d.coordinator matches Some(node) && d.nodes.contains(node)
}

proof fn lemma_discovery_error_stays(rows: Seq<DiscoveryRow>, distributed: bool, n: int)
    requires
        0 <= n <= rows.len(),
        discovered(rows.take(n), distributed) is Err,
    ensures
        discovered(rows, distributed) == discovered(rows.take(n), distributed),
    decreases rows.len() - n,
{
    if n == rows.len() {
        assert(rows.take(n) =~= rows);
    } else {
        assert(rows.take(n + 1).drop_last() =~= rows.take(n));
        lemma_discovery_error_stays(rows, distributed, n + 1);
    }
}

/// Checks the rows of the query for replicas, and returns the names of the replicas.
pub fn validate_topology(rows: &Vec<DiscoveryRow>, distributed: bool) -> (r: Result<
    Vec<String>,
    ProcessingError,
>)
    ensures
        match discovered(rows@, distributed) {
            Err(message) => r matches Err(e) && e is Database && e.context() == message,
            Ok(d) => if is_complete(d) {
                r matches Ok(nodes) && text::texts(nodes@) == d.nodes
            } else {
                r matches Err(e) && e is Database && e.context()
                    == "incomplete primary disconnect verification topology"@
            },
        },
{
    let mut expected: Option<u64> = None;
    let mut coordinator: Option<String> = None;
    let mut nodes: Vec<String> = Vec::new();
    let mut i: usize = 0;
    proof {
        assert(rows@.take(0) =~= Seq::empty());
        assert(text::texts(nodes@) =~= Seq::empty());
    }
    while i < rows.len()
        invariant
            i <= rows@.len(),
            discovered(rows@.take(i as int), distributed) matches Ok(d) && d.expected == expected
                && d.nodes == text::texts(nodes@) && d.coordinator == (match coordinator {
                Some(node) => Some(node@),
                None => None::<Seq<char>>,
            }),
        decreases rows@.len() - i,
    {
        let row = &rows[i];
        proof {
            reveal_strlit("");
            assert(rows@.take(i + 1).drop_last() =~= rows@.take(i as int));
            assert(rows@.take(i + 1).last() == *row);
            if row.node@.len() == 0 {
                assert(row.node@ =~= ""@);
            }
            if discovered(rows@.take(i + 1), distributed) is Err {
                lemma_discovery_error_stays(rows@, distributed, i + 1);
            }
        }
        if row.coordinator == 1 {
            if coordinator.is_some() {
                return Err(
                    ProcessingError::database_msg("duplicate verification coordinator".to_owned()),
                );
            }
            coordinator = Some(row.node.clone());
            expected = Some(row.expected);
            if !distributed && !text::holds_text(&nodes, row.node.as_str()) {
                text::push_text(&mut nodes, row.node.clone());
            }
        } else {
            if text::text_eq(row.node.as_str(), "") || text::holds_text(&nodes, row.node.as_str()) {
                return Err(
                    ProcessingError::database_msg(
                        "ambiguous verification replica identity".to_owned(),
                    ),
                );
            }
            text::push_text(&mut nodes, row.node.clone());
        }
        i += 1;
    }
    assert(rows@.take(i as int) =~= rows@);
    let count: u64 = nodes.len() as u64;
    let counted = match expected {
        Some(n) => n == count,
        None => false,
    };
    let inside = match &coordinator {
        Some(node) => text::holds_text(&nodes, node.as_str()),
        None => false,
    };
    if !(counted && nodes.len() > 0 && inside) {
        return Err(
            ProcessingError::database_msg(
                "incomplete primary disconnect verification topology".to_owned(),
            ),
        );
    }
    Ok(nodes)
}

/// Replicas have names of their own: a row that names one again is wrong.
pub proof fn law_discovered_nodes_are_distinct(rows: Seq<DiscoveryRow>, distributed: bool)
    ensures
        discovered(rows, distributed) matches Ok(d) ==> d.nodes.no_duplicates(),
    decreases rows.len(),
{
    if rows.len() > 0 {
        law_discovered_nodes_are_distinct(rows.drop_last(), distributed);
    }
}

/// The query for traces of reads.
pub open spec fn probe_text(cluster: Option<Seq<char>>, ids: Seq<Seq<char>>) -> Seq<char> {
    let list = text::join(Seq::new(ids.len(), |i: int| quoted_text(ids[i])), ", "@);
    ("SELECT hostName() AS node, '' AS active_id FROM "@ + table_text(cluster, "one"@) + " UNION ALL SELECT hostName() AS node, if(query_id IN ("@ + list + "), query_id, initial_query_id) AS active_id FROM "@ + table_text(cluster, "processes"@) + " WHERE query_id IN ("@ + list + ") OR initial_query_id IN ("@ + list + ")"@)
}

fn quoted_ids(ids: &[String]) -> (r: Vec<String>)
    ensures
        text::texts(r@) == Seq::new(ids@.len(), |i: int| quoted_text(ids@[i]@)),
{
    let mut r: Vec<String> = Vec::new();
    let ghost all = Seq::new(ids@.len(), |i: int| quoted_text(ids@[i]@));
    let mut i: usize = 0;
    while i < ids.len()
        invariant
            i <= ids@.len(),
            all == Seq::new(ids@.len(), |i: int| quoted_text(ids@[i]@)),
            text::texts(r@) == all.take(i as int),
        decreases ids@.len() - i,
    {
        text::push_text(&mut r, quoted(ids[i].as_str()));
        i += 1;
        proof {
            assert(all.take(i as int) =~= all.take(i - 1).push(all[i - 1]));
        }
    }
    assert(all.take(i as int) =~= all);
    r
}

/// Builds the query for traces of reads, under their own names or as parts of others.
pub fn probe_sql(cluster: Option<&str>, ids: &[String]) -> (r: String)
    ensures
        r@ == probe_text(opt_str(cluster), text::texts(ids@)),
{
    let quoted_list = quoted_ids(ids);
    let joined = text::join_texts(&quoted_list, ", ");
    let list = joined.as_str();
    let one = table(cluster, "one");
    let processes = table(cluster, "processes");
    proof {
        assert(Seq::new(ids@.len(), |i: int| quoted_text(ids@[i]@)) =~= Seq::new(
            text::texts(ids@).len(),
            |i: int| quoted_text(text::texts(ids@)[i]),
        ));
    }
    let mut m = "SELECT hostName() AS node, '' AS active_id FROM ".to_owned();
    m.append(one.as_str());
    m.append(" UNION ALL SELECT hostName() AS node, if(query_id IN (");
    m.append(list);
    m.append("), query_id, initial_query_id) AS active_id FROM ");
    m.append(processes.as_str());
    m.append(" WHERE query_id IN (");
    m.append(list);
    m.append(") OR initial_query_id IN (");
    m.append(list);
    m.append(")");
    m
}

/// A row of the query for traces: a replica that was reached, or a trace that it has.
#[derive(Debug)]
pub struct ProbeRow {
    pub node: String,
    pub active_id: String,
}

/// The traces in rows.
pub open spec fn traces(rows: Seq<ProbeRow>) -> Seq<Seq<char>>
    decreases rows.len(),
{
    if rows.len() == 0 {
        Seq::empty()
    } else if rows.last().active_id@.len() == 0 {
        traces(rows.drop_last())
    } else {
        traces(rows.drop_last()).push(rows.last().active_id@)
    }
}

/// Whether a replica was reached.
pub open spec fn is_covered(rows: Seq<ProbeRow>, node: Seq<char>) -> bool {
    exists|i: int|
        0 <= i < rows.len() && (#[trigger] rows[i]).node@ == node && rows[i].active_id@.len() == 0
}

fn covers(rows: &Vec<ProbeRow>, node: &str) -> (r: bool)
    ensures
        r == is_covered(rows@, node@),
{
    let mut i: usize = 0;
    while i < rows.len()
        invariant
            i <= rows@.len(),
            forall|k: int|
                0 <= k < i ==> !((#[trigger] rows@[k]).node@ == node@ && rows@[k].active_id@.len()
                    == 0),
        decreases rows@.len() - i,
    {
        proof {
            reveal_strlit("");
            if rows@[i as int].active_id@.len() == 0 {
                assert(rows@[i as int].active_id@ =~= ""@);
            }
        }
        if text::text_eq(rows[i].node.as_str(), node) && text::text_eq(
            rows[i].active_id.as_str(),
            "",
        ) {
            return true;
        }
        i += 1;
    }
    false
}

/// Checks the rows of a probe, and returns the names of the reads with a trace. Every replica has to
/// be reached, and no other.
pub fn validate_observation(rows: &Vec<ProbeRow>, expected: &Vec<String>) -> (r: Result<
    Vec<String>,
    ProcessingError,
>)
    ensures
        if exists|i: int|
            0 <= i < rows@.len() && !text::texts(expected@).contains(
                (#[trigger] rows@[i]).node@,
            ) {
            r matches Err(e) && e is Database && e.context()
                == "primary verification topology changed"@
        } else if exists|i: int|
            0 <= i < expected@.len() && !is_covered(rows@, (#[trigger] expected@[i])@) {
            r matches Err(e) && e is Database && e.context()
                == "incomplete primary verification coverage"@
        } else {
            r matches Ok(active) && text::texts(active@) == lists::first_occurrences(traces(rows@))
        },
{
    let mut active: Vec<String> = Vec::new();
    let mut i: usize = 0;
    proof {
        assert(rows@.take(0) =~= Seq::empty());
        assert(text::texts(active@) =~= Seq::empty());
    }
    while i < rows.len()
        invariant
            i <= rows@.len(),
            forall|k: int|
                0 <= k < i ==> text::texts(expected@).contains((#[trigger] rows@[k]).node@),
            text::texts(active@) == lists::first_occurrences(traces(rows@.take(i as int))),
        decreases rows@.len() - i,
    {
        let row = &rows[i];
        if !text::holds_text(expected, row.node.as_str()) {
            return Err(
                ProcessingError::database_msg("primary verification topology changed".to_owned()),
            );
        }
        proof {
            reveal_strlit("");
            if row.active_id@.len() == 0 {
                assert(row.active_id@ =~= ""@);
            }
            assert(rows@.take(i + 1).drop_last() =~= rows@.take(i as int));
            assert(rows@.take(i + 1).last() == *row);
            let known = traces(rows@.take(i as int));
            assert(known.push(row.active_id@).drop_last() =~= known);
            lists::law_first_occurrences_distinct_and_complete(known);
        }
        if !text::text_eq(row.active_id.as_str(), "") && !text::holds_text(
            &active,
            row.active_id.as_str(),
        ) {
            text::push_text(&mut active, row.active_id.clone());
        }
        i += 1;
    }
    assert(rows@.take(i as int) =~= rows@);
    let mut n: usize = 0;
    while n < expected.len()
        invariant
            n <= expected@.len(),
            forall|k: int|
                0 <= k < rows@.len() ==> text::texts(expected@).contains(
                    (#[trigger] rows@[k]).node@,
                ),
            forall|k: int| 0 <= k < n ==> is_covered(rows@, (#[trigger] expected@[k])@),
        decreases expected@.len() - n,
    {
        if !covers(rows, expected[n].as_str()) {
            assert(!is_covered(rows@, expected@[n as int]@));
            return Err(
                ProcessingError::database_msg(
                    "incomplete primary verification coverage".to_owned(),
                ),
            );
        }
        n += 1;
    }
    Ok(active)
}

/// A setting of a query.
pub open spec fn is_setting(pair: (String, String), name: Seq<char>, value: Seq<char>) -> bool {
    pair.0@ == name && pair.1@ == value
}

/// The settings of a query of a probe: it reads only, ends with its connection, and takes little.
pub open spec fn probe_setting_names() -> Seq<(Seq<char>, Seq<char>)> {
    seq![
        ("readonly"@, "2"@),
        ("cancel_http_readonly_queries_on_client_close"@, "1"@),
        ("max_threads"@, "1"@),
        ("max_threads_for_indexes"@, "1"@),
        ("max_parallel_replicas"@, "1"@),
        ("use_hedged_requests"@, "0"@),
        ("skip_unavailable_shards"@, "0"@),
        ("timeout_overflow_mode"@, "throw"@),
        ("timeout_overflow_mode_leaf"@, "throw"@),
        ("timeout_before_checking_execution_speed"@, "0"@),
        ("use_query_cache"@, "0"@),
    ]
}

pub(crate) fn setting(name: &str, value: &str) -> (r: (String, String))
    ensures
        is_setting(r, name@, value@),
{
    (name.to_owned(), value.to_owned())
}

/// The settings of a query of a probe under a name, which may take as long as given.
pub fn probe_settings(query_id: &str, timeout: Duration) -> (r: Vec<(String, String)>)
    requires
        timeout.wf(),
        timeout.secs < u64::MAX,
    ensures
        ({
            let fixed = probe_setting_names();
            &&& r@.len() == fixed.len() + 3
            &&& forall|i: int|
                0 <= i < fixed.len() ==> is_setting(
                    #[trigger] r@[i],
                    fixed[i].0,
                    fixed[i].1,
                )
            &&& is_setting(r@[fixed.len() as int], "query_id"@, query_id@)
            &&& exists|limit: u64|
                {
                    &&& #[trigger] is_setting(
                        r@[fixed.len() as int + 1],
                        "max_execution_time"@,
                        text::dec(limit as nat),
                    )
                    &&& is_setting(
                        r@[fixed.len() as int + 2],
                        "max_execution_time_leaf"@,
                        text::dec(limit as nat),
                    )
                    &&& (limit - 1) * MILLIS_PER_SEC < timeout.millis() <= limit * MILLIS_PER_SEC
                }
        }),
{
    let limit: u64 = execution_limit_secs(timeout);
    let seconds = text::dec_string(limit);
    let mut r: Vec<(String, String)> = Vec::new();
    r.push(setting("readonly", "2"));
    r.push(setting("cancel_http_readonly_queries_on_client_close", "1"));
    r.push(setting("max_threads", "1"));
    r.push(setting("max_threads_for_indexes", "1"));
    r.push(setting("max_parallel_replicas", "1"));
    r.push(setting("use_hedged_requests", "0"));
    r.push(setting("skip_unavailable_shards", "0"));
    r.push(setting("timeout_overflow_mode", "throw"));
    r.push(setting("timeout_overflow_mode_leaf", "throw"));
    r.push(setting("timeout_before_checking_execution_speed", "0"));
    r.push(setting("use_query_cache", "0"));
    r.push(setting("query_id", query_id));
    r.push(setting("max_execution_time", seconds.as_str()));
    r.push(setting("max_execution_time_leaf", seconds.as_str()));
    proof {
        let fixed = probe_setting_names();
        assert(fixed.len() == 11);
        assert forall|i: int| 0 <= i < fixed.len() implies is_setting(
            #[trigger] r@[i],
            fixed[i].0,
            fixed[i].1,
        ) by {
            if i < 4 {
                assert(i == 0 || i == 1 || i == 2 || i == 3);
            } else if i < 8 {
                assert(i == 4 || i == 5 || i == 6 || i == 7);
            } else {
                assert(i == 8 || i == 9 || i == 10);
            }
        }
        assert(is_setting(
            r@[fixed.len() as int + 1],
            "max_execution_time"@,
            text::dec(limit as nat),
        ));
    }
    r
}

/// A text between quotes is the text, with a backslash before each quote and each backslash, so that it
/// ends at the last quote only.
pub proof fn law_quoted_text_is_escaped(a: Seq<char>, b: Seq<char>)
    ensures
        quoted_text(Seq::empty()) == seq!['\'', '\''],
        quoted_text(a)[0] == '\'' && quoted_text(a).last() == '\'',
        quoted_text(a + b) == quoted_text(a).drop_last() + quoted_text(b).drop_first(),
        quoted_text(seq!['\'']) == seq!['\'', '\\', '\'', '\''],
        quoted_text(seq!['\\']) == seq!['\'', '\\', '\\', '\''],
        !a.contains('\'') && !a.contains('\\') ==> quoted_text(a) == seq!['\''] + a + seq!['\''],
{
    let two = "\\\\"@;
    let quote = "\\'"@;
    reveal_strlit("\\\\");
    reveal_strlit("\\'");
    reveal_strlit("'");
    assert(two =~= seq!['\\'] + seq!['\\']);
    assert(quote =~= seq!['\\'] + seq!['\'']);
    let none = Seq::<char>::empty();
    text_search::law_replacing_goes_character_by_character(a, b, '\\', '\'', two);
    let ea = text_search::replace_char(a, '\\', two);
    let eb = text_search::replace_char(b, '\\', two);
    text_search::law_replacing_goes_character_by_character(ea, eb, '\'', '\\', quote);
    text_search::law_replacing_goes_character_by_character(seq!['\\'], seq!['\\'], '\'', '\\', quote);
    text_search::law_replacing_goes_character_by_character(a, none, '\'', '\\', quote);
    assert(quoted_text(a + b) =~= quoted_text(a).drop_last() + quoted_text(b).drop_first());
    assert(text_search::replace_char(none, '\\', two) =~= none);
    assert(text_search::replace_char(none, '\'', quote) =~= none);
}

/// A macro in the name of a cluster is asked for by its name, and the text around it stays as it is.
pub proof fn law_macros_are_asked_for_by_name(before: Seq<char>, name: Seq<char>, after: Seq<char>)
    requires
        !before.contains('{'),
        name.len() > 0,
        !name.contains('{') && !name.contains('}'),
    ensures
        macro_pieces(before) == Ok::<Seq<Seq<char>>, Seq<char>>(seq![quoted_text(before)]),
        macro_pieces(before + seq!['{'] + name + seq!['}'] + after) == (match macro_pieces(after) {
            Ok(rest) => Ok::<Seq<Seq<char>>, Seq<char>>(
                seq![quoted_text(before), "getMacro("@ + quoted_text(name) + ")"@] + rest,
            ),
            Err(message) => Err(message),
        }),
        macro_pieces(before + seq!['{'] + name) is Err,
        macro_pieces(before + seq!['{', '}'] + after) is Err,
{
    let tail = name + seq!['}'] + after;
    let whole = before + seq!['{'] + name + seq!['}'] + after;
    assert(whole =~= before + seq!['{'] + tail);
    text_search::lemma_first_position_of_join(before, '{', tail);
    text_search::lemma_first_position_of_join(name, '}', after);
    assert(whole.skip(before.len() as int + 1) =~= tail);
    assert(tail.take(name.len() as int) =~= name);
    assert(tail.skip(name.len() as int + 1) =~= after);
    assert(whole.take(before.len() as int) =~= before);
    let open = before + seq!['{'] + name;
    text_search::lemma_first_position_of_join(before, '{', name);
    assert(open.skip(before.len() as int + 1) =~= name);
    lemma_no_position(name, '}');
    lemma_no_position(before, '{');
    let empty = before + seq!['{', '}'] + after;
    let rest = seq!['}'] + after;
    assert(empty =~= before + seq!['{'] + rest);
    text_search::lemma_first_position_of_join(before, '{', rest);
    assert(empty.skip(before.len() as int + 1) =~= rest);
    assert(rest.take(0) =~= Seq::empty());
}

proof fn lemma_no_position(s: Seq<char>, c: char)
    requires
        !s.contains(c),
    ensures
        text_search::first_position(s, c) == s.len(),
    decreases s.len(),
{
    if s.len() > 0 {
        assert(s.contains(s[0]));
        let rest = s.skip(1);
        assert forall|i: int| 0 <= i < rest.len() implies rest[i] != c by {
            assert(s.contains(s[i + 1]));
        }
        lemma_no_position(rest, c);
    }
}

/// A read is reported as soon as five seconds have passed since it was abandoned, and not before.
pub proof fn law_read_is_reported_after_five_seconds(abandoned_at: Duration, seconds: u64)
    requires
        abandoned_at.secs + seconds <= u64::MAX,
    ensures
        is_overdue(
            abandoned_at,
            Duration { secs: (abandoned_at.secs + seconds) as u64, nanos: abandoned_at.nanos },
        ) <==> seconds >= 5,
{
}

/// The traces of reads are all names that some row gives, and no other.
pub proof fn law_every_trace_counts(rows: Seq<ProbeRow>, id: Seq<char>)
    ensures
        traces(rows).contains(id) <==> id.len() > 0 && exists|i: int|
            0 <= i < rows.len() && (#[trigger] rows[i]).active_id@ == id,
    decreases rows.len(),
{
    if rows.len() > 0 {
        let rest = rows.drop_last();
        law_every_trace_counts(rest, id);
        let found = traces(rest);
        let all = traces(rows);
        assert(rows[rows.len() - 1] == rows.last());
        assert forall|i: int| 0 <= i < rest.len() implies rest[i] == #[trigger] rows[i] by {}
        if found.contains(id) {
            let i = choose|i: int| 0 <= i < rest.len() && (#[trigger] rest[i]).active_id@ == id;
            assert(rows[i].active_id@ == id);
            assert(all[found.index_of(id)] == id);
        }
        if all.contains(id) && !found.contains(id) {
            let p = all.index_of(id);
            if p < found.len() {
                assert(found[p] == id);
            }
        }
        if rows.last().active_id@ == id && id.len() > 0 {
            assert(all[found.len() as int] == id);
        }
        if exists|i: int| 0 <= i < rows.len() && (#[trigger] rows[i]).active_id@ == id {
            let i = choose|i: int| 0 <= i < rows.len() && (#[trigger] rows[i]).active_id@ == id;
            if i < rest.len() {
                assert(rest[i].active_id@ == id);
            }
        }
    }
}

/// All replicas are known only where as many were named as there have to be, and the one that was asked is
/// among them.
pub proof fn law_all_replicas_have_to_be_named(d: DiscoverySpec)
    ensures
        is_complete(d) ==> d.nodes.len() > 0 && d.expected == Some(d.nodes.len() as u64),
        is_complete(d) ==> (d.coordinator matches Some(node) && d.nodes.contains(node)),
        d.expected is None || d.coordinator is None ==> !is_complete(d),
{
}

/// A probe only reads, ends with its connection, and leaves out no shard.
pub proof fn law_probes_read_only()
    ensures
        probe_setting_names().contains(("readonly"@, "2"@)),
        probe_setting_names().contains(("cancel_http_readonly_queries_on_client_close"@, "1"@)),
        probe_setting_names().contains(("skip_unavailable_shards"@, "0"@)),
        probe_setting_names().contains(("use_query_cache"@, "0"@)),
        probe_setting_names().contains(("max_threads"@, "1"@)),
        probe_setting_names().contains(("timeout_overflow_mode"@, "throw"@)),
{
    let s = probe_setting_names();
    assert(s[0] == ("readonly"@, "2"@));
    assert(s[1] == ("cancel_http_readonly_queries_on_client_close"@, "1"@));
    assert(s[2] == ("max_threads"@, "1"@));
    assert(s[6] == ("skip_unavailable_shards"@, "0"@));
    assert(s[7] == ("timeout_overflow_mode"@, "throw"@));
    assert(s[10] == ("use_query_cache"@, "0"@));
}

/// A replica is known exactly where a row names it. In a cluster, a row of the node that was asked says how
/// many there have to be, and does not count as a replica of its own.
pub proof fn law_named_replicas_are_known(
    rows: Seq<DiscoveryRow>,
    distributed: bool,
    node: Seq<char>,
)
    ensures
        discovered(rows, distributed) matches Ok(d) ==> {
            &&& d.nodes.contains(node) <==> exists|i: int|
                0 <= i < rows.len() && (#[trigger] rows[i]).node@ == node && (rows[i].coordinator != 1
                    || !distributed)
            &&& d.coordinator is Some <==> d.expected is Some
            &&& d.coordinator is Some <==> exists|i: int|
                0 <= i < rows.len() && (#[trigger] rows[i]).coordinator == 1
        },
    decreases rows.len(),
{
    if rows.len() > 0 {
        let rest = rows.drop_last();
        law_named_replicas_are_known(rest, distributed, node);
        assert(rows[rows.len() - 1] == rows.last());
        assert forall|i: int| 0 <= i < rest.len() implies rest[i] == #[trigger] rows[i] by {}
        if let (Ok(before), Ok(after)) = (discovered(rest, distributed), discovered(rows, distributed)) {
            if before.nodes.contains(node) {
                let i = choose|i: int|
                    0 <= i < rest.len() && (#[trigger] rest[i]).node@ == node && (rest[i].coordinator != 1
                        || !distributed);
                assert(rows[i].node@ == node);
                assert(after.nodes[before.nodes.index_of(node)] == node);
            }
            if after.nodes.contains(node) && !before.nodes.contains(node) {
                let p = after.nodes.index_of(node);
                if p < before.nodes.len() {
                    assert(before.nodes[p] == node);
                }
            }
            if rows.last().node@ == node && (rows.last().coordinator != 1 || !distributed) {
                if !before.nodes.contains(node) {
                    assert(after.nodes[after.nodes.len() - 1] == node);
                }
            }
            if exists|i: int|
                0 <= i < rows.len() && (#[trigger] rows[i]).node@ == node && (rows[i].coordinator != 1
                    || !distributed) {
                let i = choose|i: int|
                    0 <= i < rows.len() && (#[trigger] rows[i]).node@ == node && (rows[i].coordinator != 1
                        || !distributed);
                if i < rest.len() {
                    assert(rest[i].node@ == node);
                }
            }
            if exists|i: int| 0 <= i < rows.len() && (#[trigger] rows[i]).coordinator == 1 {
                let i = choose|i: int| 0 <= i < rows.len() && (#[trigger] rows[i]).coordinator == 1;
                if i < rest.len() {
                    assert(rest[i].coordinator == 1);
                }
            }
            if exists|i: int| 0 <= i < rest.len() && (#[trigger] rest[i]).coordinator == 1 {
                let i = choose|i: int| 0 <= i < rest.len() && (#[trigger] rest[i]).coordinator == 1;
                assert(rows[i].coordinator == 1);
            }
        }
    }
}

/// A read that is observed stays as it is but for its count of quiet observations, and is marked as soon
/// as it is overdue, for good.
pub proof fn law_overdue_reads_are_marked<P>(e: PendingRead<P>, quiet: bool, now: Duration)
    ensures
        observed_read(e, quiet, now) matches Some(after) ==> {
            &&& after.unconfirmed <==> e.unconfirmed || is_overdue(e.abandoned_at, now)
            &&& after.query_id == e.query_id
            &&& after.abandoned_at == e.abandoned_at
        },
{
}

/// Every name stands in its batch: the batches take the names in order.
pub proof fn law_every_name_stands_in_its_batch(
    batches: Seq<Vec<String>>,
    ids: Seq<String>,
    n: int,
    k: int,
)
    requires
        in_batches(batches, ids, n),
        n > 0,
        0 <= k < ids.len(),
    ensures
        0 <= k / n < batches.len(),
        k % n < batches[k / n]@.len(),
        batches[k / n]@[k % n]@ == ids[k]@,
{
    let b = k / n;
    let count = batches.len() as int;
    vstd::arithmetic::div_mod::lemma_fundamental_div_mod(k, n);
    vstd::arithmetic::div_mod::lemma_div_pos_is_pos(k, n);
    assert(0 <= k % n < n);
    assert(n * b == b * n) by (nonlinear_arith);
    if b >= count {
        assert(b * n >= count * n) by (nonlinear_arith)
            requires
                b >= count,
                n > 0,
        ;
    }
    assert(b * n + k % n == k);
    assert(batches[b]@.len() == if b < count - 1 {
        n
    } else {
        ids.len() - b * n
    });
    assert(batches[b]@[k % n]@ == ids[b * n + k % n]@);
}

/// Without a cluster, the node that is asked is the only one to reach.
pub proof fn law_single_node_expects_itself()
    ensures
        sql::reads_as(discovery_text(None), seq![
            "SELECT"@,
            "hostName() AS node,"@,
            "toUInt64(1) AS expected,"@,
            "toUInt8(1) AS coordinator"@,
            "FROM"@,
            "system.one"@,
        ]),
{
    let words = sql::first("SELECT"@);
    let words = sql::next(words, -1, "hostName() AS node,"@);
    let words = sql::next(words, -1, "toUInt64(1) AS expected,"@);
    let words = sql::next(words, -1, "toUInt8(1) AS coordinator"@);
    let words = sql::next(words, -1, "FROM"@);
    let words = sql::next(words, -1, "system.one"@);
    assert(sql::reads_as(discovery_text(None), words.1)) by {
        assert("SELECT hostName() AS node, toUInt64(1) AS expected, toUInt8(1) AS coordinator FROM system.one"@ == "SELECT"@ + sql::gap(-1) + "hostName() AS node,"@ + sql::gap(-1) + "toUInt64(1) AS expected,"@ + sql::gap(-1) + "toUInt8(1) AS coordinator"@ + sql::gap(-1) + "FROM"@ + sql::gap(-1) + "system.one"@) by {
            reveal_strlit("SELECT hostName() AS node, toUInt64(1) AS expected, toUInt8(1) AS coordinator FROM system.one");
            reveal_strlit("SELECT");
            reveal_strlit("hostName() AS node,");
            reveal_strlit("toUInt64(1) AS expected,");
            reveal_strlit("toUInt8(1) AS coordinator");
            reveal_strlit("FROM");
            reveal_strlit("system.one");
        }
        broadcast use sql::lemma_joined_first;

        sql::lemma_same_text(discovery_text(None), words);
    }
    assert(words.1 =~= seq![
        "SELECT"@,
        "hostName() AS node,"@,
        "toUInt64(1) AS expected,"@,
        "toUInt8(1) AS coordinator"@,
        "FROM"@,
        "system.one"@,
    ]);
}

/// In a cluster, every replica names itself, and the node that is asked says how many there have to be.
pub proof fn law_cluster_expects_all_its_replicas(name: Seq<char>)
    ensures
        sql::reads_as(discovery_text(Some(name)), seq![
            "SELECT"@,
            "hostName() AS node,"@,
            "toUInt64(0) AS expected,"@,
            "toUInt8(0) AS coordinator"@,
            "FROM"@,
            "clusterAllReplicas("@ + quoted_text(name) + ", system."@ + "one"@ + ")"@,
            "UNION ALL"@,
            "SELECT"@,
            "hostName() AS node,"@,
            "ifNull((SELECT count() FROM system.clusters WHERE cluster = "@ + quoted_text(name) + "), toUInt64(0)) AS expected,"@,
            "toUInt8(1) AS coordinator"@,
            "FROM"@,
            "system.one"@,
        ]),
{
    let words = sql::first("SELECT"@);
    let words = sql::next(words, -1, "hostName() AS node,"@);
    let words = sql::next(words, -1, "toUInt64(0) AS expected,"@);
    let words = sql::next(words, -1, "toUInt8(0) AS coordinator"@);
    let words = sql::next(words, -1, "FROM"@);
    let words = sql::next(words, -1, "clusterAllReplicas("@ + quoted_text(name) + ", system."@ + "one"@ + ")"@);
    let words = sql::next(words, -1, "UNION ALL"@);
    let words = sql::next(words, -1, "SELECT"@);
    let words = sql::next(words, -1, "hostName() AS node,"@);
    let words = sql::next(words, -1, "ifNull((SELECT count() FROM system.clusters WHERE cluster = "@ + quoted_text(name) + "), toUInt64(0)) AS expected,"@);
    let words = sql::next(words, -1, "toUInt8(1) AS coordinator"@);
    let words = sql::next(words, -1, "FROM"@);
    let words = sql::next(words, -1, "system.one"@);
    assert(sql::reads_as(discovery_text(Some(name)), words.1)) by {
        assert("SELECT hostName() AS node, toUInt64(0) AS expected, toUInt8(0) AS coordinator FROM "@ == "SELECT"@ + sql::gap(-1) + "hostName() AS node,"@ + sql::gap(-1) + "toUInt64(0) AS expected,"@ + sql::gap(-1) + "toUInt8(0) AS coordinator"@ + sql::gap(-1) + "FROM"@ + sql::gap(-1)) by {
            reveal_strlit("SELECT hostName() AS node, toUInt64(0) AS expected, toUInt8(0) AS coordinator FROM ");
            reveal_strlit("SELECT");
            reveal_strlit("hostName() AS node,");
            reveal_strlit("toUInt64(0) AS expected,");
            reveal_strlit("toUInt8(0) AS coordinator");
            reveal_strlit("FROM");
        }
        assert(" UNION ALL SELECT hostName() AS node, ifNull((SELECT count() FROM system.clusters WHERE cluster = "@ == sql::gap(-1) + "UNION ALL"@ + sql::gap(-1) + "SELECT"@ + sql::gap(-1) + "hostName() AS node,"@ + sql::gap(-1) + "ifNull((SELECT count() FROM system.clusters WHERE cluster = "@) by {
            reveal_strlit(" UNION ALL SELECT hostName() AS node, ifNull((SELECT count() FROM system.clusters WHERE cluster = ");
            reveal_strlit("UNION ALL");
            reveal_strlit("SELECT");
            reveal_strlit("hostName() AS node,");
            reveal_strlit("ifNull((SELECT count() FROM system.clusters WHERE cluster = ");
        }
        assert("), toUInt64(0)) AS expected, toUInt8(1) AS coordinator FROM system.one"@ == "), toUInt64(0)) AS expected,"@ + sql::gap(-1) + "toUInt8(1) AS coordinator"@ + sql::gap(-1) + "FROM"@ + sql::gap(-1) + "system.one"@) by {
            reveal_strlit("), toUInt64(0)) AS expected, toUInt8(1) AS coordinator FROM system.one");
            reveal_strlit("), toUInt64(0)) AS expected,");
            reveal_strlit("toUInt8(1) AS coordinator");
            reveal_strlit("FROM");
            reveal_strlit("system.one");
        }
        broadcast use sql::lemma_joined_first;

        sql::lemma_same_text(discovery_text(Some(name)), words);
    }
    assert(words.1 =~= seq![
        "SELECT"@,
        "hostName() AS node,"@,
        "toUInt64(0) AS expected,"@,
        "toUInt8(0) AS coordinator"@,
        "FROM"@,
        "clusterAllReplicas("@ + quoted_text(name) + ", system."@ + "one"@ + ")"@,
        "UNION ALL"@,
        "SELECT"@,
        "hostName() AS node,"@,
        "ifNull((SELECT count() FROM system.clusters WHERE cluster = "@ + quoted_text(name) + "), toUInt64(0)) AS expected,"@,
        "toUInt8(1) AS coordinator"@,
        "FROM"@,
        "system.one"@,
    ]);
}

/// A probe names every node that it reaches, and each of the reads that still runs there, whether it was sent
/// under that name or started by one that was.
pub proof fn law_probe_names_nodes_and_running_reads(
    cluster: Option<Seq<char>>,
    ids: Seq<Seq<char>>,
)
    ensures
        ({
            let list = text::join(Seq::new(ids.len(), |i: int| quoted_text(ids[i])), ", "@);
            let nodes = table_text(cluster, "one"@);
            let processes = table_text(cluster, "processes"@);
            sql::reads_as(probe_text(cluster, ids), seq![
            "SELECT"@,
            "hostName() AS node,"@,
            "'' AS active_id"@,
            "FROM"@,
            nodes,
            "UNION ALL"@,
            "SELECT"@,
            "hostName() AS node,"@,
            "if(query_id IN ("@ + list + "), query_id, initial_query_id) AS active_id"@,
            "FROM"@,
            processes,
            "WHERE"@,
            "query_id IN ("@ + list + ")"@,
            "OR"@,
            "initial_query_id IN ("@ + list + ")"@,
        ])
        }),
{
    let list = text::join(Seq::new(ids.len(), |i: int| quoted_text(ids[i])), ", "@);
    let nodes = table_text(cluster, "one"@);
    let processes = table_text(cluster, "processes"@);
    let words = sql::first("SELECT"@);
    let words = sql::next(words, -1, "hostName() AS node,"@);
    let words = sql::next(words, -1, "'' AS active_id"@);
    let words = sql::next(words, -1, "FROM"@);
    let words = sql::next(words, -1, nodes);
    let words = sql::next(words, -1, "UNION ALL"@);
    let words = sql::next(words, -1, "SELECT"@);
    let words = sql::next(words, -1, "hostName() AS node,"@);
    let words = sql::next(words, -1, "if(query_id IN ("@ + list + "), query_id, initial_query_id) AS active_id"@);
    let words = sql::next(words, -1, "FROM"@);
    let words = sql::next(words, -1, processes);
    let words = sql::next(words, -1, "WHERE"@);
    let words = sql::next(words, -1, "query_id IN ("@ + list + ")"@);
    let words = sql::next(words, -1, "OR"@);
    let words = sql::next(words, -1, "initial_query_id IN ("@ + list + ")"@);
    assert(sql::reads_as(probe_text(cluster, ids), words.1)) by {
        assert("SELECT hostName() AS node, '' AS active_id FROM "@ == "SELECT"@ + sql::gap(-1) + "hostName() AS node,"@ + sql::gap(-1) + "'' AS active_id"@ + sql::gap(-1) + "FROM"@ + sql::gap(-1)) by {
            reveal_strlit("SELECT hostName() AS node, '' AS active_id FROM ");
            reveal_strlit("SELECT");
            reveal_strlit("hostName() AS node,");
            reveal_strlit("'' AS active_id");
            reveal_strlit("FROM");
        }
        assert(" UNION ALL SELECT hostName() AS node, if(query_id IN ("@ == sql::gap(-1) + "UNION ALL"@ + sql::gap(-1) + "SELECT"@ + sql::gap(-1) + "hostName() AS node,"@ + sql::gap(-1) + "if(query_id IN ("@) by {
            reveal_strlit(" UNION ALL SELECT hostName() AS node, if(query_id IN (");
            reveal_strlit("UNION ALL");
            reveal_strlit("SELECT");
            reveal_strlit("hostName() AS node,");
            reveal_strlit("if(query_id IN (");
        }
        assert("), query_id, initial_query_id) AS active_id FROM "@ == "), query_id, initial_query_id) AS active_id"@ + sql::gap(-1) + "FROM"@ + sql::gap(-1)) by {
            reveal_strlit("), query_id, initial_query_id) AS active_id FROM ");
            reveal_strlit("), query_id, initial_query_id) AS active_id");
            reveal_strlit("FROM");
        }
        assert(" WHERE query_id IN ("@ == sql::gap(-1) + "WHERE"@ + sql::gap(-1) + "query_id IN ("@) by {
            reveal_strlit(" WHERE query_id IN (");
            reveal_strlit("WHERE");
            reveal_strlit("query_id IN (");
        }
        assert(") OR initial_query_id IN ("@ == ")"@ + sql::gap(-1) + "OR"@ + sql::gap(-1) + "initial_query_id IN ("@) by {
            reveal_strlit(") OR initial_query_id IN (");
            reveal_strlit(")");
            reveal_strlit("OR");
            reveal_strlit("initial_query_id IN (");
        }
        broadcast use sql::lemma_joined_first;

        sql::lemma_same_text(probe_text(cluster, ids), words);
    }
    assert(words.1 =~= seq![
        "SELECT"@,
        "hostName() AS node,"@,
        "'' AS active_id"@,
        "FROM"@,
        nodes,
        "UNION ALL"@,
        "SELECT"@,
        "hostName() AS node,"@,
        "if(query_id IN ("@ + list + "), query_id, initial_query_id) AS active_id"@,
        "FROM"@,
        processes,
        "WHERE"@,
        "query_id IN ("@ + list + ")"@,
        "OR"@,
        "initial_query_id IN ("@ + list + ")"@,
    ]);
}

} // verus!
