//! A monotonic nonce source: a counter seeded from wall-clock
//! milliseconds that advances by one on each issue, rebases to the
//! clock after long idle stretches, and never repeats a value.

use vstd::prelude::*;

verus! {

/// Once the stored counter runs this far ahead of the wall clock, a
/// caller may want to emit a diagnostic; behaviour never changes.
pub const NONCE_DRIFT_AHEAD_MS: u64 = 1000;

/// Once the stored counter lags the wall clock by more than this, the
/// next issued nonce is rebased to the clock instead of incrementing.
pub const NONCE_STALE_BEHIND_MS: u64 = 5000;

/// The nonce issued for a stored counter `current` at clock reading
/// `now_ms`: the clock value when the counter has gone stale, the
/// counter itself otherwise.
pub open spec fn nonce_target(current: u64, now_ms: u64) -> u64 {
    if current + NONCE_STALE_BEHIND_MS < now_ms {
        now_ms
    } else {
        current
    }
}

/// The counter value stored after issuing `target`: one more,
/// saturating at the top of the range.
pub open spec fn nonce_successor(target: u64) -> u64 {
    if target == u64::MAX {
        u64::MAX
    } else {
        (target + 1) as u64
    }
}

/// Whether the stored counter has run more than the drift allowance
/// ahead of the wall clock; diagnostic only.
pub open spec fn nonce_drifted_ahead(current: u64, now_ms: u64) -> bool {
    current > now_ms + NONCE_DRIFT_AHEAD_MS
}

/// One advance step of the nonce counter: the nonce to issue for the
/// stored value `current` at clock reading `now_ms`, paired with the
/// value to store in its place.
pub fn nonce_advance(current: u64, now_ms: u64) -> (r: (u64, u64))
    ensures
        r.0 == nonce_target(current, now_ms),
        r.1 == nonce_successor(r.0),
{
    let target: u64 = if current.saturating_add(NONCE_STALE_BEHIND_MS) < now_ms {
        now_ms
    } else {
        current
    };
    (target, target.saturating_add(1))
}

/// Whether the stored counter has run more than the drift allowance
/// ahead of the wall clock.
pub fn nonce_drift_exceeded(current: u64, now_ms: u64) -> (b: bool)
    ensures
        b == nonce_drifted_ahead(current, now_ms),
{
    current > now_ms.saturating_add(NONCE_DRIFT_AHEAD_MS)
}

/// Relies on chrono's `Utc::now` together with
/// `DateTime::timestamp_millis`: the wall clock, read as whole
/// milliseconds since the Unix epoch. Nothing is promised of the
/// value: the clock may jump in either direction between reads.
#[verifier::external_body]
fn now_timestamp_ms() -> u64 {
    chrono::Utc::now().timestamp_millis() as u64
}

/// A handle on the nonce counter. Exclusive access (`&mut`) makes the
/// advance step atomic from the caller's point of view; callers that
/// share one source across threads must serialize access to it.
pub struct NonceSource {
    last: u64,
}

impl View for NonceSource {
    type V = u64;

    /// The counter value the next issue starts from.
    closed spec fn view(&self) -> u64 {
        self.last
    }
}

impl NonceSource {
    /// A source whose next nonce continues from `seed`; injecting a
    /// known seed makes the issued sequence deterministic.
    pub fn new(seed: u64) -> (s: Self)
        ensures
            s@ == seed,
    {
        NonceSource { last: seed }
    }

    /// A source seeded from the wall clock, as a process does at
    /// start-up.
    pub fn now_seeded() -> Self {
        NonceSource { last: now_timestamp_ms() }
    }

    /// The stored counter value, for drift diagnostics.
    pub fn last_stored(&self) -> (v: u64)
        ensures
            v == self@,
    {
        self.last
    }

    /// Issue the nonce for clock reading `now_ms` and store its
    /// successor.
    pub fn next_nonce_at(&mut self, now_ms: u64) -> (nonce: u64)
        ensures
            nonce == nonce_target(old(self)@, now_ms),
            final(self)@ == nonce_successor(nonce),
            nonce >= old(self)@,
            nonce < u64::MAX ==> final(self)@ == nonce + 1,
    {
        let (target, next) = nonce_advance(self.last, now_ms);
        self.last = next;
        target
    }

    /// Issue a nonce for the wall clock as it reads now. Whatever the
    /// clock returned, the issued value never falls below the stored
    /// counter, and the counter moves past it.
    pub fn next_nonce(&mut self) -> (nonce: u64)
        ensures
            nonce >= old(self)@,
            final(self)@ == nonce_successor(nonce),
            nonce < u64::MAX ==> final(self)@ == nonce + 1,
            exists|now_ms: u64| nonce == nonce_target(old(self)@, now_ms),
    {
        let now_ms = now_timestamp_ms();
        self.next_nonce_at(now_ms)
    }
}

/// The counter stored after a source seeded with `seed` has issued
/// one nonce for each clock reading in `nows`, in order.
pub open spec fn nonce_run_state(seed: u64, nows: Seq<u64>) -> u64
    decreases nows.len(),
{
    if nows.len() == 0 {
        seed
    } else {
        nonce_successor(nonce_target(nonce_run_state(seed, nows.drop_last()), nows.last()))
    }
}

/// The nonces issued by a source seeded with `seed` for the clock
/// readings in `nows`, in issue order.
pub open spec fn nonce_run_results(seed: u64, nows: Seq<u64>) -> Seq<u64>
    decreases nows.len(),
{
    if nows.len() == 0 {
        Seq::empty()
    } else {
        nonce_run_results(seed, nows.drop_last()).push(
            nonce_target(nonce_run_state(seed, nows.drop_last()), nows.last()),
        )
    }
}

proof fn lemma_nonce_run_len(seed: u64, nows: Seq<u64>)
    ensures
        nonce_run_results(seed, nows).len() == nows.len(),
    decreases nows.len(),
{
    if nows.len() > 0 {
        lemma_nonce_run_len(seed, nows.drop_last());
    }
}

/// Law: over any run of issues — whatever the clock read each time —
/// the issued nonces are strictly increasing in issue order, so no
/// two issues ever return the same value; each stays below the
/// counter stored after it. The one proviso is that no issue reaches
/// the saturation point at the top of the `u64` range.
pub proof fn lemma_nonce_run_strictly_increasing(seed: u64, nows: Seq<u64>)
    requires
        forall|k: int|
            0 <= k < nows.len() ==> #[trigger] nonce_run_results(seed, nows)[k] < u64::MAX,
    ensures
        nonce_run_results(seed, nows).len() == nows.len(),
        forall|k: int|
            0 <= k < nows.len() ==> #[trigger] nonce_run_results(seed, nows)[k] < nonce_run_state(
                seed,
                nows,
            ),
        forall|i: int, j: int|
            0 <= i < j < nows.len() ==> nonce_run_results(seed, nows)[i] < nonce_run_results(
                seed,
                nows,
            )[j],
        forall|i: int, j: int|
            0 <= i < nows.len() && 0 <= j < nows.len() && i != j ==> nonce_run_results(
                seed,
                nows,
            )[i] != nonce_run_results(seed, nows)[j],
    decreases nows.len(),
{
    if nows.len() > 0 {
        let prefix = nows.drop_last();
        let pre_results = nonce_run_results(seed, prefix);
        let pre_state = nonce_run_state(seed, prefix);
        let results = nonce_run_results(seed, nows);
        let issued = nonce_target(pre_state, nows.last());
        lemma_nonce_run_len(seed, prefix);
        assert(results == pre_results.push(issued));
        assert(forall|k: int| 0 <= k < prefix.len() ==> results[k] == pre_results[k]);
        lemma_nonce_run_strictly_increasing(seed, prefix);
        assert(results[nows.len() - 1] == issued);
        assert(issued >= pre_state);
        assert(issued < u64::MAX);
        assert(nonce_run_state(seed, nows) == nonce_successor(issued));
        assert(nonce_successor(issued) == issued + 1);
    }
}

/// Law: in a burst — when the clock has not fallen more than the
/// staleness allowance behind the counter stored after an issue —
/// the next issued nonce is exactly one more than the last.
pub proof fn lemma_nonce_burst(current: u64, now1: u64, now2: u64)
    requires
        nonce_target(current, now1) < u64::MAX,
        now2 <= nonce_successor(nonce_target(current, now1)) + NONCE_STALE_BEHIND_MS,
    ensures
        nonce_target(nonce_successor(nonce_target(current, now1)), now2) == nonce_target(
            current,
            now1,
        ) + 1,
{
}

/// Law: after an idle stretch — when the clock has moved more than
/// the staleness allowance past the stored counter — the next issued
/// nonce is the clock reading itself, not the counter.
pub proof fn lemma_nonce_rebase(current: u64, now_ms: u64)
    requires
        current + NONCE_STALE_BEHIND_MS < now_ms,
    ensures
        nonce_target(current, now_ms) == now_ms,
{
}

} // verus!
