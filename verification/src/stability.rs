//! Text stability gate: wait until OCR content stops changing.

use crate::clock::{elapsed_millis, has_lasted, lasted, millis_between, Clock};
use crate::config::OcrConfig;
use crate::fingerprint::OcrFingerprint;
use vstd::prelude::*;

verus! {

/// What an observation leads to.
#[derive(Clone, Copy, Debug, PartialEq, Eq, Structural)]
pub enum StabilityOutcome {
    Changed,
    Waiting { elapsed_ms: u64 },
    Ready { fingerprint: OcrFingerprint, elapsed_ms: u64 },
    AlreadyEmitted { fingerprint: OcrFingerprint },
}

/// Waits until OCR content is stable enough to translate.
///
/// - **Cold start**: when nothing has been emitted yet, Ready requires holding the fingerprint
///   for the stable duration.
/// - **Hits or time** (after an emit): Ready when the same fingerprint is seen `min_hits` times
///   in a row, or held for the stable duration. A stable duration of zero disables the duration
///   requirement.
/// - **Sticky switch**: a new fingerprint must appear `switch_hits` times in a row before it
///   replaces the active one.
/// - **Max unstable**: if content keeps changing and never settles, force Ready with the latest
///   observation after `max_unstable_ms`, counted from the first observation that differed.
#[derive(Debug)]
pub struct StabilityGate {
    pub stable_duration_ms: u64,
    /// Force-translate after this long without a settled emit. Zero = disabled.
    pub max_unstable_ms: u64,
    /// Consecutive identical observations required (or the duration).
    pub min_hits: u32,
    /// Consecutive observations of a new fingerprint required before abandoning the active one.
    pub switch_hits: u32,
    pub active: Option<OcrFingerprint>,
    pub active_since: Option<u128>,
    pub active_hits: u32,
    pub pending: Option<OcrFingerprint>,
    pub pending_hits: u32,
    pub last_emitted: Option<OcrFingerprint>,
    /// Start of the current unsettled wait (survives fingerprint switches).
    pub unstable_since: Option<u128>,
    pub clock: Clock,
}

/// `n + 1`, held at the largest count.
pub open spec fn one_more(n: u32) -> u32 {
    if n == u32::MAX {
        n
    } else {
        (n + 1) as u32
    }
}

impl StabilityGate {
    /// The unsettled wait is over its limit.
    pub open spec fn overdue(self, now: u128) -> bool {
        self.max_unstable_ms > 0 && (self.unstable_since matches Some(t) && lasted(
            now,
            t,
            self.max_unstable_ms,
        ))
    }

    /// The unsettled wait runs, from `now` if it did not run yet.
    pub open spec fn marked(self, now: u128) -> StabilityGate {
        StabilityGate {
            unstable_since: Some(
                match self.unstable_since {
                    Some(t) => t,
                    None => now,
                },
            ),
            ..self
        }
    }

    /// `fp` is the active fingerprint, seen once, from `now` on.
    pub open spec fn committed(self, fp: OcrFingerprint, now: u128) -> StabilityGate {
        StabilityGate {
            active: Some(fp),
            active_since: Some(now),
            active_hits: 1,
            pending: None,
            pending_hits: 0,
            ..self
        }
    }

    /// `fp` has been handed out; nothing is unsettled.
    pub open spec fn emitted(self, fp: OcrFingerprint) -> StabilityGate {
        StabilityGate { last_emitted: Some(fp), unstable_since: None, ..self }
    }

    /// Nothing is unsettled.
    pub open spec fn calmed(self) -> StabilityGate {
        StabilityGate { unstable_since: None, ..self }
    }

    /// Milliseconds of the current wait.
    pub open spec fn waited_ms(self, now: u128) -> u64 {
        match (self.unstable_since, self.active_since) {
            (Some(t), _) => elapsed_millis(now, t),
            (None, Some(t)) => elapsed_millis(now, t),
            (None, None) => 0,
        }
    }

    /// The active fingerprint, held since `since`, is stable.
    pub open spec fn settled(self, now: u128, since: u128) -> bool {
        let held = self.stable_duration_ms > 0 && lasted(now, since, self.stable_duration_ms);
        if self.last_emitted is None && self.stable_duration_ms > 0 {
            held
        } else {
            self.active_hits >= self.min_hits || held
        }
    }

    /// Handing out `fp` now.
    pub open spec fn ready(self, fp: OcrFingerprint, now: u128) -> (StabilityGate, StabilityOutcome) {
        (
            self.emitted(fp),
            StabilityOutcome::Ready { fingerprint: fp, elapsed_ms: self.waited_ms(now) },
        )
    }

    /// What the active fingerprint leads to when `latest` was read.
    pub open spec fn held(self, now: u128, latest: OcrFingerprint) -> (
        StabilityGate,
        StabilityOutcome,
    ) {
        match self.active {
            None => (self, StabilityOutcome::Changed),
            Some(active) => {
                let since = match self.active_since {
                    Some(t) => t,
                    None => now,
                };
                if self.last_emitted == Some(active) {
                    let kept = StabilityOutcome::AlreadyEmitted { fingerprint: active };
                    if latest != active {
                        if self.marked(now).overdue(now) {
                            self.marked(now).committed(latest, now).ready(latest, now)
                        } else {
                            (self.marked(now), kept)
                        }
                    } else if self.overdue(now) {
                        (self.calmed(), kept)
                    } else {
                        (self, kept)
                    }
                } else if self.overdue(now) {
                    if self.last_emitted == Some(latest) {
                        (
                            self.calmed(),
                            StabilityOutcome::AlreadyEmitted { fingerprint: latest },
                        )
                    } else if latest != active {
                        self.committed(latest, now).ready(latest, now)
                    } else {
                        self.ready(active, now)
                    }
                } else if self.settled(now, since) {
                    self.ready(active, now)
                } else if self.active_hits <= 1 {
                    (self, StabilityOutcome::Changed)
                } else {
                    (self, StabilityOutcome::Waiting { elapsed_ms: self.waited_ms(now) })
                }
            },
        }
    }

    /// One more sight of the active fingerprint.
    pub open spec fn seen_again(self, now: u128) -> StabilityGate {
        StabilityGate {
            pending: None,
            pending_hits: 0,
            active_hits: one_more(self.active_hits),
            active_since: Some(
                match self.active_since {
                    Some(t) => t,
                    None => now,
                },
            ),
            ..self
        }
    }

    /// One more sight of a fingerprint that may replace the active one.
    pub open spec fn challenged(self, fp: OcrFingerprint) -> StabilityGate {
        StabilityGate {
            pending: Some(fp),
            pending_hits: if self.pending == Some(fp) {
                one_more(self.pending_hits)
            } else {
                1
            },
            ..self
        }
    }

    /// The stability gate and the outcome after `fp` was read at `now`.
    pub open spec fn observed(self, fp: OcrFingerprint, now: u128) -> (
        StabilityGate,
        StabilityOutcome,
    ) {
        if self.active == Some(fp) {
            let again = self.seen_again(now);
            if self.last_emitted == Some(fp) {
                (
                    if again.overdue(now) {
                        again.calmed()
                    } else {
                        again
                    },
                    StabilityOutcome::AlreadyEmitted { fingerprint: fp },
                )
            } else {
                let waiting = again.marked(now);
                if waiting.settled(now, again.active_since->0) || waiting.overdue(now) {
                    waiting.ready(fp, now)
                } else {
                    (waiting, StabilityOutcome::Waiting { elapsed_ms: waiting.waited_ms(now) })
                }
            }
        } else if self.active is None {
            self.committed(fp, now).marked(now).held(now, fp)
        } else {
            let diverged = self.marked(now);
            if diverged.overdue(now) && self.last_emitted != Some(fp) {
                diverged.committed(fp, now).ready(fp, now)
            } else {
                let challenged = diverged.challenged(fp);
                if challenged.pending_hits >= challenged.switch_hits {
                    challenged.committed(fp, now).held(now, fp)
                } else {
                    challenged.held(now, fp)
                }
            }
        }
    }

    /// A gate that has seen nothing.
    pub open spec fn cold(self) -> bool {
        &&& self.active is None
        &&& self.active_since is None
        &&& self.active_hits == 0
        &&& self.pending is None
        &&& self.pending_hits == 0
        &&& self.last_emitted is None
        &&& self.unstable_since is None
    }

    /// Gate with the default limit for unsettled content.
    pub fn new(stable_duration_ms: u64) -> (r: StabilityGate)
        ensures
            r.cold(),
            r.stable_duration_ms == stable_duration_ms,
            r.max_unstable_ms == 2_000,
            r.min_hits == 1,
            r.switch_hits == 2,
    {
        StabilityGate::with_max_unstable(stable_duration_ms, 2_000)
    }

    /// Gate with a chosen limit for unsettled content.
    pub fn with_max_unstable(stable_duration_ms: u64, max_unstable_ms: u64) -> (r: StabilityGate)
        ensures
            r.cold(),
            r.stable_duration_ms == stable_duration_ms,
            r.max_unstable_ms == max_unstable_ms,
            r.min_hits == 1,
            r.switch_hits == 2,
    {
        StabilityGate {
            stable_duration_ms,
            max_unstable_ms,
            // Block persistence and the sticky switch already filter flicker; asking for more
            // readings would leave static pages waiting when OCR is slow.
            min_hits: 1,
            // Ignore one-off fingerprint blips from detector noise.
            switch_hits: 2,
            active: None,
            active_since: None,
            active_hits: 0,
            pending: None,
            pending_hits: 0,
            last_emitted: None,
            unstable_since: None,
            clock: Clock::start(),
        }
    }

    /// Gate with the durations of `config`.
    pub fn from_config(config: &OcrConfig) -> (r: StabilityGate)
        ensures
            r.cold(),
            r.stable_duration_ms == config.stable_duration_ms,
            r.max_unstable_ms == config.max_unstable_ms,
            r.min_hits == 1,
            r.switch_hits == 2,
    {
        StabilityGate::with_max_unstable(config.stable_duration_ms, config.max_unstable_ms)
    }

    /// The stability gate as if it had seen nothing.
    pub open spec fn cleared(self) -> StabilityGate {
        StabilityGate {
            active: None,
            active_since: None,
            active_hits: 0,
            pending: None,
            pending_hits: 0,
            last_emitted: None,
            unstable_since: None,
            ..self
        }
    }

    /// The stability gate with the durations of `config`, as if it had seen nothing.
    pub open spec fn reconfigured(self, config: OcrConfig) -> StabilityGate {
        StabilityGate {
            stable_duration_ms: config.stable_duration_ms,
            max_unstable_ms: config.max_unstable_ms,
            min_hits: 1,
            switch_hits: 2,
            ..self.cleared()
        }
    }

    /// Take the durations of `config` and start over.
    pub fn reconfigure(&mut self, config: &OcrConfig)
        ensures
            *final(self) == old(self).reconfigured(*config),
    {
        self.reset_all();
        self.stable_duration_ms = config.stable_duration_ms;
        self.max_unstable_ms = config.max_unstable_ms;
        self.min_hits = 1;
        self.switch_hits = 2;
    }

    /// Full reset including emitted history (e.g. new target window).
    pub fn reset_all(&mut self)
        ensures
            *final(self) == old(self).cleared(),
            final(self).cold(),
    {
        self.active = None;
        self.active_since = None;
        self.active_hits = 0;
        self.pending = None;
        self.pending_hits = 0;
        self.unstable_since = None;
        self.last_emitted = None;
    }

    /// Feed a new fingerprint from the latest OCR (after block filters), at the current time.
    ///
    /// The stability gate and the outcome are those of [`Self::observe_at`] for the time that the
    /// clock gave.
    pub fn observe(&mut self, fp: OcrFingerprint) -> (r: StabilityOutcome)
        ensures
            exists|now: u128| (*final(self), r) == #[trigger] old(self).observed(fp, now),
    {
        let now: u128 = self.clock.now();
        self.observe_at(fp, now)
    }

    /// Feed a new fingerprint that was read at `now`.
    pub fn observe_at(&mut self, fp: OcrFingerprint, now: u128) -> (r: StabilityOutcome)
        ensures
            (*final(self), r) == old(self).observed(fp, now),
    {
        if holds(self.active, fp) {
            // Same as the active candidate: accumulate stability.
            self.pending = None;
            self.pending_hits = 0;
            if self.active_hits < u32::MAX {
                self.active_hits = self.active_hits + 1;
            }
            let since: u128 = match self.active_since {
                Some(t) => t,
                None => now,
            };
            self.active_since = Some(since);

            if holds(self.last_emitted, fp) {
                // The wait is not cleared on every frame: alternating content would otherwise
                // restart it on every return to the emitted page.
                if self.force_due(now) {
                    self.unstable_since = None;
                }
                return StabilityOutcome::AlreadyEmitted { fingerprint: fp };
            }
            self.mark_unstable(now);
            if self.is_stable(now, since) || self.force_due(now) {
                return self.emit_ready(fp, now);
            }
            return StabilityOutcome::Waiting { elapsed_ms: self.wait_elapsed_ms(now) };
        }
        if self.active.is_none() {
            self.commit_active(fp, now);
            self.mark_unstable(now);
            return self.outcome_for_active(now, fp);
        }
        // Diverged from active: keep the wait across sticky blips.

        self.mark_unstable(now);

        // Long thrash: force the latest reading (even without enough switch hits).
        if self.force_due(now) && !holds(self.last_emitted, fp) {
            self.commit_active(fp, now);
            return self.emit_ready(fp, now);
        }
        if holds(self.pending, fp) {
            if self.pending_hits < u32::MAX {
                self.pending_hits = self.pending_hits + 1;
            }
        } else {
            self.pending = Some(fp);
            self.pending_hits = 1;
        }

        if self.pending_hits >= self.switch_hits {
            self.commit_active(fp, now);
            return self.outcome_for_active(now, fp);
        }
        // Still holding the previous active while the blip is unconfirmed.

        self.outcome_for_active(now, fp)
    }

    fn mark_unstable(&mut self, now: u128)
        ensures
            *final(self) == old(self).marked(now),
    {
        if self.unstable_since.is_none() {
            self.unstable_since = Some(now);
        }
    }

    fn force_due(&self, now: u128) -> (r: bool)
        ensures
            r == self.overdue(now),
    {
        if self.max_unstable_ms == 0 {
            return false;
        }
        match self.unstable_since {
            Some(t) => has_lasted(now, t, self.max_unstable_ms),
            None => false,
        }
    }

    fn wait_elapsed_ms(&self, now: u128) -> (r: u64)
        ensures
            r == self.waited_ms(now),
    {
        match self.unstable_since {
            Some(t) => millis_between(now, t),
            None => match self.active_since {
                Some(t) => millis_between(now, t),
                None => 0,
            },
        }
    }

    fn emit_ready(&mut self, fp: OcrFingerprint, now: u128) -> (r: StabilityOutcome)
        ensures
            (*final(self), r) == old(self).ready(fp, now),
    {
        let elapsed_ms: u64 = self.wait_elapsed_ms(now);
        self.last_emitted = Some(fp);
        self.unstable_since = None;
        StabilityOutcome::Ready { fingerprint: fp, elapsed_ms }
    }

    fn is_stable(&self, now: u128, since: u128) -> (r: bool)
        ensures
            r == self.settled(now, since),
    {
        let duration_ok: bool = self.stable_duration_ms > 0 && has_lasted(
            now,
            since,
            self.stable_duration_ms,
        );
        // Cold start: honor the stable wait; do not hand out on the first hit.
        if self.last_emitted.is_none() && self.stable_duration_ms > 0 {
            return duration_ok;
        }
        self.active_hits >= self.min_hits || duration_ok
    }

    fn commit_active(&mut self, fp: OcrFingerprint, now: u128)
        ensures
            *final(self) == old(self).committed(fp, now),
    {
        self.active = Some(fp);
        self.active_since = Some(now);
        self.active_hits = 1;
        self.pending = None;
        self.pending_hits = 0;
    }

    fn outcome_for_active(&mut self, now: u128, latest: OcrFingerprint) -> (r: StabilityOutcome)
        ensures
            (*final(self), r) == old(self).held(now, latest),
    {
        let active: OcrFingerprint = match self.active {
            Some(a) => a,
            None => {
                return StabilityOutcome::Changed;
            },
        };
        let since: u128 = match self.active_since {
            Some(t) => t,
            None => now,
        };
        if holds(self.last_emitted, active) {
            // Sticky hold of a previously emitted page.
            if latest != active {
                self.mark_unstable(now);
                if self.force_due(now) {
                    self.commit_active(latest, now);
                    return self.emit_ready(latest, now);
                }
            } else if self.force_due(now) {
                // The thrash window elapsed while back on emitted content.
                self.unstable_since = None;
            }
            return StabilityOutcome::AlreadyEmitted { fingerprint: active };
        }
        // Prefer the latest observation when the limit is reached mid-switch.

        if self.force_due(now) {
            if holds(self.last_emitted, latest) {
                self.unstable_since = None;
                return StabilityOutcome::AlreadyEmitted { fingerprint: latest };
            }
            if latest != active {
                self.commit_active(latest, now);
            }
            return self.emit_ready(latest, now);
        }
        if self.is_stable(now, since) {
            return self.emit_ready(active, now);
        }
        if self.active_hits <= 1 {
            StabilityOutcome::Changed
        } else {
            StabilityOutcome::Waiting { elapsed_ms: self.wait_elapsed_ms(now) }
        }
    }

    /// The stability gate after `fp` was handed out by hand at `now`.
    pub open spec fn forced(self, fp: OcrFingerprint, now: u128) -> StabilityGate {
        self.committed(fp, now).emitted(fp)
    }

    /// Force-emit the current fingerprint (manual translate), bypassing the wait.
    pub fn force_emit(&mut self, fp: OcrFingerprint) -> (r: StabilityOutcome)
        ensures
            r == (StabilityOutcome::Ready { fingerprint: fp, elapsed_ms: 0 }),
            exists|now: u128| *final(self) == #[trigger] old(self).forced(fp, now),
    {
        let now: u128 = self.clock.now();
        self.force_emit_at(fp, now)
    }

    /// Force-emit a fingerprint that was read at `now`.
    pub fn force_emit_at(&mut self, fp: OcrFingerprint, now: u128) -> (r: StabilityOutcome)
        ensures
            r == (StabilityOutcome::Ready { fingerprint: fp, elapsed_ms: 0 }),
            *final(self) == old(self).forced(fp, now),
    {
        self.commit_active(fp, now);
        self.unstable_since = None;
        self.last_emitted = Some(fp);
        StabilityOutcome::Ready { fingerprint: fp, elapsed_ms: 0 }
    }
}

fn holds(slot: Option<OcrFingerprint>, fp: OcrFingerprint) -> (r: bool)
    ensures
        r == (slot == Some(fp)),
{
    match slot {
        Some(x) => x == fp,
        None => false,
    }
}

/// A page that is handed out is remembered, ends the unsettled wait, and is never the page that
/// was handed out last.
pub proof fn law_ready_is_new_and_remembered(gate: StabilityGate, fp: OcrFingerprint, now: u128)
    ensures
        gate.observed(fp, now).1 matches StabilityOutcome::Ready { fingerprint, .. } ==> {
            &&& gate.last_emitted != Some(fingerprint)
            &&& gate.observed(fp, now).0.last_emitted == Some(fingerprint)
            &&& gate.observed(fp, now).0.unstable_since is None
            &&& gate.observed(fp, now).0.active == Some(fingerprint)
        },
        gate.observed(fp, now).1 !is Ready ==> gate.observed(fp, now).0.last_emitted
            == gate.last_emitted,
        gate.observed(fp, now).1 matches StabilityOutcome::AlreadyEmitted { fingerprint }
            ==> gate.last_emitted == Some(fingerprint),
{
}

/// Before the first emit, a page becomes ready only after it was held for the stable duration,
/// unless the limit for unsettled content is reached.
pub proof fn law_cold_start_waits(gate: StabilityGate, fp: OcrFingerprint, now: u128)
    requires
        gate.last_emitted is None,
        gate.stable_duration_ms > 0,
        !gate.marked(now).overdue(now),
        gate.active is Some ==> gate.active_since is Some,
    ensures
        gate.observed(fp, now).1 is Ready ==> gate.active is Some && lasted(
            now,
            gate.active_since->0,
            gate.stable_duration_ms,
        ),
{
}

/// One differing reading of an emitted page changes nothing that is shown: the emitted page
/// stays active.
pub proof fn law_single_blip_keeps_active(
    gate: StabilityGate,
    shown: OcrFingerprint,
    blip: OcrFingerprint,
    now: u128,
)
    requires
        gate.active == Some(shown),
        gate.last_emitted == Some(shown),
        blip != shown,
        gate.pending != Some(blip),
        gate.switch_hits >= 2,
        !gate.marked(now).overdue(now),
    ensures
        gate.observed(blip, now).1 == (StabilityOutcome::AlreadyEmitted { fingerprint: shown }),
        gate.observed(blip, now).0.active == Some(shown),
        gate.observed(blip, now).0.last_emitted == Some(shown),
{
}

/// After an emit, enough readings of another page in a row hand that page out.
pub proof fn law_sustained_change_is_ready(
    gate: StabilityGate,
    next: OcrFingerprint,
    now: u128,
)
    requires
        gate.active is Some,
        gate.active != Some(next),
        gate.last_emitted is Some,
        gate.last_emitted != Some(next),
        gate.min_hits <= 1,
        gate.pending == Some(next),
        one_more(gate.pending_hits) >= gate.switch_hits,
    ensures
        gate.observed(next, now).1 matches StabilityOutcome::Ready { fingerprint, .. }
            && fingerprint == next,
{
}

/// Content that has not settled within the limit is handed out as it was last read.
pub proof fn law_overdue_content_is_forced(gate: StabilityGate, latest: OcrFingerprint, now: u128)
    requires
        gate.overdue(now),
        gate.active is Some,
        gate.last_emitted != Some(latest),
    ensures
        gate.observed(latest, now).1 matches StabilityOutcome::Ready { fingerprint, .. }
            && fingerprint == latest,
{
}

/// Returning to the emitted page before the limit does not restart the wait: alternating content
/// is still forced in time.
pub proof fn law_thrash_keeps_the_wait(gate: StabilityGate, shown: OcrFingerprint, now: u128)
    requires
        gate.active == Some(shown),
        gate.last_emitted == Some(shown),
        !gate.overdue(now),
    ensures
        gate.observed(shown, now).0.unstable_since == gate.unstable_since,
{
}

/// A page handed out by hand counts as emitted: reading it again hands out nothing.
pub proof fn law_forced_page_is_emitted(
    gate: StabilityGate,
    fp: OcrFingerprint,
    then_at: u128,
    now: u128,
)
    ensures
        gate.forced(fp, then_at).observed(fp, now).1 == (StabilityOutcome::AlreadyEmitted {
            fingerprint: fp,
        }),
{
}

/// Content that has been changing for the limit is handed out as it was last read, whatever was
/// handed out before; the wait that it took is reported, and ends.
pub proof fn law_changing_content_is_forced(
    gate: StabilityGate,
    since: u128,
    latest: OcrFingerprint,
    now: u128,
)
    requires
        gate.max_unstable_ms > 0,
        gate.unstable_since == Some(since),
        now >= since + gate.max_unstable_ms * 1_000_000,
        gate.active is Some,
        gate.last_emitted != Some(latest),
    ensures
        gate.observed(latest, now).1 == (StabilityOutcome::Ready {
            fingerprint: latest,
            elapsed_ms: ((now - since) as u128 / 1_000_000) as u64,
        }),
        gate.observed(latest, now).0.active == Some(latest),
        gate.observed(latest, now).0.last_emitted == Some(latest),
        gate.observed(latest, now).0.unstable_since is None,
{
}

/// The wait for settled content begins with the first reading that is not the page handed out
/// last, and no later reading moves its beginning until a page is handed out.
pub proof fn law_wait_begins_with_the_first_difference(
    gate: StabilityGate,
    fp: OcrFingerprint,
    now: u128,
)
    requires
        gate.last_emitted != Some(fp),
        gate.observed(fp, now).1 !is Ready,
    ensures
        gate.unstable_since is None ==> gate.observed(fp, now).0.unstable_since == Some(now),
        gate.unstable_since is Some ==> gate.observed(fp, now).0.unstable_since
            == gate.unstable_since,
{
}

/// A reading of the page handed out last does not move the beginning of a wait that is within
/// its limit.
pub proof fn law_return_keeps_the_wait(
    gate: StabilityGate,
    since: u128,
    fp: OcrFingerprint,
    now: u128,
)
    requires
        gate.last_emitted == Some(fp),
        gate.unstable_since == Some(since),
        gate.max_unstable_ms == 0 || now < since + gate.max_unstable_ms * 1_000_000,
    ensures
        gate.observed(fp, now).0.unstable_since == Some(since) || gate.observed(
            fp,
            now,
        ).1 is Ready,
{
}

/// The stability gate after readings of fingerprints at times, in order.
pub open spec fn after_readings(
    gate: StabilityGate,
    readings: Seq<(OcrFingerprint, u128)>,
) -> StabilityGate
    decreases readings.len(),
{
    if readings.len() == 0 {
        gate
    } else {
        after_readings(gate, readings.drop_last()).observed(
            readings.last().0,
            readings.last().1,
        ).0
    }
}

/// One of the readings handed a page out.
pub open spec fn some_ready(gate: StabilityGate, readings: Seq<(OcrFingerprint, u128)>) -> bool {
    exists|k: int|
        0 <= k < readings.len() && after_readings(gate, #[trigger] readings.take(k)).observed(
            readings[k].0,
            readings[k].1,
        ).1 is Ready
}

proof fn lemma_wait_is_kept(gate: StabilityGate, readings: Seq<(OcrFingerprint, u128)>)
    requires
        gate.active is Some,
        gate.unstable_since is None,
        readings.len() > 0,
        gate.last_emitted != Some(readings[0].0),
        gate.max_unstable_ms > 0,
        forall|k: int|
            0 <= k < readings.len() ==> (#[trigger] readings[k]).1 < readings[0].1
                + gate.max_unstable_ms * 1_000_000,
        !some_ready(gate, readings),
    ensures
        ({
            let after = after_readings(gate, readings);
            &&& after.unstable_since == Some(readings[0].1)
            &&& after.active is Some
            &&& after.last_emitted == gate.last_emitted
            &&& after.max_unstable_ms == gate.max_unstable_ms
        }),
    decreases readings.len(),
{
    let before = readings.drop_last();
    let n = readings.len() - 1;
    assert(readings.take(n) =~= before);
    assert(!(after_readings(gate, readings.take(n)).observed(
        readings[n].0,
        readings[n].1,
    ).1 is Ready));
    if n == 0 {
        assert(before.len() == 0);
    } else {
        assert(!some_ready(gate, before)) by {
            assert forall|k: int| 0 <= k < before.len() implies !(after_readings(
                gate,
                #[trigger] before.take(k),
            ).observed(before[k].0, before[k].1).1 is Ready) by {
                assert(before.take(k) =~= readings.take(k));
                assert(before[k] == readings[k]);
            }
        }
        assert forall|k: int| 0 <= k < before.len() implies (#[trigger] before[k]).1 < before[0].1
            + gate.max_unstable_ms * 1_000_000 by {
            assert(before[k] == readings[k]);
        }
        lemma_wait_is_kept(gate, before);
    }
}

/// A page that keeps changing is handed out in time: however often the reading changes, and
/// however often it returns to the page handed out last, either a page is handed out within the
/// limit after the first difference, or the first new reading behind the limit is.
pub proof fn law_page_that_never_settles_is_handed_out(
    gate: StabilityGate,
    readings: Seq<(OcrFingerprint, u128)>,
    latest: OcrFingerprint,
    now: u128,
)
    requires
        gate.active is Some,
        gate.unstable_since is None,
        gate.max_unstable_ms > 0,
        readings.len() > 0,
        gate.last_emitted != Some(readings[0].0),
        forall|k: int|
            0 <= k < readings.len() ==> (#[trigger] readings[k]).1 < readings[0].1
                + gate.max_unstable_ms * 1_000_000,
        now >= readings[0].1 + gate.max_unstable_ms * 1_000_000,
        gate.last_emitted != Some(latest),
    ensures
        some_ready(gate, readings) || (after_readings(gate, readings).observed(
            latest,
            now,
        ).1 matches StabilityOutcome::Ready { fingerprint, .. } && fingerprint == latest),
{
    if !some_ready(gate, readings) {
        lemma_wait_is_kept(gate, readings);
        law_changing_content_is_forced(
            after_readings(gate, readings),
            readings[0].1,
            latest,
            now,
        );
    }
}

/// Before anything was handed out, the page that is read again is handed out when it has been
/// held for the stable duration, and not before, unless the limit for changing content is over.
pub proof fn law_first_page_is_held(
    gate: StabilityGate,
    fp: OcrFingerprint,
    since: u128,
    now: u128,
)
    requires
        gate.last_emitted is None,
        gate.active == Some(fp),
        gate.active_since == Some(since),
        gate.stable_duration_ms > 0,
    ensures
        now >= since + gate.stable_duration_ms * 1_000_000 ==> (gate.observed(
            fp,
            now,
        ).1 matches StabilityOutcome::Ready { fingerprint, .. } && fingerprint == fp),
        now < since + gate.stable_duration_ms * 1_000_000 && (gate.max_unstable_ms == 0 || (
        gate.unstable_since matches Some(t) ==> now < t + gate.max_unstable_ms * 1_000_000))
            ==> gate.observed(fp, now).1 is Waiting && gate.observed(fp, now).0.last_emitted is None
            && gate.observed(fp, now).0.active_since == Some(since),
{
}

/// The first reading starts the wait; it is handed out at once only where no wait is asked for.
pub proof fn law_first_reading_starts_the_wait(
    gate: StabilityGate,
    fp: OcrFingerprint,
    now: u128,
)
    requires
        gate.cold(),
    ensures
        gate.observed(fp, now).0.active == Some(fp),
        gate.observed(fp, now).0.active_since == Some(now),
        gate.stable_duration_ms > 0 ==> gate.observed(fp, now).1 == StabilityOutcome::Changed
            && gate.observed(fp, now).0.unstable_since == Some(now),
        gate.stable_duration_ms == 0 && gate.min_hits <= 1 ==> (gate.observed(
            fp,
            now,
        ).1 matches StabilityOutcome::Ready { fingerprint, .. } && fingerprint == fp),
{
}

/// After something was handed out, another page that is active is handed out when it has been
/// read often enough or held for the stable duration.
pub proof fn law_next_page_needs_hits_or_time(
    gate: StabilityGate,
    fp: OcrFingerprint,
    since: u128,
    now: u128,
)
    requires
        gate.last_emitted is Some,
        gate.last_emitted != Some(fp),
        gate.active == Some(fp),
        gate.active_since == Some(since),
        gate.active_hits < u32::MAX,
    ensures
        gate.active_hits + 1 >= gate.min_hits || (gate.stable_duration_ms > 0 && now >= since
            + gate.stable_duration_ms * 1_000_000) ==> (gate.observed(
            fp,
            now,
        ).1 matches StabilityOutcome::Ready { fingerprint, .. } && fingerprint == fp),
        gate.active_hits + 1 < gate.min_hits && (gate.stable_duration_ms == 0 || now < since
            + gate.stable_duration_ms * 1_000_000) && (gate.max_unstable_ms == 0 || (
        gate.unstable_since matches Some(t) ==> now < t + gate.max_unstable_ms * 1_000_000))
            ==> gate.observed(fp, now).1 is Waiting,
        gate.observed(fp, now).0.active_hits == gate.active_hits + 1,
{
}

/// A page that was handed out and is read again is nothing new.
pub proof fn law_shown_page_is_not_repeated(gate: StabilityGate, fp: OcrFingerprint, now: u128)
    requires
        gate.active == Some(fp),
        gate.last_emitted == Some(fp),
    ensures
        gate.observed(fp, now).1 == (StabilityOutcome::AlreadyEmitted { fingerprint: fp }),
        gate.observed(fp, now).0.active == Some(fp),
        gate.observed(fp, now).0.last_emitted == Some(fp),
        gate.observed(fp, now).0.pending is None,
{
}

/// One reading of another page, within the limit for changing content, leaves the shown page as
/// it is and is counted; readings in a row are counted together, a different one starts anew.
pub proof fn law_blips_are_counted(
    gate: StabilityGate,
    shown: OcrFingerprint,
    blip: OcrFingerprint,
    now: u128,
)
    requires
        gate.active == Some(shown),
        gate.last_emitted == Some(shown),
        blip != shown,
        gate.max_unstable_ms == 0 || (gate.unstable_since matches Some(t) ==> now < t
            + gate.max_unstable_ms * 1_000_000),
        (if gate.pending == Some(blip) {
            gate.pending_hits + 1
        } else {
            1
        }) < gate.switch_hits,
    ensures
        gate.observed(blip, now).1 == (StabilityOutcome::AlreadyEmitted { fingerprint: shown }),
        gate.observed(blip, now).0.active == Some(shown),
        gate.observed(blip, now).0.last_emitted == Some(shown),
        gate.observed(blip, now).0.pending == Some(blip),
        gate.observed(blip, now).0.pending_hits == if gate.pending == Some(blip) {
            gate.pending_hits + 1
        } else {
            1
        },
{
}

/// Where two readings in a row make a page, the second reading of a new page hands it out at the
/// latest, whatever page was active.
pub proof fn law_second_reading_hands_out(
    gate: StabilityGate,
    next: OcrFingerprint,
    first: u128,
    second: u128,
)
    requires
        gate.active is Some,
        gate.active != Some(next),
        gate.last_emitted is Some,
        gate.last_emitted != Some(next),
        gate.min_hits <= 1,
        gate.switch_hits == 2,
    ensures
        ({
            let (between, outcome) = gate.observed(next, first);
            &&& outcome is Ready || between.observed(next, second).1 is Ready
            &&& outcome is Ready || between.observed(next, second).0.last_emitted == Some(next)
        }),
{
}

/// What is handed out is the page that was read, or the page that was active; a reading changes
/// none of the settings.
pub proof fn law_only_read_pages_are_handed_out(
    gate: StabilityGate,
    fp: OcrFingerprint,
    now: u128,
)
    ensures
        gate.observed(fp, now).1 matches StabilityOutcome::Ready { fingerprint, .. } ==> fingerprint
            == fp || gate.active == Some(fingerprint),
        gate.observed(fp, now).0.stable_duration_ms == gate.stable_duration_ms,
        gate.observed(fp, now).0.max_unstable_ms == gate.max_unstable_ms,
        gate.observed(fp, now).0.min_hits == gate.min_hits,
        gate.observed(fp, now).0.switch_hits == gate.switch_hits,
        gate.observed(fp, now).0.active is Some,
{
}

/// A wait is reported from its beginning, in whole milliseconds.
pub proof fn law_wait_is_reported(
    gate: StabilityGate,
    fp: OcrFingerprint,
    since: u128,
    now: u128,
)
    requires
        gate.unstable_since == Some(since),
        gate.last_emitted != Some(fp),
        now >= since,
        now - since < u64::MAX * 1_000_000,
    ensures
        gate.observed(fp, now).1 matches StabilityOutcome::Waiting { elapsed_ms } ==> elapsed_ms
            * 1_000_000 <= now - since < (elapsed_ms + 1) * 1_000_000,
        gate.observed(fp, now).1 matches StabilityOutcome::Ready { elapsed_ms, .. } ==> elapsed_ms
            * 1_000_000 <= now - since < (elapsed_ms + 1) * 1_000_000,
{
}

/// A page handed out by hand is the active one and ends the wait; a reset forgets every page;
/// neither changes a setting.
pub proof fn law_forcing_and_resetting(
    gate: StabilityGate,
    fp: OcrFingerprint,
    config: OcrConfig,
    now: u128,
)
    ensures
        ({
            let g = gate.forced(fp, now);
            &&& g.active == Some(fp)
            &&& g.last_emitted == Some(fp)
            &&& g.unstable_since is None
            &&& g.pending is None
            &&& g.stable_duration_ms == gate.stable_duration_ms
            &&& g.max_unstable_ms == gate.max_unstable_ms
            &&& g.min_hits == gate.min_hits
            &&& g.switch_hits == gate.switch_hits
        }),
        ({
            let g = gate.cleared();
            &&& g.active is None
            &&& g.last_emitted is None
            &&& g.unstable_since is None
            &&& g.active_since is None
            &&& g.active_hits == 0
            &&& g.pending is None
            &&& g.pending_hits == 0
            &&& g.stable_duration_ms == gate.stable_duration_ms
            &&& g.max_unstable_ms == gate.max_unstable_ms
            &&& g.min_hits == gate.min_hits
            &&& g.switch_hits == gate.switch_hits
        }),
        ({
            let g = gate.reconfigured(config);
            &&& g.active is None
            &&& g.last_emitted is None
            &&& g.unstable_since is None
            &&& g.stable_duration_ms == config.stable_duration_ms
            &&& g.max_unstable_ms == config.max_unstable_ms
        }),
{
}

} // verus!
