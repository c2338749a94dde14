//! Stale periods and the staleness rule.
//!
//! All times are whole seconds. A record is stale once its age, the time
//! since it was received, has reached the stale period of its kind. The
//! period of a kind is a fixed offset on top of one tunable base period.

use vstd::prelude::*;

verus! {

/// Seconds between two polls of the record store.
pub const DB_POLL_TIME: u64 = 60 * 35;

/// Upper bound on the reconciliations in flight at any moment of a pass.
pub const PURGER_WORKERS: usize = 40;

/// Size of the database connection pool the purger asks for.
pub const PURGER_DB_POOL_SIZE: usize = 200;

/// Offset, in seconds, after which a pending beacon is deemed stale. Long
/// enough that a beacon has had every opportunity to be verified.
pub const BEACON_STALE_PERIOD: i64 = 60 * 90;

/// Offset, in seconds, after which a pending witness is deemed stale.
/// Witnesses enter the store around their beacon and must outlive it.
pub const WITNESS_STALE_PERIOD: i64 = BEACON_STALE_PERIOD + 15 * 60;

/// Offset, in seconds, after which entropy is deemed stale. Entropy must
/// outlive every beacon it salts.
pub const ENTROPY_STALE_PERIOD: i64 = BEACON_STALE_PERIOD + 15 * 60;

/// The largest of the three offsets.
pub open spec fn max_offset() -> int {
    if WITNESS_STALE_PERIOD >= ENTROPY_STALE_PERIOD {
        WITNESS_STALE_PERIOD as int
    } else {
        ENTROPY_STALE_PERIOD as int
    }
}

/// Whether a record received at `received` is stale at `now` under `period`:
/// its age has reached the period.
pub open spec fn stale_at(now: i64, received: i64, period: i64) -> bool {
    now - received >= period
}

/// The newest reception time that is stale at `now` under `period`.
pub open spec fn cutoff_at(now: i64, period: i64) -> int {
    now - period
}

/// Decides staleness without overflow, whatever the three values are.
pub fn is_stale(now: i64, received: i64, period: i64) -> (stale: bool)
    ensures
        stale == stale_at(now, received, period),
{
    let age: i128 = now as i128 - received as i128;
    age >= period as i128
}

/// The cutoff `now - period`, where an `i64` can hold it.
pub fn stale_cutoff(now: i64, period: i64) -> (cutoff: Option<i64>)
    ensures
        cutoff.is_some() <==> i64::MIN <= cutoff_at(now, period) <= i64::MAX,
        cutoff.is_some() ==> cutoff.unwrap() == cutoff_at(now, period),
{
    now.checked_sub(period)
}

/// A reception time is at or before the cutoff exactly when the record is
/// stale.
pub proof fn lemma_cutoff_selects_stale(now: i64, received: i64, period: i64)
    ensures
        received <= cutoff_at(now, period) <==> stale_at(now, received, period),
{
}

/// Settings of one purger, fixed at startup.
#[derive(Clone, Copy, Debug, PartialEq, Eq)]
pub struct PurgerConfig {
    base_stale_period: i64,
    poll_interval: u64,
    workers: usize,
}

impl PurgerConfig {
    /// Every stale period fits an `i64`, the purger polls, and at least one
    /// worker runs.
    pub open spec fn wf(&self) -> bool {
        &&& Self::admits(self.spec_base_stale_period())
        &&& self.spec_poll_interval() > 0
        &&& self.spec_workers() > 0
    }

    pub closed spec fn spec_base_stale_period(&self) -> i64 {
        self.base_stale_period
    }

    pub closed spec fn spec_poll_interval(&self) -> u64 {
        self.poll_interval
    }

    pub closed spec fn spec_workers(&self) -> usize {
        self.workers
    }

    /// Whether `base_stale_period` leaves room for the offsets.
    pub open spec fn admits(base_stale_period: i64) -> bool {
        base_stale_period + max_offset() <= i64::MAX
    }

    /// Settings with the given base period, the reference poll cadence and
    /// the reference worker count. `None` when a stale period would not fit
    /// an `i64`.
    pub fn new(base_stale_period: i64) -> (config: Option<Self>)
        ensures
            config.is_some() <==> Self::admits(base_stale_period),
            config.is_some() ==> {
                let c = config.unwrap();
                &&& c.wf()
                &&& c.spec_base_stale_period() == base_stale_period
                &&& c.spec_poll_interval() == DB_POLL_TIME
                &&& c.spec_workers() == PURGER_WORKERS
            },
    {
        Self::with_limits(base_stale_period, DB_POLL_TIME, PURGER_WORKERS)
    }

    /// Settings with every knob given. `None` when a stale period would not
    /// fit an `i64`, or when the poll interval or the worker count is zero.
    pub fn with_limits(base_stale_period: i64, poll_interval: u64, workers: usize) -> (config:
        Option<Self>)
        ensures
            config.is_some() <==> Self::admits(base_stale_period) && poll_interval > 0 && workers
                > 0,
            config.is_some() ==> {
                let c = config.unwrap();
                &&& c.wf()
                &&& c.spec_base_stale_period() == base_stale_period
                &&& c.spec_poll_interval() == poll_interval
                &&& c.spec_workers() == workers
            },
    {
        if base_stale_period > i64::MAX - ENTROPY_STALE_PERIOD || poll_interval == 0 || workers
            == 0 {
            None
        } else {
            Some(PurgerConfig { base_stale_period, poll_interval, workers })
        }
    }

    #[verifier::when_used_as_spec(spec_base_stale_period)]
    pub fn base_stale_period(&self) -> (period: i64)
        ensures
            period == self.spec_base_stale_period(),
    {
        self.base_stale_period
    }

    #[verifier::when_used_as_spec(spec_poll_interval)]
    pub fn poll_interval(&self) -> (seconds: u64)
        ensures
            seconds == self.spec_poll_interval(),
    {
        self.poll_interval
    }

    #[verifier::when_used_as_spec(spec_workers)]
    pub fn workers(&self) -> (count: usize)
        ensures
            count == self.spec_workers(),
    {
        self.workers
    }

    /// The stale period of beacons: base plus the beacon offset.
    pub open spec fn spec_beacon_stale_period(&self) -> int {
        self.spec_base_stale_period() + BEACON_STALE_PERIOD
    }

    /// The stale period of witnesses: base plus the witness offset.
    pub open spec fn spec_witness_stale_period(&self) -> int {
        self.spec_base_stale_period() + WITNESS_STALE_PERIOD
    }

    /// The stale period of entropy: base plus the entropy offset.
    pub open spec fn spec_entropy_stale_period(&self) -> int {
        self.spec_base_stale_period() + ENTROPY_STALE_PERIOD
    }

    pub fn beacon_stale_period(&self) -> (period: i64)
        requires
            self.wf(),
        ensures
            period == self.spec_beacon_stale_period(),
    {
        self.base_stale_period + BEACON_STALE_PERIOD
    }

    pub fn witness_stale_period(&self) -> (period: i64)
        requires
            self.wf(),
        ensures
            period == self.spec_witness_stale_period(),
    {
        self.base_stale_period + WITNESS_STALE_PERIOD
    }

    pub fn entropy_stale_period(&self) -> (period: i64)
        requires
            self.wf(),
        ensures
            period == self.spec_entropy_stale_period(),
    {
        self.base_stale_period + ENTROPY_STALE_PERIOD
    }
}

/// Witnesses and entropy share one offset, and it exceeds the beacon offset:
/// neither a witness nor the entropy of a round is reclaimed before its
/// beacon.
pub proof fn lemma_offsets_ordered()
    ensures
        WITNESS_STALE_PERIOD == ENTROPY_STALE_PERIOD,
        ENTROPY_STALE_PERIOD > BEACON_STALE_PERIOD,
        BEACON_STALE_PERIOD == 5400,
        WITNESS_STALE_PERIOD == 6300,
{
}

/// The same ordering for the full periods of any settings.
pub proof fn lemma_periods_ordered(config: PurgerConfig)
    ensures
        config.spec_witness_stale_period() == config.spec_entropy_stale_period(),
        config.spec_entropy_stale_period() > config.spec_beacon_stale_period(),
{
}

/// The boundary of staleness is inclusive: a beacon one second short of its
/// period is not stale, and one whose age equals the period is.
pub proof fn lemma_beacon_boundary(config: PurgerConfig, now: i64, received: i64, period: i64)
    requires
        period == config.spec_beacon_stale_period(),
    ensures
        now - received == config.spec_base_stale_period() + 5400 - 1 ==> !stale_at(
            now,
            received,
            period,
        ),
        now - received == config.spec_base_stale_period() + 5400 ==> stale_at(
            now,
            received,
            period,
        ),
{
}

} // verus!
