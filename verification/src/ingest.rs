//! The ingestion loop, as the decisions it takes. The caller does what an
//! action asks for (fetch, save, sleep) and comes back with what happened.

use vstd::prelude::*;
use crate::aggregator::{Aggregator, Policy, consensus};
use crate::models::{Amount, Observation, PriceData, observations};
use crate::oracle_client::FetchFailure;

verus! {

/// Seconds between two cycles unless the loop is told otherwise.
pub const CYCLE_PERIOD_SECS: u64 = 1;

/// Source tag of the simulated attacker.
pub const ATTACKER_SOURCE: &'static str = "MaliciousOracle";

/// Confidence width that the simulation gives the honest source: 0.05.
pub const HONEST_WIDTH: i64 = 50_000_000;

/// Confidence width that the simulation gives the attacker: 5.0.
pub const ATTACKER_WIDTH: i64 = 5_000_000_000;

/// By how much the simulated attacker raises the price: 50.0.
pub const ATTACKER_MARKUP: i64 = 50_000_000_000;

/// What the loop waits for.
#[derive(Clone, Copy, Debug, PartialEq, Eq, Structural)]
pub enum IngestState {
    /// A fetch is under way.
    AwaitingFetch,
    /// A save is under way.
    AwaitingSave,
    /// The loop sleeps between two cycles.
    AwaitingWake,
}

/// What happened to what the loop asked for.
#[derive(Debug)]
pub enum IngestEvent {
    /// The provider gave an observation, at second `now` of the clock.
    Fetched { observation: PriceData, now: i64 },
    /// The provider gave none.
    FetchFailed(FetchFailure),
    /// The store kept the consensus.
    Saved,
    /// The store refused the consensus, or kept only part of it.
    SaveFailed,
    /// The sleep is over.
    Woke,
}

/// How a cycle ended.
#[derive(Clone, Copy, Debug, PartialEq, Eq, Structural)]
pub enum CycleReport {
    /// A consensus was made and stored.
    Persisted,
    /// No observation was fit for a consensus; nothing was stored.
    NoConsensus,
    /// The provider failed; nothing was stored.
    FetchFailure(FetchFailure),
    /// The store failed.
    PersistenceFailure,
    /// An event came that the loop did not wait for; the cycle was dropped.
    OutOfTurn,
}

/// What the loop asks for next. There is no action that ends it.
#[derive(Debug)]
pub enum IngestAction {
    /// Fetch an observation from the provider.
    Fetch,
    /// Store this consensus.
    Save(PriceData),
    /// Report how the cycle ended, then sleep `secs` seconds.
    Sleep { secs: u64, report: CycleReport },
}

/// The price of the simulated attacker for an honest price: raised by the
/// markup, and not finite where that leaves the range of ticks.
pub open spec fn marked_up(price: Option<int>) -> Option<int> {
    match price {
        Some(t) => if t + ATTACKER_MARKUP <= i64::MAX {
            Some(t + ATTACKER_MARKUP)
        } else {
            None
        },
        None => None,
    }
}

/// The two observations of the attack simulation: the fetched one, stamped
/// `now` and given the honest width, and a copy of it under the attacker's
/// tag with the price marked up and the attacker's width.
pub open spec fn simulated_attack(fetched: Observation, now: int) -> Seq<Observation> {
    seq![
        Observation {
            symbol: fetched.symbol,
            price: fetched.price,
            confidence: Some(HONEST_WIDTH as int),
            timestamp: now,
            source: fetched.source,
        },
        Observation {
            symbol: fetched.symbol,
            price: marked_up(fetched.price),
            confidence: Some(ATTACKER_WIDTH as int),
            timestamp: now,
            source: ATTACKER_SOURCE@,
        },
    ]
}

/// The configuration of the loop.
#[derive(Clone, Copy, Debug, PartialEq, Eq, Structural)]
pub struct IngestionLoop {
    /// The policy of the consensus engine.
    pub policy: Policy,
    /// Seconds between two cycles.
    pub period_secs: u64,
    /// Whether each fetched observation is set against a simulated attacker.
    pub simulate_attack: bool,
}

impl IngestionLoop {
    /// The observations that enter the consensus when `fetched` was fetched at
    /// second `now`.
    pub open spec fn inputs_of(self, fetched: Observation, now: int) -> Seq<Observation> {
        if self.simulate_attack {
            simulated_attack(fetched, now)
        } else {
            seq![fetched]
        }
    }

    /// Whether the loop, waiting as `state` says when `event` comes, goes on
    /// to wait as `next` says and asks for `action`.
    pub open spec fn follows(
        self,
        state: IngestState,
        event: IngestEvent,
        next: IngestState,
        action: IngestAction,
    ) -> bool {
        let sleep = |report: CycleReport|
            {
                &&& next == IngestState::AwaitingWake
                &&& action matches IngestAction::Sleep { secs, report: given }
                &&& secs == self.period_secs
                &&& given == report
            };
        match (state, event) {
            (IngestState::AwaitingFetch, IngestEvent::Fetched { observation, now }) => {
                match consensus(self.inputs_of(observation@, now as int), self.policy) {
                    Some(c) => {
                        &&& next == IngestState::AwaitingSave
                        &&& action matches IngestAction::Save(data)
                        &&& data@ == c
                    },
                    None => sleep(CycleReport::NoConsensus),
                }
            },
            (IngestState::AwaitingFetch, IngestEvent::FetchFailed(failure)) => sleep(
                CycleReport::FetchFailure(failure),
            ),
            (IngestState::AwaitingSave, IngestEvent::Saved) => sleep(CycleReport::Persisted),
            (IngestState::AwaitingSave, IngestEvent::SaveFailed) => sleep(
                CycleReport::PersistenceFailure,
            ),
            (IngestState::AwaitingWake, IngestEvent::Woke) => next == IngestState::AwaitingFetch
                && action is Fetch,
            _ => sleep(CycleReport::OutOfTurn),
        }
    }

    /// A loop under `policy` with a cycle every `CYCLE_PERIOD_SECS` seconds
    /// and no simulation.
    pub fn new(policy: Policy) -> (r: Self)
        ensures
            r == (IngestionLoop { policy, period_secs: CYCLE_PERIOD_SECS, simulate_attack: false }),
    {
        IngestionLoop { policy, period_secs: CYCLE_PERIOD_SECS, simulate_attack: false }
    }

    /// How the loop starts: it asks for a fetch.
    pub fn start(&self) -> (r: (IngestState, IngestAction))
        ensures
            r.0 == IngestState::AwaitingFetch,
            r.1 is Fetch,
    {
        (IngestState::AwaitingFetch, IngestAction::Fetch)
    }

    /// The observations of the attack simulation for what was fetched.
    pub fn simulate(fetched: PriceData, now: i64) -> (r: Vec<PriceData>)
        ensures
            observations(r@) == simulated_attack(fetched@, now as int),
    {
        let price = match fetched.price {
            Amount::Finite(t) => if t <= i64::MAX - ATTACKER_MARKUP {
                Amount::Finite(t + ATTACKER_MARKUP)
            } else {
                Amount::NonFinite
            },
            Amount::NonFinite => Amount::NonFinite,
        };
        let bad = PriceData {
            symbol: fetched.symbol.clone(),
            price,
            confidence: Amount::Finite(ATTACKER_WIDTH),
            timestamp: now,
            source: String::from_str(ATTACKER_SOURCE),
        };
        let good = PriceData {
            symbol: fetched.symbol,
            price: fetched.price,
            confidence: Amount::Finite(HONEST_WIDTH),
            timestamp: now,
            source: fetched.source,
        };
        let mut inputs: Vec<PriceData> = Vec::new();
        inputs.push(good);
        inputs.push(bad);
        proof {
            assert(observations(inputs@) =~= simulated_attack(fetched@, now as int));
        }
        inputs
    }

    /// One decision of the loop: from what it waited for and what came, to
    /// what it waits for next and what it asks for.
    ///
    /// A fetched observation goes through the consensus engine; a consensus
    /// is handed on to be saved, and without one the cycle ends. A failed
    /// fetch or save ends the cycle with a report. After the sleep the next
    /// cycle starts with a fetch. Whatever comes, the loop goes on.
    pub fn step(&self, state: IngestState, event: IngestEvent) -> (r: (IngestState, IngestAction))
        ensures
            self.follows(state, event, r.0, r.1),
    {
        match (state, event) {
            (IngestState::AwaitingFetch, IngestEvent::Fetched { observation, now }) => {
                let ghost fetched = observation@;
                let inputs = if self.simulate_attack {
                    Self::simulate(observation, now)
                } else {
                    let mut one: Vec<PriceData> = Vec::new();
                    one.push(observation);
                    proof {
                        assert(observations(one@) =~= seq![fetched]);
                    }
                    one
                };
                match Aggregator::calculate(self.policy, inputs) {
                    Some(c) => (IngestState::AwaitingSave, IngestAction::Save(c)),
                    None => self.sleep(CycleReport::NoConsensus),
                }
            },
            (IngestState::AwaitingFetch, IngestEvent::FetchFailed(failure)) => self.sleep(
                CycleReport::FetchFailure(failure),
            ),
            (IngestState::AwaitingSave, IngestEvent::Saved) => self.sleep(CycleReport::Persisted),
            (IngestState::AwaitingSave, IngestEvent::SaveFailed) => self.sleep(
                CycleReport::PersistenceFailure,
            ),
            (IngestState::AwaitingWake, IngestEvent::Woke) => (
                IngestState::AwaitingFetch,
                IngestAction::Fetch,
            ),
            _ => self.sleep(CycleReport::OutOfTurn),
        }
    }

    /// The end of a cycle: report, then sleep one period.
    fn sleep(&self, report: CycleReport) -> (r: (IngestState, IngestAction))
        ensures
            r.0 == IngestState::AwaitingWake,
            r.1 matches IngestAction::Sleep { secs, report: given } && secs == self.period_secs
                && given == report,
    {
        (IngestState::AwaitingWake, IngestAction::Sleep { secs: self.period_secs, report })
    }
}

/// The loop never ends: whatever it waits for and whatever comes, it asks
/// for something and waits again; and only a sleep that is over starts a
/// fetch.
pub proof fn theorem_loop_goes_on(
    config: IngestionLoop,
    state: IngestState,
    event: IngestEvent,
    next: IngestState,
    action: IngestAction,
)
    requires
        config.follows(state, event, next, action),
    ensures
        action is Fetch <==> next == IngestState::AwaitingFetch,
        action is Save <==> next == IngestState::AwaitingSave,
        action is Sleep <==> next == IngestState::AwaitingWake,
        action is Fetch ==> state == IngestState::AwaitingWake && event is Woke,
        action is Save ==> state == IngestState::AwaitingFetch && event is Fetched,
{
}

} // verus!
