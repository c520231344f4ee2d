use vstd::prelude::*;
use crate::status::Status;

verus! {

/// What one probe of the health endpoint came back with: a decoded readiness
/// status, or a transport-level failure.
pub enum ProbeOutcome {
    Answered(Status),
    TransportError,
}

/// What the readiness wait decides after one probe: start the pipeline, sleep
/// for the given number of milliseconds and probe again, or abort startup.
#[derive(PartialEq, Eq, Structural, Clone, Copy, Debug)]
pub enum ProbeStep {
    Proceed,
    SleepThenRetry(u64),
    Abort,
}

/// How a finite run of probes ended: the service became ready, a transport
/// error aborted startup, or the probes ran out before either.
#[derive(PartialEq, Eq, Structural, Clone, Copy, Debug)]
pub enum AwaitResult {
    Ready,
    Fatal,
    Exhausted,
}

/// Addition that stops at the largest representable backoff.
pub open spec fn sat_add(a: u64, b: u64) -> u64 {
    if a + b <= u64::MAX {
        (a + b) as u64
    } else {
        u64::MAX
    }
}

/// The readiness prober: polls until the service reports ready, sleeping with a
/// growing backoff between rounds. A transport failure is fatal, since no
/// embedding work can proceed without the inference service.
pub struct Prober {
    pub backoff_ms: u64,
    pub increment_ms: u64,
}

impl Prober {
    /// A prober that starts at the given backoff and grows it by the given
    /// increment after every unready probe.
    pub fn new(initial_backoff_ms: u64, increment_ms: u64) -> (p: Prober)
        ensures
            p.backoff_ms == initial_backoff_ms,
            p.increment_ms == increment_ms,
    {
        Prober { backoff_ms: initial_backoff_ms, increment_ms: increment_ms }
    }

    /// One probing round: ready means proceed, a transport error means
    /// abort, and anything else means sleep for the current backoff and retry
    /// with the backoff grown by the increment.
    pub fn step(&mut self, outcome: ProbeOutcome) -> (d: ProbeStep)
        ensures
            final(self).increment_ms == old(self).increment_ms,
            (match outcome {
                ProbeOutcome::Answered(Status::Ready) => d == ProbeStep::Proceed && *final(self)
                    == *old(self),
                ProbeOutcome::TransportError => d == ProbeStep::Abort && *final(self) == *old(
                    self,
                ),
                ProbeOutcome::Answered(_) => d == ProbeStep::SleepThenRetry(old(self).backoff_ms)
                    && final(self).backoff_ms == sat_add(
                    old(self).backoff_ms,
                    old(self).increment_ms,
                ),
            }),
    {
        match outcome {
            ProbeOutcome::Answered(Status::Ready) => ProbeStep::Proceed,
            ProbeOutcome::TransportError => ProbeStep::Abort,
            ProbeOutcome::Answered(_) => {
                let current = self.backoff_ms;
                if current <= u64::MAX - self.increment_ms {
                    self.backoff_ms = current + self.increment_ms;
                } else {
                    self.backoff_ms = u64::MAX;
                }
                ProbeStep::SleepThenRetry(current)
            },
        }
    }
}

/// The sleeps performed and the final result when the prober consumes the given
/// probe outcomes in order, starting from backoff `backoff` with increment
/// `inc`: it stops at the first ready answer or transport error, and sleeps
/// the current backoff once per unready answer before it.
pub open spec fn await_ready_spec(outcomes: Seq<ProbeOutcome>, backoff: u64, inc: u64) -> (Seq<u64>,
AwaitResult)
    decreases outcomes.len(),
{
    if outcomes.len() == 0 {
        (Seq::<u64>::empty(), AwaitResult::Exhausted)
    } else {
        match outcomes[0] {
            ProbeOutcome::Answered(Status::Ready) => (Seq::<u64>::empty(), AwaitResult::Ready),
            ProbeOutcome::TransportError => (Seq::<u64>::empty(), AwaitResult::Fatal),
            ProbeOutcome::Answered(_) => {
                let rest = await_ready_spec(outcomes.skip(1), sat_add(backoff, inc), inc);
                (seq![backoff] + rest.0, rest.1)
            },
        }
    }
}

/// The sleeps and result of running the readiness wait over a given, finite
/// sequence of probe outcomes. This is the whole decision logic of waiting; only
/// the probing itself and the sleeping are left to the caller.
pub fn await_ready_plan(outcomes: &Vec<ProbeOutcome>, initial_backoff_ms: u64, increment_ms: u64) -> (r: (
    Vec<u64>,
    AwaitResult,
))
    ensures
        r.0@ == await_ready_spec(outcomes@, initial_backoff_ms, increment_ms).0,
        r.1 == await_ready_spec(outcomes@, initial_backoff_ms, increment_ms).1,
{
    let mut prober = Prober::new(initial_backoff_ms, increment_ms);
    let mut sleeps: Vec<u64> = Vec::new();
    let mut i: usize = 0;
    proof {
        assert(outcomes@.skip(0) =~= outcomes@);
        assert(Seq::<u64>::empty() + await_ready_spec(outcomes@, initial_backoff_ms, increment_ms).0
            =~= await_ready_spec(outcomes@, initial_backoff_ms, increment_ms).0);
    }
    loop
        invariant
            i <= outcomes@.len(),
            prober.increment_ms == increment_ms,
            await_ready_spec(outcomes@, initial_backoff_ms, increment_ms).0 == sleeps@ + await_ready_spec(
                outcomes@.skip(i as int),
                prober.backoff_ms,
                increment_ms,
            ).0,
            await_ready_spec(outcomes@, initial_backoff_ms, increment_ms).1 == await_ready_spec(
                outcomes@.skip(i as int),
                prober.backoff_ms,
                increment_ms,
            ).1,
        decreases outcomes@.len() - i,
    {
        if i >= outcomes.len() {
            proof {
                assert(outcomes@.skip(i as int).len() == 0);
                assert(sleeps@ + Seq::<u64>::empty() =~= sleeps@);
            }
            return (sleeps, AwaitResult::Exhausted);
        }
        let outcome = match &outcomes[i] {
            ProbeOutcome::Answered(s) => ProbeOutcome::Answered(*s),
            ProbeOutcome::TransportError => ProbeOutcome::TransportError,
        };
        proof {
            assert(outcomes@.skip(i as int)[0] == outcomes@[i as int]);
            assert(outcomes@.skip(i as int).skip(1) =~= outcomes@.skip(i as int + 1));
        }
        let step = prober.step(outcome);
        match step {
            ProbeStep::Proceed => {
                proof {
                    assert(sleeps@ + Seq::<u64>::empty() =~= sleeps@);
                }
                return (sleeps, AwaitResult::Ready);
            },
            ProbeStep::Abort => {
                proof {
                    assert(sleeps@ + Seq::<u64>::empty() =~= sleeps@);
                }
                return (sleeps, AwaitResult::Fatal);
            },
            ProbeStep::SleepThenRetry(ms) => {
                proof {
                    let tail = await_ready_spec(
                        outcomes@.skip(i as int + 1),
                        sat_add(ms, increment_ms),
                        increment_ms,
                    ).0;
                    assert(sleeps@ + (seq![ms] + tail) =~= sleeps@.push(ms) + tail);
                }
                sleeps.push(ms);
                i = i + 1;
            },
        }
    }
}

/// Law: the sleeps of the readiness wait never shrink — every sleep is at
/// least the backoff the run started with, and each sleep is at least as long
/// as the one before it.
pub proof fn lemma_await_sleeps_monotone(outcomes: Seq<ProbeOutcome>, backoff: u64, inc: u64)
    ensures
        forall|k: int|
            0 <= k < await_ready_spec(outcomes, backoff, inc).0.len() ==> backoff <= #[trigger] await_ready_spec(
                outcomes,
                backoff,
                inc,
            ).0[k],
        forall|k1: int, k2: int|
            0 <= k1 <= k2 < await_ready_spec(outcomes, backoff, inc).0.len() ==> #[trigger] await_ready_spec(
                outcomes,
                backoff,
                inc,
            ).0[k1] <= #[trigger] await_ready_spec(outcomes, backoff, inc).0[k2],
    decreases outcomes.len(),
{
    if outcomes.len() > 0 {
        match outcomes[0] {
            ProbeOutcome::Answered(Status::Ready) => {},
            ProbeOutcome::TransportError => {},
            ProbeOutcome::Answered(_) => {
                lemma_await_sleeps_monotone(outcomes.skip(1), sat_add(backoff, inc), inc);
                let sleeps = await_ready_spec(outcomes, backoff, inc).0;
                let rest = await_ready_spec(outcomes.skip(1), sat_add(backoff, inc), inc).0;
                assert forall|k: int| 0 <= k < sleeps.len() implies backoff <= #[trigger] sleeps[k] by {
                    if k > 0 {
                        assert(sleeps[k] == rest[k - 1]);
                        assert(backoff <= sat_add(backoff, inc));
                    }
                }
                assert forall|k1: int, k2: int|
                    0 <= k1 <= k2 < sleeps.len() implies #[trigger] sleeps[k1]
                    <= #[trigger] sleeps[k2] by {
                    if k1 > 0 {
                        assert(sleeps[k1] == rest[k1 - 1]);
                        assert(sleeps[k2] == rest[k2 - 1]);
                    } else if k2 > 0 {
                        assert(sleeps[k2] == rest[k2 - 1]);
                        assert(backoff <= sat_add(backoff, inc));
                    }
                }
            },
        }
    }
}

} // verus!
