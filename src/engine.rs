//! The batching engine: intake queue, coalescing flush scheduler, batch
//! assembly and the metrics hand-off. Waiting, ranking by score and settlement
//! happen around it; it decides what each step does.
use vstd::prelude::*;
use vstd::string::StringExecFns;
use crate::error::Error;
use crate::ordering::{order_by_rank, sorted_by_rank, stable_rearrangement};
use crate::types::{
    estimate_batch_gas, estimated_gas_spec, estimated_savings_spec, validate_config, Batch,
    BatchResult, FisherConfig, Intent, Metrics,
};
use crate::williams::{chunk_size_spec, williams_chunk_size};

verus! {

/// Where the single flush slot stands.
#[derive(Debug, Clone, Copy, PartialEq, Eq, Structural)]
pub enum FlushPhase {
    /// No flush runs.
    Idle,
    /// A flush was started and is about to drain the queue.
    Draining,
    /// The drained intents are being ranked and planned.
    Ordering,
    /// The batch is out for settlement.
    Submitting,
}

/// The queue after an intent is offered: appended if it carries a signature.
pub open spec fn submit_step(q: Seq<Intent>, i: Intent) -> Seq<Intent> {
    if i.has_signature() {
        q.push(i)
    } else {
        q
    }
}

/// The intents of `s` that carry a signature, in submission order.
pub open spec fn accepted(s: Seq<Intent>) -> Seq<Intent>
    decreases s.len(),
{
    if s.len() == 0 {
        Seq::empty()
    } else {
        submit_step(accepted(s.drop_last()), s.last())
    }
}

/// Batches and queue after offering `s` one by one, where each offer that
/// brings the queue to `max` drains it at once, into a batch when it holds at
/// least `min` intents.
pub open spec fn run_submissions(s: Seq<Intent>, min: nat, max: nat) -> (Seq<Seq<Intent>>, Seq<Intent>)
    decreases s.len(),
{
    if s.len() == 0 {
        (Seq::empty(), Seq::empty())
    } else {
        let prev = run_submissions(s.drop_last(), min, max);
        let q = submit_step(prev.1, s.last());
        if q.len() > prev.1.len() && q.len() >= max {
            if q.len() >= min {
                (prev.0.push(q), Seq::empty())
            } else {
                (prev.0, Seq::empty())
            }
        } else {
            (prev.0, q)
        }
    }
}

/// The batches after offering `s` and one final flush of what is left.
pub open spec fn batches_after_flush(s: Seq<Intent>, min: nat, max: nat) -> Seq<Seq<Intent>> {
    let run = run_submissions(s, min, max);
    if run.1.len() >= min && run.1.len() > 0 {
        run.0.push(run.1)
    } else {
        run.0
    }
}

proof fn lemma_run_keeps_all(s: Seq<Intent>, min: nat, max: nat)
    requires
        0 < min <= max,
    ensures
        run_submissions(s, min, max).0.flatten() + run_submissions(s, min, max).1 == accepted(s),
        run_submissions(s, min, max).1.len() < max,
    decreases s.len(),
{
    if s.len() > 0 {
        lemma_run_keeps_all(s.drop_last(), min, max);
        let prev = run_submissions(s.drop_last(), min, max);
        let q = submit_step(prev.1, s.last());
        assert(accepted(s) == submit_step(accepted(s.drop_last()), s.last()));
        if q.len() > prev.1.len() && q.len() >= max {
            assert(prev.0.flatten() + q == accepted(s));
            prev.0.lemma_flatten_push(q);
            assert(prev.0.push(q).flatten() + Seq::<Intent>::empty() =~= prev.0.push(q).flatten());
        } else {
            assert(prev.0.flatten() + q =~= accepted(s)) by {
                if s.last().has_signature() {
                    assert(prev.0.flatten() + prev.1.push(s.last()) =~= (prev.0.flatten()
                        + prev.1).push(s.last()));
                }
            }
        }
    }
}

/// Each submitted intent that reaches a batch does so exactly once: when the
/// thresholds satisfy `0 < min <= max`, offering a sequence `s` of intents
/// (with the high-water flush) and then flushing once more yields batches whose
/// concatenation is the accepted intents of `s` in submission order, or, when
/// the final flush finds fewer than `min`, a prefix of them that leaves out
/// only that remainder.
pub proof fn lemma_each_intent_batched_once(s: Seq<Intent>, min: nat, max: nat)
    requires
        0 < min <= max,
    ensures
        batches_after_flush(s, min, max).flatten() + (if run_submissions(s, min, max).1.len() >= min {
            Seq::empty()
        } else {
            run_submissions(s, min, max).1
        }) == accepted(s),
        run_submissions(s, min, max).1.len() < min ==> batches_after_flush(s, min, max).flatten()
            == accepted(s).take(accepted(s).len() - run_submissions(s, min, max).1.len()),
{
    lemma_run_keeps_all(s, min, max);
    let run = run_submissions(s, min, max);
    if run.1.len() >= min && run.1.len() > 0 {
        run.0.lemma_flatten_push(run.1);
        assert(run.0.push(run.1).flatten() + Seq::<Intent>::empty() =~= run.0.push(run.1).flatten());
    } else if run.1.len() >= min {
        assert(run.0.flatten() + Seq::<Intent>::empty() =~= run.0.flatten() + run.1);
    } else {
        assert(accepted(s).take(accepted(s).len() - run.1.len()) =~= run.0.flatten());
    }
}

/// The intake queue, the single flush slot and the counters of one relayer.
pub struct BatchEngine {
    min_batch_size: usize,
    max_batch_size: usize,
    queue: Vec<Intent>,
    high_water: bool,
    pending_flush: bool,
    stopping: bool,
    phase: FlushPhase,
    last_batch_id: u64,
    metrics: Metrics,
}

/// The id of the next batch created at `now`: `now` itself when it is later
/// than the last id, otherwise one more than the last id.
pub open spec fn next_batch_id(last: u64, now: u64) -> int {
    if now > last {
        now as int
    } else {
        last + 1
    }
}

impl BatchEngine {
    /// Intents waiting in the queue, oldest first.
    pub closed spec fn queue_view(&self) -> Seq<Intent> {
        self.queue@
    }

    /// Fewest intents a flush settles.
    pub closed spec fn min_size(&self) -> nat {
        self.min_batch_size as nat
    }

    /// Queue length that raises the high-water signal.
    pub closed spec fn max_size(&self) -> nat {
        self.max_batch_size as nat
    }

    /// Whether the high-water signal is raised and not yet taken.
    pub closed spec fn high_water_view(&self) -> bool {
        self.high_water
    }

    /// Whether a trigger arrived while a flush was running.
    pub closed spec fn pending_view(&self) -> bool {
        self.pending_flush
    }

    /// Whether the engine was told to stop starting flushes.
    pub closed spec fn stopping_view(&self) -> bool {
        self.stopping
    }

    /// State of the flush slot.
    pub closed spec fn phase_view(&self) -> FlushPhase {
        self.phase
    }

    /// Id of the last batch created, zero before the first.
    pub closed spec fn last_id(&self) -> u64 {
        self.last_batch_id
    }

    /// The counters.
    pub closed spec fn metrics_view(&self) -> Metrics {
        self.metrics
    }

    /// An idle engine with an empty queue and zero counters, for a valid
    /// configuration; a `Config` error otherwise.
    pub fn new(config: &FisherConfig) -> (r: Result<BatchEngine, Error>)
        ensures
            r.is_ok() == config.is_valid(),
            r matches Err(e) ==> e is Config,
            r matches Ok(e) ==> {
                &&& e.queue_view().len() == 0
                &&& e.min_size() == config.min_batch_size
                &&& e.max_size() == config.max_batch_size
                &&& !e.high_water_view()
                &&& !e.pending_view()
                &&& !e.stopping_view()
                &&& e.phase_view() == FlushPhase::Idle
                &&& e.last_id() == 0
                &&& e.metrics_view().total_batches == 0
                &&& e.metrics_view().total_intents == 0
                &&& e.metrics_view().total_gas_saved.value() == 0
                &&& e.metrics_view().blob_batches == 0
            },
    {
        match validate_config(config) {
            Err(e) => Err(e),
            Ok(()) => Ok(BatchEngine {
                min_batch_size: config.min_batch_size,
                max_batch_size: config.max_batch_size,
                queue: Vec::new(),
                high_water: false,
                pending_flush: false,
                stopping: false,
                phase: FlushPhase::Idle,
                last_batch_id: 0,
                metrics: Metrics::new(),
            }),
        }
    }

    /// Number of intents waiting.
    pub fn queue_len(&self) -> (r: usize)
        ensures
            r == self.queue_view().len(),
    {
        self.queue.len()
    }

    /// State of the flush slot.
    pub fn phase(&self) -> (r: FlushPhase)
        ensures
            r == self.phase_view(),
    {
        self.phase
    }

    /// Whether a trigger is waiting for the running flush to end.
    pub fn flush_pending(&self) -> (r: bool)
        ensures
            r == self.pending_view(),
    {
        self.pending_flush
    }

    /// A copy of the counters.
    pub fn metrics(&self) -> (m: Metrics)
        ensures
            m == self.metrics_view(),
    {
        Metrics {
            total_batches: self.metrics.total_batches,
            total_intents: self.metrics.total_intents,
            total_gas_saved: self.metrics.total_gas_saved,
            blob_batches: self.metrics.blob_batches,
        }
    }

    /// Offers an intent. Without a signature it is refused with
    /// `InvalidSignature` and nothing changes. Otherwise it joins the back of
    /// the queue and its id is returned; when this brings the queue to the
    /// high-water mark the high-water signal is raised.
    pub fn submit_intent(&mut self, intent: Intent) -> (r: Result<String, Error>)
        ensures
            !intent.has_signature() ==> r == Err::<String, Error>(Error::InvalidSignature)
                && final(self).queue_view() == old(self).queue_view()
                && final(self).high_water_view() == old(self).high_water_view(),
            intent.has_signature() ==> (r matches Ok(id) && id@ == intent.id@),
            intent.has_signature() ==> final(self).queue_view() == old(self).queue_view().push(intent)
                && final(self).high_water_view() == (old(self).high_water_view() || (
                old(self).queue_view().len() < old(self).max_size() && old(self).queue_view().len()
                + 1 >= old(self).max_size())),
            final(self).queue_view() == submit_step(old(self).queue_view(), intent),
            final(self).min_size() == old(self).min_size(),
            final(self).stopping_view() == old(self).stopping_view(),
            final(self).max_size() == old(self).max_size(),
            final(self).pending_view() == old(self).pending_view(),
            final(self).phase_view() == old(self).phase_view(),
            final(self).last_id() == old(self).last_id(),
            final(self).metrics_view() == old(self).metrics_view(),
    {
        if !intent.verify_signature() {
            return Err(Error::InvalidSignature);
        }
        let intent_id = intent.id.clone();
        let before = self.queue.len();
        self.queue.push(intent);
        if before < self.max_batch_size && before + 1 >= self.max_batch_size {
            self.high_water = true;
        }
        Ok(intent_id)
    }

    /// Takes the high-water signal: whether it was raised, leaving it lowered.
    pub fn take_high_water(&mut self) -> (r: bool)
        ensures
            r == old(self).high_water_view(),
            !final(self).high_water_view(),
            final(self).queue_view() == old(self).queue_view(),
            final(self).min_size() == old(self).min_size(),
            final(self).stopping_view() == old(self).stopping_view(),
            final(self).max_size() == old(self).max_size(),
            final(self).pending_view() == old(self).pending_view(),
            final(self).phase_view() == old(self).phase_view(),
            final(self).last_id() == old(self).last_id(),
            final(self).metrics_view() == old(self).metrics_view(),
    {
        let r = self.high_water;
        self.high_water = false;
        r
    }

    /// A flush trigger (tick or high-water). Once stopped, triggers are
    /// ignored. Otherwise, with the slot idle the flush starts: the slot moves
    /// to `Draining`, the pending bit is consumed and `true` is returned; with a
    /// flush running, the trigger is coalesced into the pending bit and `false`
    /// is returned.
    pub fn request_flush(&mut self) -> (r: bool)
        ensures
            r == (old(self).phase_view() == FlushPhase::Idle && !old(self).stopping_view()),
            r ==> final(self).phase_view() == FlushPhase::Draining && !final(self).pending_view(),
            !r ==> final(self).phase_view() == old(self).phase_view(),
            !r && !old(self).stopping_view() ==> final(self).pending_view(),
            old(self).stopping_view() ==> final(self).pending_view() == old(self).pending_view(),
            final(self).queue_view() == old(self).queue_view(),
            final(self).min_size() == old(self).min_size(),
            final(self).stopping_view() == old(self).stopping_view(),
            final(self).max_size() == old(self).max_size(),
            final(self).high_water_view() == old(self).high_water_view(),
            final(self).last_id() == old(self).last_id(),
            final(self).metrics_view() == old(self).metrics_view(),
    {
        if self.stopping {
            false
        } else if self.phase == FlushPhase::Idle {
            self.phase = FlushPhase::Draining;
            self.pending_flush = false;
            true
        } else {
            self.pending_flush = true;
            false
        }
    }

    /// Stops starting flushes: later triggers are ignored and a coalesced one
    /// is dropped; a flush already running goes on to its end. Returns whether
    /// the slot is idle, that is whether nothing is in flight.
    pub fn stop(&mut self) -> (r: bool)
        ensures
            r == (old(self).phase_view() == FlushPhase::Idle),
            final(self).stopping_view(),
            !final(self).pending_view(),
            final(self).phase_view() == old(self).phase_view(),
            final(self).queue_view() == old(self).queue_view(),
            final(self).min_size() == old(self).min_size(),
            final(self).max_size() == old(self).max_size(),
            final(self).high_water_view() == old(self).high_water_view(),
            final(self).last_id() == old(self).last_id(),
            final(self).metrics_view() == old(self).metrics_view(),
    {
        self.stopping = true;
        self.pending_flush = false;
        self.phase == FlushPhase::Idle
    }

    /// Drains the whole queue. With at least `min_batch_size` intents they are
    /// returned, oldest first, and the slot moves to `Ordering`. With fewer,
    /// they are dropped, the slot returns to `Idle` and a `BatchProcessing`
    /// error is returned. The queue is empty afterwards either way.
    pub fn drain(&mut self) -> (r: Result<Vec<Intent>, Error>)
        requires
            old(self).phase_view() == FlushPhase::Draining,
        ensures
            final(self).queue_view().len() == 0,
            r.is_ok() == (old(self).queue_view().len() >= old(self).min_size()),
            r matches Ok(v) ==> v@ == old(self).queue_view() && final(self).phase_view()
                == FlushPhase::Ordering,
            r matches Err(e) ==> e is BatchProcessing && final(self).phase_view() == FlushPhase::Idle,
            final(self).min_size() == old(self).min_size(),
            final(self).stopping_view() == old(self).stopping_view(),
            final(self).max_size() == old(self).max_size(),
            final(self).high_water_view() == old(self).high_water_view(),
            final(self).pending_view() == old(self).pending_view(),
            final(self).last_id() == old(self).last_id(),
            final(self).metrics_view() == old(self).metrics_view(),
    {
        let mut drained: Vec<Intent> = Vec::new();
        core::mem::swap(&mut drained, &mut self.queue);
        if drained.len() < self.min_batch_size {
            self.phase = FlushPhase::Idle;
            return Err(Error::BatchProcessing(String::from_str("Queue too small")));
        }
        self.phase = FlushPhase::Ordering;
        Ok(drained)
    }

    /// Assembles the batch of the drained intents, each paired with its
    /// priority key. The intents are put in rank order by a stable sort (see
    /// `order_by_rank`); the chunk size and gas estimates follow from their
    /// number; the id is `now` when that is later than the last id, else one
    /// more than the last id, so ids strictly increase; the slot moves to
    /// `Submitting`. When no
    /// larger id exists, a `BatchProcessing` error is returned and the slot
    /// returns to `Idle`.
    pub fn build_batch(&mut self, ranked: Vec<(u64, Intent)>, now: u64) -> (r: Result<Batch, Error>)
        requires
            old(self).phase_view() == FlushPhase::Ordering,
        ensures
            r.is_ok() == (next_batch_id(old(self).last_id(), now) <= u64::MAX),
            r matches Ok(b) ==> {
                &&& b.id == next_batch_id(old(self).last_id(), now)
                &&& b.id > old(self).last_id()
                &&& final(self).last_id() == b.id
                &&& b.created_at == now
                &&& b.intents@.len() == ranked@.len()
                &&& b.chunk_size == chunk_size_spec(ranked@.len())
                &&& b.estimated_gas.value() == estimated_gas_spec(ranked@.len())
                &&& b.estimated_savings.value() == estimated_savings_spec(ranked@.len())
                &&& exists|s: Seq<(u64, Intent)>|
                    #![trigger sorted_by_rank(s)]
                    {
                        &&& s.to_multiset() == ranked@.to_multiset()
                        &&& sorted_by_rank(s)
                        &&& exists|perm: Seq<int>| stable_rearrangement(s, ranked@, perm)
                        &&& b.intents@ == s.map_values(|p: (u64, Intent)| p.1)
                    }
                &&& final(self).phase_view() == FlushPhase::Submitting
            },
            r matches Err(e) ==> e is BatchProcessing && final(self).phase_view() == FlushPhase::Idle
                && final(self).last_id() == old(self).last_id(),
            final(self).queue_view() == old(self).queue_view(),
            final(self).min_size() == old(self).min_size(),
            final(self).stopping_view() == old(self).stopping_view(),
            final(self).max_size() == old(self).max_size(),
            final(self).high_water_view() == old(self).high_water_view(),
            final(self).pending_view() == old(self).pending_view(),
            final(self).metrics_view() == old(self).metrics_view(),
    {
        let id = if now > self.last_batch_id {
            now
        } else if self.last_batch_id < u64::MAX {
            self.last_batch_id + 1
        } else {
            self.phase = FlushPhase::Idle;
            return Err(Error::BatchProcessing(String::from_str("Batch ids exhausted")));
        };
        let n = ranked.len();
        let sorted = order_by_rank(ranked);
        proof {
            vstd::seq_lib::to_multiset_len(sorted@);
            vstd::seq_lib::to_multiset_len(ranked@);
        }
        let mut intents: Vec<Intent> = Vec::new();
        let mut rest = sorted;
        let ghost all = rest@;
        // taken from the back, so built reversed and then flipped
        let mut reversed: Vec<Intent> = Vec::new();
        while rest.len() > 0
            invariant
                rest@ == all.take(rest@.len() as int),
                rest@.len() + reversed@.len() == all.len(),
                forall|k: int| 0 <= k < reversed@.len() ==> #[trigger] reversed@[k] == all[all.len() - 1 - k].1,
            decreases rest@.len(),
        {
            let p = rest.pop().unwrap();
            reversed.push(p.1);
        }
        while reversed.len() > 0
            invariant
                reversed@.len() + intents@.len() == all.len(),
                forall|k: int| 0 <= k < reversed@.len() ==> #[trigger] reversed@[k] == all[all.len() - 1 - k].1,
                forall|k: int| 0 <= k < intents@.len() ==> #[trigger] intents@[k] == all[k].1,
            decreases reversed@.len(),
        {
            let x = reversed.pop().unwrap();
            intents.push(x);
        }
        assert(intents@ =~= all.map_values(|p: (u64, Intent)| p.1));
        let chunk_size = williams_chunk_size(n);
        let (estimated_gas, estimated_savings) = estimate_batch_gas(n);
        self.last_batch_id = id;
        self.phase = FlushPhase::Submitting;
        Ok(Batch { id, intents, chunk_size, estimated_gas, estimated_savings, created_at: now })
    }

    /// Ends the running flush. A settled batch (`Some` result) of `batch_len`
    /// intents is folded into the counters; a failed one (`None`) leaves them.
    /// The slot returns to `Idle`.
    pub fn complete_flush(&mut self, batch_len: usize, result: Option<&BatchResult>)
        requires
            old(self).phase_view() == FlushPhase::Submitting,
        ensures
            final(self).phase_view() == FlushPhase::Idle,
            result.is_none() ==> final(self).metrics_view() == old(self).metrics_view(),
            result matches Some(res) ==> {
                let m0 = old(self).metrics_view();
                let m1 = final(self).metrics_view();
                &&& m1.total_batches == crate::types::sat_add_u64(m0.total_batches as nat, 1)
                &&& m1.total_intents == crate::types::sat_add_u64(m0.total_intents as nat, batch_len as nat)
                &&& m1.total_gas_saved.value() == crate::types::sat_add_u256(
                    m0.total_gas_saved.value(),
                    res.gas_saved.value(),
                )
                &&& m1.blob_batches == crate::types::sat_add_u64(
                    m0.blob_batches as nat,
                    if res.used_blob { 1nat } else { 0nat },
                )
            },
            final(self).queue_view() == old(self).queue_view(),
            final(self).min_size() == old(self).min_size(),
            final(self).stopping_view() == old(self).stopping_view(),
            final(self).max_size() == old(self).max_size(),
            final(self).high_water_view() == old(self).high_water_view(),
            final(self).pending_view() == old(self).pending_view(),
            final(self).last_id() == old(self).last_id(),
    {
        if let Some(res) = result {
            self.metrics.record_batch(batch_len, res);
        }
        self.phase = FlushPhase::Idle;
    }

    /// After a flush ends: when a trigger was coalesced meanwhile, consumes the
    /// pending bit and starts the next flush (`true`); otherwise nothing
    /// changes (`false`).
    pub fn resume_pending(&mut self) -> (r: bool)
        ensures
            r == (old(self).phase_view() == FlushPhase::Idle && old(self).pending_view()
                && !old(self).stopping_view()),
            r ==> final(self).phase_view() == FlushPhase::Draining && !final(self).pending_view(),
            !r ==> final(self).phase_view() == old(self).phase_view() && final(self).pending_view()
                == old(self).pending_view(),
            final(self).queue_view() == old(self).queue_view(),
            final(self).min_size() == old(self).min_size(),
            final(self).stopping_view() == old(self).stopping_view(),
            final(self).max_size() == old(self).max_size(),
            final(self).high_water_view() == old(self).high_water_view(),
            final(self).last_id() == old(self).last_id(),
            final(self).metrics_view() == old(self).metrics_view(),
    {
        if self.phase == FlushPhase::Idle && self.pending_flush && !self.stopping {
            self.pending_flush = false;
            self.phase = FlushPhase::Draining;
            true
        } else {
            false
        }
    }
}

} // verus!
