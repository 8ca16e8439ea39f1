use vstd::prelude::*;
use crate::corpus::{pick_weighted, total_weight, weight_total, weighted_index, CorpusEntry, CrashRecord};
use crate::coverage::{adds_edge, GlobalCoverageState};
use crate::driver::{ExecutionResult, RunStatus};
use crate::mutate::{advance, dict_view, draw, mutate, mutation, Rng};

verus! {

/// Energy of a fresh corpus entry.
pub const BASE_ENERGY: u64 = 1;

/// Energy added to an entry each time a candidate mutated from it is kept.
pub const ENERGY_BONUS: u64 = 4;

/// Energy beyond which an entry gains no more.
pub const MAX_ENERGY: u64 = 64;

/// The settings of one session.
#[derive(Clone, Copy, Debug)]
pub struct EngineConfig {
    /// Number of edges in the coverage map.
    pub map_len: usize,
    /// Largest candidate that mutation may grow.
    pub max_input_len: usize,
    /// Candidates handed out before the session stops.
    pub max_iterations: u64,
    /// Every this many candidates, the next entry in turn is mutated instead
    /// of one drawn by energy (0: never).
    pub round_robin_period: u64,
    /// Capacity of the corpus; running out of it ends the session.
    pub max_entries: usize,
    /// Time a run may take, in milliseconds.
    pub budget_ms: u64,
}

/// Where the session stands between calls.
#[derive(Clone, Copy, Debug, PartialEq, Eq, Structural)]
pub enum Phase {
    Selecting,
    Executing,
    Terminating,
}

/// What the evaluator made of one run.
#[derive(Clone, Copy, Debug, PartialEq, Eq, Structural)]
pub enum Verdict {
    /// Kept as corpus entry `index`.
    Retained { index: usize },
    /// Recorded as crash record `index`.
    Crash { index: usize },
    /// Nothing new: dropped.
    Discarded,
}

/// Conditions that end the session.
#[derive(Clone, Copy, Debug, PartialEq, Eq, Structural)]
pub enum EngineError {
    /// The run's coverage buffer does not match the session's map.
    SignatureSize,
    /// The corpus is at its capacity.
    CorpusFull,
}

/// Counts reported when the session ends.
#[derive(Clone, Copy, Debug, PartialEq, Eq, Structural)]
pub struct SessionSummary {
    pub iterations: u64,
    pub corpus_len: usize,
    pub crash_count: usize,
    pub edges_covered: usize,
}

/// The state of a fuzzing session: the cumulative coverage, the corpus with
/// each entry's energy, the crashes found, and the generator.
pub struct Engine {
    pub config: EngineConfig,
    pub global: GlobalCoverageState,
    pub corpus: Vec<CorpusEntry>,
    pub energy: Vec<u64>,
    pub crashes: Vec<CrashRecord>,
    pub dict: Vec<Vec<u8>>,
    pub rng: Rng,
    /// Inputs to run as they are before anything is mutated: the initial
    /// corpus, and inputs queued for replay.
    pub pending: Vec<Vec<u8>>,
    pub iterations: u64,
    pub cursor: usize,
    /// The entry that the candidate now running was mutated from.
    pub parent: Option<usize>,
    pub phase: Phase,
}

/// `energy` after a kept candidate mutated from `parent`.
pub open spec fn rewarded(energy: Seq<u64>, parent: Option<usize>) -> Seq<u64> {
    match parent {
        Some(p) => if p < energy.len() {
            let e = energy[p as int] + ENERGY_BONUS;
            energy.update(p as int, if e > MAX_ENERGY { MAX_ENERGY } else { e as u64 })
        } else {
            energy
        },
        None => energy,
    }
}

/// What `report` does: `pre` is the engine before, `post` after, and `r`
/// what it returned for the run of `input` that gave `result` at `now`.
pub open spec fn reported(
    pre: Engine,
    post: Engine,
    input: Seq<u8>,
    result: ExecutionResult,
    now: u64,
    r: Result<Verdict, EngineError>,
) -> bool {
    let novel = adds_edge(pre.global.edges(), result.signature.edges());
    let sized = result.signature.map_len() == pre.config.map_len;
    &&& post.wf()
    &&& post.config == pre.config
    &&& post.dict@ == pre.dict@
    &&& post.rng == pre.rng
    &&& post.pending@ == pre.pending@
    &&& post.iterations == pre.iterations
    &&& pre.global.edges().subset_of(post.global.edges())
    &&& post.global.map_len() == pre.global.map_len()
    &&& (r is Err ==> post.same_records(&pre))
    &&& ((r == Err::<Verdict, EngineError>(EngineError::SignatureSize)) <==> !sized)
    &&& ((r == Err::<Verdict, EngineError>(EngineError::CorpusFull)) <==> {
        &&& sized
        &&& result.status == RunStatus::Completed
        &&& novel
        &&& pre.corpus@.len() >= pre.config.max_entries
    })
    &&& (r is Ok ==> post.phase == (if pre.phase == Phase::Terminating {
        Phase::Terminating
    } else {
        Phase::Selecting
    }))
    &&& (r is Ok && (result.status == RunStatus::Crashed || result.status == RunStatus::TimedOut) ==> {
        &&& r == Ok::<Verdict, EngineError>(Verdict::Crash { index: pre.crashes@.len() as usize })
        &&& post.crashes@.len() == pre.crashes@.len() + 1
        &&& post.crashes@.take(pre.crashes@.len() as int) == pre.crashes@
        &&& post.crashes@.last().data@ == input
        &&& post.crashes@.last().status == result.status
        &&& post.crashes@.last().fault == result.fault
        &&& post.crashes@.last().timestamp == now
        &&& post.global == pre.global
        &&& post.corpus@ == pre.corpus@
        &&& post.energy@ == pre.energy@
    })
    &&& (r is Ok && result.status == RunStatus::Killed ==> {
        &&& r == Ok::<Verdict, EngineError>(Verdict::Discarded)
        &&& post.same_records(&pre)
    })
    &&& (r is Ok && result.status == RunStatus::Completed && !novel ==> {
        &&& r == Ok::<Verdict, EngineError>(Verdict::Discarded)
        &&& post.same_records(&pre)
    })
    &&& (r is Ok && result.status == RunStatus::Completed && novel ==> {
        &&& r == Ok::<Verdict, EngineError>(Verdict::Retained { index: pre.corpus@.len() as usize })
        &&& post.global.edges() == pre.global.edges().union(result.signature.edges())
        &&& post.corpus@.len() == pre.corpus@.len() + 1
        &&& post.corpus@.take(pre.corpus@.len() as int) == pre.corpus@
        &&& post.corpus@.last().data@ == input
        &&& post.corpus@.last().signature == result.signature
        &&& post.corpus@.last().discovered_at == now
        &&& post.energy@ == rewarded(pre.energy@, pre.parent).push(BASE_ENERGY)
        &&& post.crashes@ == pre.crashes@
    })
}

/// A run whose edges were all observed before never enters the corpus, and
/// leaves the coverage record as it was, whatever its status.
pub proof fn lemma_known_run_not_inserted(
    pre: Engine,
    post: Engine,
    input: Seq<u8>,
    result: ExecutionResult,
    now: u64,
    r: Result<Verdict, EngineError>,
)
    requires
        reported(pre, post, input, result, now, r),
        result.signature.edges().subset_of(pre.global.edges()),
    ensures
        post.corpus@ == pre.corpus@,
        post.global.edges() == pre.global.edges(),
        r != Ok::<Verdict, EngineError>(Verdict::Retained { index: pre.corpus@.len() as usize }),
{
    crate::coverage::lemma_known_edges_not_novel(pre.global.edges(), result.signature.edges());
    if r is Ok && (result.status == RunStatus::Crashed || result.status == RunStatus::TimedOut) {
        assert(post.global == pre.global);
    }
}

/// Along any sequence of reports the coverage record only grows: the edges
/// after report `j` include those after report `i <= j`.
pub proof fn lemma_reports_monotone(
    states: Seq<Engine>,
    inputs: Seq<Seq<u8>>,
    results: Seq<ExecutionResult>,
    times: Seq<u64>,
    verdicts: Seq<Result<Verdict, EngineError>>,
    i: int,
    j: int,
)
    requires
        states.len() == inputs.len() + 1,
        inputs.len() == results.len(),
        inputs.len() == times.len(),
        inputs.len() == verdicts.len(),
        forall|k: int| 0 <= k < inputs.len() ==> reported(states[k], states[k + 1], inputs[k], results[k], #[trigger] times[k], verdicts[k]),
        0 <= i <= j < states.len(),
    ensures
        states[i].global.edges().subset_of(states[j].global.edges()),
    decreases j - i,
{
    if i < j {
        lemma_reports_monotone(states, inputs, results, times, verdicts, i, j - 1);
        let k = j - 1;
        assert(reported(states[k], states[k + 1], inputs[k], results[k], times[k], verdicts[k]));
    }
}

impl Engine {
    pub open spec fn wf(&self) -> bool {
        &&& self.global.map_len() == self.config.map_len
        &&& self.energy@.len() == self.corpus@.len()
        &&& self.corpus@.len() <= self.config.max_entries
        &&& forall|i: int| 0 <= i < self.energy@.len() ==> BASE_ENERGY <= #[trigger] self.energy@[i] <= MAX_ENERGY
        &&& forall|i: int| 0 <= i < self.corpus@.len() ==> (#[trigger] self.corpus@[i]).wf()
        &&& forall|i: int| 0 <= i < self.corpus@.len() ==> (#[trigger] self.corpus@[i]).signature.map_len() == self.config.map_len
    }

    /// The records a run can change: coverage, corpus, energy and crashes.
    pub open spec fn same_records(&self, other: &Engine) -> bool {
        &&& self.global == other.global
        &&& self.corpus@ == other.corpus@
        &&& self.energy@ == other.energy@
        &&& self.crashes@ == other.crashes@
    }

    /// Whether the session has nothing more to hand out.
    pub open spec fn stopped(&self) -> bool {
        self.phase == Phase::Terminating || self.iterations >= self.config.max_iterations
    }

    /// A session with empty coverage and corpus. The inputs of `initial` are
    /// run first, as they are; an empty `initial` starts from the empty input.
    pub fn new(config: EngineConfig, seed: u64, initial: Vec<Vec<u8>>, dict: Vec<Vec<u8>>) -> (r: Engine)
        ensures
            r.wf(),
            r.config == config,
            r.global.edges() == Set::<int>::empty(),
            r.corpus@.len() == 0,
            r.crashes@.len() == 0,
            r.rng.state == seed,
            r.dict@ == dict@,
            dict_view(r.pending@) == (if initial@.len() == 0 {
                seq![Seq::<u8>::empty()]
            } else {
                dict_view(initial@)
            }),
            r.iterations == 0,
            r.phase == Phase::Selecting,
    {
        let pending = if initial.len() == 0 {
            let mut p: Vec<Vec<u8>> = Vec::new();
            p.push(Vec::new());
            assert(dict_view(p@) =~= seq![Seq::<u8>::empty()]);
            p
        } else {
            initial
        };
        Engine {
            config,
            global: GlobalCoverageState::new(config.map_len),
            corpus: Vec::new(),
            energy: Vec::new(),
            crashes: Vec::new(),
            dict,
            rng: Rng::new(seed),
            pending,
            iterations: 0,
            cursor: 0,
            parent: None,
            phase: Phase::Selecting,
        }
    }

    /// Whether candidate number `n` (counting from one) is taken in turn
    /// rather than by energy.
    pub open spec fn in_turn(&self, n: int) -> bool {
        self.config.round_robin_period > 0 && n % (self.config.round_robin_period as int) == 0
    }

    /// The entry that the next mutated candidate is drawn from.
    pub open spec fn next_parent(&self) -> int {
        if self.in_turn(self.iterations + 1) {
            self.cursor as int % self.corpus@.len() as int
        } else {
            weighted_index(
                self.energy@,
                draw(self.rng.state) as int % weight_total(self.energy@, self.energy@.len() as int) as int,
                0,
            )
        }
    }

    /// The generator state once the parent is chosen.
    pub open spec fn state_after_pick(&self) -> u64 {
        if self.in_turn(self.iterations + 1) {
            self.rng.state
        } else {
            advance(self.rng.state)
        }
    }

    /// The entry that the next mutated candidate is spliced with.
    pub open spec fn next_partner(&self) -> int {
        draw(self.state_after_pick()) as int % self.corpus@.len() as int
    }

    /// The next input to run, or `None` once the session has stopped.
    ///
    /// Queued inputs come first, as they are. Then, with an empty corpus, the
    /// empty input is mutated; else an entry chosen in turn or by energy is
    /// mutated, with a drawn entry as splice partner.
    pub fn next_candidate(&mut self) -> (r: Option<Vec<u8>>)
        requires
            old(self).wf(),
        ensures
            final(self).wf(),
            final(self).same_records(old(self)),
            final(self).config == old(self).config,
            final(self).dict@ == old(self).dict@,
            r.is_none() == old(self).stopped(),
            r.is_none() ==> final(self).phase == Phase::Terminating && final(self).iterations == old(self).iterations,
            r.is_some() ==> final(self).phase == Phase::Executing && final(self).iterations == old(self).iterations + 1,
            r.is_some() && old(self).pending@.len() > 0 ==> {
                &&& r.unwrap()@ == old(self).pending@[0]@
                &&& final(self).pending@ == old(self).pending@.drop_first()
                &&& final(self).parent.is_none()
                &&& final(self).rng == old(self).rng
            },
            r.is_some() && old(self).pending@.len() == 0 && old(self).corpus@.len() == 0 ==> {
                &&& (r.unwrap()@, final(self).rng.state) == mutation(
                    old(self).rng.state,
                    Seq::empty(),
                    Seq::empty(),
                    dict_view(old(self).dict@),
                    old(self).config.max_input_len as nat,
                )
                &&& final(self).parent.is_none()
            },
            r.is_some() && old(self).pending@.len() == 0 && old(self).corpus@.len() > 0 ==> {
                let b = old(self).next_parent();
                let o = old(self).next_partner();
                &&& 0 <= b < old(self).corpus@.len()
                &&& 0 <= o < old(self).corpus@.len()
                &&& final(self).parent == Some(b as usize)
                &&& (r.unwrap()@, final(self).rng.state) == mutation(
                    advance(old(self).state_after_pick()),
                    old(self).corpus@[b].data@,
                    old(self).corpus@[o].data@,
                    dict_view(old(self).dict@),
                    old(self).config.max_input_len as nat,
                )
            },
    {
        if self.phase == Phase::Terminating || self.iterations >= self.config.max_iterations {
            self.phase = Phase::Terminating;
            return None;
        }
        self.iterations = self.iterations + 1;
        self.phase = Phase::Executing;
        if self.pending.len() > 0 {
            self.parent = None;
            let c = self.pending.remove(0);
            assert(self.pending@ =~= old(self).pending@.drop_first());
            return Some(c);
        }
        let max_len = self.config.max_input_len;
        if self.corpus.len() == 0 {
            self.parent = None;
            let empty: Vec<u8> = Vec::new();
            let c = mutate(&mut self.rng, &empty, &empty, &self.dict, max_len);
            return Some(c);
        }
        let len = self.corpus.len();
        let period = self.config.round_robin_period;
        let b: usize = if period > 0 && self.iterations % period == 0 {
            let k = self.cursor % len;
            self.cursor = if k + 1 < len { k + 1 } else { 0 };
            k
        } else {
            let total = total_weight(&self.energy);
            let d = self.rng.next_u64();
            assert(self.energy@[len - 1] >= BASE_ENERGY);
            pick_weighted(&self.energy, d % total)
        };
        let o = (self.rng.next_u64() % (len as u64)) as usize;
        self.parent = Some(b);
        let c = mutate(&mut self.rng, &self.corpus[b].data, &self.corpus[o].data, &self.dict, max_len);
        Some(c)
    }

    /// Judges the run of `input` that gave `result`, at time `now`.
    ///
    /// A crash or an overrun is recorded as a crash. A completed run that
    /// reaches an edge never seen before is kept as a corpus entry, its edges
    /// are merged into the record, and the entry it was mutated from gains
    /// energy. Anything else is dropped without effect. A signature of the
    /// wrong size, or a new entry with the corpus at capacity, is an error
    /// and changes nothing.
    pub fn report(&mut self, input: &Vec<u8>, result: ExecutionResult, now: u64) -> (r: Result<Verdict, EngineError>)
        requires
            old(self).wf(),
        ensures
            reported(*old(self), *final(self), input@, result, now, r),
    {
        if result.signature.hits.len() != self.config.map_len {
            return Err(EngineError::SignatureSize);
        }
        let next_phase = if self.phase == Phase::Terminating {
            Phase::Terminating
        } else {
            Phase::Selecting
        };
        match result.status {
            RunStatus::Crashed | RunStatus::TimedOut => {
                let index = self.crashes.len();
                let data = crate::mutate::copy_range(input, 0, input.len());
                assert(data@ =~= input@);
                self.crashes.push(CrashRecord { data, status: result.status, fault: result.fault, timestamp: now });
                assert(self.crashes@.take(old(self).crashes@.len() as int) =~= old(self).crashes@);
                self.phase = next_phase;
                Ok(Verdict::Crash { index })
            },
            RunStatus::Killed => {
                self.phase = next_phase;
                Ok(Verdict::Discarded)
            },
            RunStatus::Completed => {
                if !self.global.has_novel(&result.signature) {
                    self.phase = next_phase;
                    return Ok(Verdict::Discarded);
                }
                if self.corpus.len() >= self.config.max_entries {
                    return Err(EngineError::CorpusFull);
                }
                self.global.merge(&result.signature);
                if let Some(p) = self.parent {
                    if p < self.energy.len() {
                        let e = self.energy[p] + ENERGY_BONUS;
                        let v = if e > MAX_ENERGY { MAX_ENERGY } else { e };
                        self.energy.set(p, v);
                    }
                }
                assert(self.energy@ == rewarded(old(self).energy@, old(self).parent));
                self.energy.push(BASE_ENERGY);
                let index = self.corpus.len();
                let data = crate::mutate::copy_range(input, 0, input.len());
                assert(data@ =~= input@);
                let size = data.len();
                self.corpus.push(CorpusEntry { data, signature: result.signature, discovered_at: now, size });
                assert(self.corpus@.take(old(self).corpus@.len() as int) =~= old(self).corpus@);
                self.phase = next_phase;
                Ok(Verdict::Retained { index })
            },
        }
    }

    /// Queues `input` to be run as it is, after the inputs already queued:
    /// a stored entry or crash fed back unchanged.
    pub fn enqueue(&mut self, input: Vec<u8>)
        requires
            old(self).wf(),
        ensures
            final(self).wf(),
            final(self).same_records(old(self)),
            final(self).pending@ == old(self).pending@.push(input),
            final(self).rng == old(self).rng,
            final(self).phase == old(self).phase,
            final(self).iterations == old(self).iterations,
            final(self).config == old(self).config,
    {
        self.pending.push(input);
    }

    /// Adds `token` to the dictionary that mutation substitutes from.
    pub fn add_token(&mut self, token: Vec<u8>)
        requires
            old(self).wf(),
        ensures
            final(self).wf(),
            final(self).same_records(old(self)),
            final(self).dict@ == old(self).dict@.push(token),
            final(self).pending@ == old(self).pending@,
            final(self).rng == old(self).rng,
            final(self).phase == old(self).phase,
            final(self).iterations == old(self).iterations,
            final(self).config == old(self).config,
    {
        self.dict.push(token);
    }

    /// Asks the session to stop: no candidate is handed out after this.
    pub fn request_stop(&mut self)
        requires
            old(self).wf(),
        ensures
            final(self).wf(),
            final(self).same_records(old(self)),
            final(self).phase == Phase::Terminating,
            final(self).stopped(),
            final(self).iterations == old(self).iterations,
    {
        self.phase = Phase::Terminating;
    }

    /// The counts reported at the end of the session.
    pub fn summary(&self) -> (r: SessionSummary)
        ensures
            r.iterations == self.iterations,
            r.corpus_len == self.corpus@.len(),
            r.crash_count == self.crashes@.len(),
            r.edges_covered == self.global.edges().len(),
    {
        SessionSummary {
            iterations: self.iterations,
            corpus_len: self.corpus.len(),
            crash_count: self.crashes.len(),
            edges_covered: self.global.covered_count(),
        }
    }
}

} // verus!
