use vstd::prelude::*;
use crate::coverage::CoverageSignature;
use crate::driver::{FaultInfo, RunStatus};

verus! {

/// An input kept because it reached new edges, with the signature of the run
/// that justified keeping it. Entries are never edited once stored.
pub struct CorpusEntry {
    pub data: Vec<u8>,
    pub signature: CoverageSignature,
    pub discovered_at: u64,
    pub size: usize,
}

impl CorpusEntry {
    pub open spec fn wf(&self) -> bool {
        self.size == self.data@.len()
    }

    /// The bytes stored for this entry: the input itself, so that a stored
    /// entry can be fed back unchanged as a later input.
    pub fn file_bytes(&self) -> (r: Vec<u8>)
        ensures
            r@ == self.data@,
    {
        crate::mutate::copy_range(&self.data, 0, self.data.len())
    }
}

/// An input that crashed the target or overran its budget.
pub struct CrashRecord {
    pub data: Vec<u8>,
    pub status: RunStatus,
    pub fault: Option<FaultInfo>,
    pub timestamp: u64,
}

impl CrashRecord {
    /// The bytes stored for this crash: the triggering input itself.
    pub fn file_bytes(&self) -> (r: Vec<u8>)
        ensures
            r@ == self.data@,
    {
        crate::mutate::copy_range(&self.data, 0, self.data.len())
    }
}

/// Sum of the first `n` weights, saturating at `u64::MAX`.
pub open spec fn weight_total(w: Seq<u64>, n: int) -> u64
    decreases n,
{
    if n <= 0 {
        0
    } else {
        weight_total(w, n - 1).saturating_add(w[n - 1])
    }
}

/// The index that `target` falls on when the weights `w[i..]` are laid end to
/// end; a target past the end falls on the last index.
pub open spec fn weighted_index(w: Seq<u64>, target: int, i: int) -> int
    decreases w.len() - i,
{
    if i + 1 >= w.len() || target < w[i] {
        i
    } else {
        weighted_index(w, target - w[i], i + 1)
    }
}

pub proof fn lemma_weighted_index_in_range(w: Seq<u64>, target: int, i: int)
    requires
        0 <= i < w.len(),
    ensures
        i <= weighted_index(w, target, i) < w.len(),
    decreases w.len() - i,
{
    if !(i + 1 >= w.len() || target < w[i]) {
        lemma_weighted_index_in_range(w, target - w[i], i + 1);
    }
}

/// The sum of all weights, saturating.
pub fn total_weight(w: &Vec<u64>) -> (r: u64)
    ensures
        r == weight_total(w@, w@.len() as int),
{
    let mut total: u64 = 0;
    let mut i: usize = 0;
    while i < w.len()
        invariant
            i <= w@.len(),
            total == weight_total(w@, i as int),
        decreases w@.len() - i,
    {
        total = total.saturating_add(w[i]);
        i = i + 1;
    }
    total
}

/// The index that `target` falls on: entries with more weight cover more
/// targets, so a uniform target favours them in proportion.
pub fn pick_weighted(w: &Vec<u64>, target: u64) -> (r: usize)
    requires
        w@.len() > 0,
    ensures
        r as int == weighted_index(w@, target as int, 0),
        r < w@.len(),
{
    proof {
        lemma_weighted_index_in_range(w@, target as int, 0);
    }
    let mut i: usize = 0;
    let mut t: u64 = target;
    while i < w.len() - 1 && t >= w[i]
        invariant
            i < w@.len(),
            weighted_index(w@, t as int, i as int) == weighted_index(w@, target as int, 0),
        decreases w@.len() - i,
    {
        t = t - w[i];
        i = i + 1;
    }
    i
}

} // verus!
