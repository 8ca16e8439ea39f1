use vstd::prelude::*;

verus! {

/// Hit counts recorded by one run, one counter per edge of the coverage map.
pub struct CoverageSignature {
    pub hits: Vec<u8>,
}

impl CoverageSignature {
    /// The edges that the run reached at least once.
    pub open spec fn edges(&self) -> Set<int> {
        Set::new(|e: int| 0 <= e < self.hits@.len() && self.hits@[e] != 0)
    }

    pub open spec fn map_len(&self) -> nat {
        self.hits@.len()
    }

    pub fn new(hits: Vec<u8>) -> (r: CoverageSignature)
        ensures
            r.hits@ == hits@,
    {
        CoverageSignature { hits }
    }

    /// A signature over a map of `map_len` edges in which each listed edge
    /// was hit once; listed edges outside the map are ignored.
    pub fn from_edges(map_len: usize, edges: &Vec<usize>) -> (r: CoverageSignature)
        ensures
            r.map_len() == map_len,
            r.edges() == Set::new(|e: int| 0 <= e < map_len && edges@.contains(e as usize)),
    {
        let mut hits: Vec<u8> = Vec::new();
        let mut i: usize = 0;
        while i < map_len
            invariant
                i <= map_len,
                hits@.len() == i,
                forall|k: int| 0 <= k < i ==> hits@[k] == 0,
            decreases map_len - i,
        {
            hits.push(0);
            i = i + 1;
        }
        let mut j: usize = 0;
        while j < edges.len()
            invariant
                j <= edges@.len(),
                hits@.len() == map_len,
                forall|k: int|
                    0 <= k < map_len ==> (hits@[k] != 0 <==> exists|m: int|
                        0 <= m < j && edges@[m] == k),
            decreases edges@.len() - j,
        {
            let e = edges[j];
            if e < map_len {
                hits.set(e, 1);
            }
            assert forall|k: int| 0 <= k < map_len implies (hits@[k] != 0 <==> exists|m: int|
                0 <= m < j + 1 && edges@[m] == k) by {
                if hits@[k] != 0 && k != e as int {
                    let m = choose|m: int| 0 <= m < j && edges@[m] == k;
                    assert(0 <= m < j + 1 && edges@[m] == k);
                }
                if k == e as int {
                    assert(edges@[j as int] == k);
                }
            }
            j = j + 1;
        }
        let r = CoverageSignature { hits };
        assert(r.edges() =~= Set::new(|e: int| 0 <= e < map_len && edges@.contains(e as usize))) by {
            assert forall|k: int| 0 <= k < map_len && edges@.contains(k as usize) implies r.edges().contains(k) by {
                let m = choose|m: int| 0 <= m < edges@.len() && edges@[m] == k as usize;
                assert(edges@[m] == k);
            }
        }
        r
    }

    /// Whether the run reached edge `e`.
    pub fn covers(&self, e: usize) -> (r: bool)
        ensures
            r == self.edges().contains(e as int),
    {
        e < self.hits.len() && self.hits[e] != 0
    }
}

/// Whether a run that reached `run` adds an edge to the cumulative set `seen`.
pub open spec fn adds_edge(seen: Set<int>, run: Set<int>) -> bool {
    exists|e: int| run.contains(e) && !seen.contains(e)
}

/// Every edge observed by any run of the session so far.
///
/// The set only grows: the one operation that changes it is `merge`.
pub struct GlobalCoverageState {
    seen: Vec<bool>,
}

impl GlobalCoverageState {
    pub closed spec fn edges(&self) -> Set<int> {
        Set::new(|e: int| 0 <= e < self.seen@.len() && self.seen@[e])
    }

    pub closed spec fn map_len(&self) -> nat {
        self.seen@.len()
    }

    /// An empty cumulative record over a map of `map_len` edges.
    pub fn new(map_len: usize) -> (r: GlobalCoverageState)
        ensures
            r.map_len() == map_len,
            r.edges() == Set::<int>::empty(),
    {
        let mut seen: Vec<bool> = Vec::new();
        let mut i: usize = 0;
        while i < map_len
            invariant
                i <= map_len,
                seen@.len() == i,
                forall|k: int| 0 <= k < i ==> !seen@[k],
            decreases map_len - i,
        {
            seen.push(false);
            i = i + 1;
        }
        let r = GlobalCoverageState { seen };
        assert(r.edges() =~= Set::<int>::empty());
        r
    }

    pub fn map_size(&self) -> (r: usize)
        ensures
            r == self.map_len(),
    {
        self.seen.len()
    }

    /// Whether edge `e` has been observed.
    pub fn contains(&self, e: usize) -> (r: bool)
        ensures
            r == self.edges().contains(e as int),
    {
        e < self.seen.len() && self.seen[e]
    }

    /// How many edges have been observed.
    pub fn covered_count(&self) -> (r: usize)
        ensures
            r == self.edges().len(),
            self.edges().finite(),
    {
        let mut n: usize = 0;
        let mut i: usize = 0;
        assert(seen_prefix(self.seen@, 0) =~= Set::<int>::empty());
        while i < self.seen.len()
            invariant
                i <= self.seen@.len(),
                n <= i,
                seen_prefix(self.seen@, i as int).finite(),
                n == seen_prefix(self.seen@, i as int).len(),
            decreases self.seen@.len() - i,
        {
            proof {
                lemma_seen_prefix_step(self.seen@, i as int);
            }
            if self.seen[i] {
                n = n + 1;
            }
            i = i + 1;
        }
        assert(seen_prefix(self.seen@, i as int) =~= self.edges());
        n
    }

    /// Whether `sig` reaches an edge that no earlier run reached.
    pub fn has_novel(&self, sig: &CoverageSignature) -> (r: bool)
        requires
            sig.map_len() == self.map_len(),
        ensures
            r == adds_edge(self.edges(), sig.edges()),
    {
        let mut i: usize = 0;
        while i < sig.hits.len()
            invariant
                i <= sig.hits@.len(),
                sig.map_len() == self.map_len(),
                forall|k: int| 0 <= k < i ==> !(sig.hits@[k] != 0 && !self.seen@[k]),
            decreases sig.hits@.len() - i,
        {
            if sig.hits[i] != 0 && !self.seen[i] {
                assert(sig.edges().contains(i as int) && !self.edges().contains(i as int));
                return true;
            }
            i = i + 1;
        }
        false
    }

    /// The edges of `sig` that no earlier run reached, in increasing order.
    pub fn novel_edges(&self, sig: &CoverageSignature) -> (r: Vec<usize>)
        requires
            sig.map_len() == self.map_len(),
        ensures
            forall|e: usize|
                (sig.edges().contains(e as int) && !self.edges().contains(e as int)) <==> r@.contains(e),
            forall|a: int, b: int| 0 <= a < b < r@.len() ==> r@[a] < r@[b],
    {
        let mut r: Vec<usize> = Vec::new();
        let mut i: usize = 0;
        while i < sig.hits.len()
            invariant
                i <= sig.hits@.len(),
                sig.map_len() == self.map_len(),
                forall|k: int| 0 <= k < r@.len() ==> r@[k] < i,
                forall|a: int, b: int| 0 <= a < b < r@.len() ==> r@[a] < r@[b],
                forall|e: int| 0 <= e < i ==> ((sig.hits@[e] != 0 && !self.seen@[e]) <==> r@.contains(e as usize)),
            decreases sig.hits@.len() - i,
        {
            let ghost prev = r@;
            if sig.hits[i] != 0 && !self.seen[i] {
                r.push(i);
                assert(r@[r@.len() - 1] == i);
                assert forall|e: usize| r@.contains(e) <==> (prev.contains(e) || e == i) by {
                    if r@.contains(e) {
                        let k = choose|k: int| 0 <= k < r@.len() && r@[k] == e;
                        if k < prev.len() {
                            assert(prev[k] == e);
                        }
                    }
                    if prev.contains(e) {
                        let k = choose|k: int| 0 <= k < prev.len() && prev[k] == e;
                        assert(r@[k] == e);
                    }
                }
            }
            proof {
                if !(sig.hits@[i as int] != 0 && !self.seen@[i as int]) {
                    assert(!r@.contains(i)) by {
                        if r@.contains(i) {
                            let k = choose|k: int| 0 <= k < r@.len() && r@[k] == i;
                        }
                    }
                }
            }
            assert forall|e: usize| r@.contains(e) ==> e <= i by {
                if r@.contains(e) {
                    let k = choose|k: int| 0 <= k < r@.len() && r@[k] == e;
                }
            }
            i = i + 1;
        }
        assert forall|e: usize| r@.contains(e) ==> e < i by {
            if r@.contains(e) {
                let k = choose|k: int| 0 <= k < r@.len() && r@[k] == e;
            }
        }
        r
    }

    /// Whether `a` and `b` add exactly the same edges to the record.
    pub fn same_novel(&self, a: &CoverageSignature, b: &CoverageSignature) -> (r: bool)
        requires
            a.map_len() == self.map_len(),
            b.map_len() == self.map_len(),
        ensures
            r == (a.edges().difference(self.edges()) == b.edges().difference(self.edges())),
    {
        let mut i: usize = 0;
        while i < self.seen.len()
            invariant
                i <= self.seen@.len(),
                a.map_len() == self.map_len(),
                b.map_len() == self.map_len(),
                forall|k: int| 0 <= k < i ==> ((a.hits@[k] != 0 && !self.seen@[k]) == (b.hits@[k] != 0 && !self.seen@[k])),
            decreases self.seen@.len() - i,
        {
            let na = a.hits[i] != 0 && !self.seen[i];
            let nb = b.hits[i] != 0 && !self.seen[i];
            if na != nb {
                proof {
                    let k = i as int;
                    if na {
                        assert(a.edges().difference(self.edges()).contains(k));
                        assert(!b.edges().difference(self.edges()).contains(k));
                    } else {
                        assert(b.edges().difference(self.edges()).contains(k));
                        assert(!a.edges().difference(self.edges()).contains(k));
                    }
                }
                return false;
            }
            i = i + 1;
        }
        assert(a.edges().difference(self.edges()) =~= b.edges().difference(self.edges()));
        true
    }

    /// Adds the edges of `sig` to the record; returns whether any was new.
    pub fn merge(&mut self, sig: &CoverageSignature) -> (novel: bool)
        requires
            sig.map_len() == old(self).map_len(),
        ensures
            novel == adds_edge(old(self).edges(), sig.edges()),
            final(self).edges() == old(self).edges().union(sig.edges()),
            final(self).map_len() == old(self).map_len(),
    {
        let ghost before = self.edges();
        let ghost start = self.seen@;
        let mut next: Vec<bool> = Vec::new();
        let mut novel = false;
        let mut i: usize = 0;
        while i < sig.hits.len()
            invariant
                i <= sig.hits@.len(),
                sig.map_len() == self.map_len(),
                start == self.seen@,
                next@.len() == i,
                forall|k: int| 0 <= k < i ==> next@[k] == (start[k] || sig.hits@[k] != 0),
                novel == exists|k: int| 0 <= k < i && sig.hits@[k] != 0 && !start[k],
            decreases sig.hits@.len() - i,
        {
            let hit = sig.hits[i] != 0;
            if hit && !self.seen[i] {
                novel = true;
                assert(sig.hits@[i as int] != 0 && !start[i as int]);
            }
            next.push(self.seen[i] || hit);
            assert(novel == exists|k: int| 0 <= k < i + 1 && sig.hits@[k] != 0 && !start[k]);
            i = i + 1;
        }
        self.seen = next;
        assert(self.edges() =~= before.union(sig.edges()));
        assert(novel == adds_edge(before, sig.edges())) by {
            if novel {
                let k = choose|k: int| 0 <= k < i && sig.hits@[k] != 0 && !start[k];
                assert(sig.edges().contains(k) && !before.contains(k));
            }
        }
        novel
    }
}

/// The observed edges below `n`.
pub open spec fn seen_prefix(seen: Seq<bool>, n: int) -> Set<int> {
    Set::new(|e: int| 0 <= e < n && e < seen.len() && seen[e])
}

proof fn lemma_seen_prefix_step(seen: Seq<bool>, n: int)
    requires
        0 <= n < seen.len(),
        seen_prefix(seen, n).finite(),
    ensures
        seen_prefix(seen, n + 1).finite(),
        seen[n] ==> seen_prefix(seen, n + 1).len() == seen_prefix(seen, n).len() + 1,
        !seen[n] ==> seen_prefix(seen, n + 1).len() == seen_prefix(seen, n).len(),
{
    if seen[n] {
        assert(seen_prefix(seen, n + 1) =~= seen_prefix(seen, n).insert(n));
    } else {
        assert(seen_prefix(seen, n + 1) =~= seen_prefix(seen, n));
    }
}

/// After each merge the cumulative edge set holds every edge it held before:
/// along any history of merges, an earlier state is a subset of a later one.
pub proof fn lemma_coverage_monotone(history: Seq<Set<int>>, runs: Seq<Set<int>>, i: int, j: int)
    requires
        history.len() == runs.len() + 1,
        forall|k: int| 0 <= k < runs.len() ==> history[k + 1] == history[k].union(#[trigger] runs[k]),
        0 <= i <= j < history.len(),
    ensures
        history[i].subset_of(history[j]),
    decreases j - i,
{
    if i < j {
        lemma_coverage_monotone(history, runs, i, j - 1);
        let k = j - 1;
        assert(history[k + 1] == history[k].union(runs[k]));
    }
}

/// A run whose edges were all observed before adds nothing.
pub proof fn lemma_known_edges_not_novel(seen: Set<int>, run: Set<int>)
    requires
        run.subset_of(seen),
    ensures
        !adds_edge(seen, run),
        seen.union(run) == seen,
{
    assert(seen.union(run) =~= seen);
}

} // verus!
