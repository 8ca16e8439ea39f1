use vstd::prelude::*;
use crate::coverage::{adds_edge, CoverageSignature, GlobalCoverageState};

verus! {

/// The edges of `run` that `seen` lacks.
pub open spec fn novel_set(seen: Set<int>, run: Set<int>) -> Set<int> {
    run.difference(seen)
}

pub open spec fn edge_sets(sigs: Seq<CoverageSignature>) -> Seq<Set<int>> {
    sigs.map_values(|s: CoverageSignature| s.edges())
}

/// Candidate `j` displaces candidate `i`: both add the same edges and `j` is
/// smaller, or as small and earlier in the batch.
pub open spec fn displaces(seen: Set<int>, runs: Seq<Set<int>>, sizes: Seq<usize>, i: int, j: int) -> bool {
    &&& j != i
    &&& novel_set(seen, runs[j]) == novel_set(seen, runs[i])
    &&& (sizes[j] < sizes[i] || (sizes[j] == sizes[i] && j < i))
}

/// Candidate `i` of a batch is kept: it adds an edge, and no other candidate
/// that adds the same edges is smaller.
pub open spec fn kept(seen: Set<int>, runs: Seq<Set<int>>, sizes: Seq<usize>, i: int) -> bool {
    &&& adds_edge(seen, runs[i])
    &&& !exists|j: int| 0 <= j < runs.len() && displaces(seen, runs, sizes, i, j)
}

/// Which candidates of a batch, judged against the same record, are kept:
/// of candidates that add an identical set of edges only the smallest
/// stays, the first of them where sizes tie.
pub fn select_retained(global: &GlobalCoverageState, sigs: &Vec<CoverageSignature>, sizes: &Vec<usize>) -> (r: Vec<bool>)
    requires
        sigs@.len() == sizes@.len(),
        forall|i: int| 0 <= i < sigs@.len() ==> (#[trigger] sigs@[i]).map_len() == global.map_len(),
    ensures
        r@.len() == sigs@.len(),
        forall|i: int| 0 <= i < r@.len() ==> r@[i] == kept(global.edges(), edge_sets(sigs@), sizes@, i),
{
    let ghost runs = edge_sets(sigs@);
    let ghost seen = global.edges();
    let mut r: Vec<bool> = Vec::new();
    let mut i: usize = 0;
    while i < sigs.len()
        invariant
            i <= sigs@.len(),
            sigs@.len() == sizes@.len(),
            runs == edge_sets(sigs@),
            seen == global.edges(),
            forall|k: int| 0 <= k < sigs@.len() ==> (#[trigger] sigs@[k]).map_len() == global.map_len(),
            r@.len() == i,
            forall|k: int| 0 <= k < i ==> r@[k] == kept(seen, runs, sizes@, k),
        decreases sigs@.len() - i,
    {
        let mut keep = global.has_novel(&sigs[i]);
        assert(runs[i as int] == sigs@[i as int].edges());
        if keep {
            let mut j: usize = 0;
            while j < sigs.len()
                invariant
                    i < sigs@.len(),
                    j <= sigs@.len(),
                    sigs@.len() == sizes@.len(),
                    runs == edge_sets(sigs@),
                    seen == global.edges(),
                    forall|k: int| 0 <= k < sigs@.len() ==> (#[trigger] sigs@[k]).map_len() == global.map_len(),
                    keep == !exists|m: int| 0 <= m < j && displaces(seen, runs, sizes@, i as int, m),
                decreases sigs@.len() - j,
            {
                let smaller = sizes[j] < sizes[i] || (sizes[j] == sizes[i] && j < i);
                if keep && j != i && smaller {
                    let same = global.same_novel(&sigs[j], &sigs[i]);
                    assert(runs[j as int] == sigs@[j as int].edges());
                    if same {
                        assert(displaces(seen, runs, sizes@, i as int, j as int));
                        keep = false;
                    }
                }
                proof {
                    if keep {
                        assert(runs[j as int] == sigs@[j as int].edges());
                        assert(runs[i as int] == sigs@[i as int].edges());
                        assert(!displaces(seen, runs, sizes@, i as int, j as int));
                    }
                }
                j = j + 1;
            }
        }
        r.push(keep);
        i = i + 1;
    }
    r
}

} // verus!
