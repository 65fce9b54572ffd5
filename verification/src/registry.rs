//! Directory registry: the shared, deduplicated record of destination
//! directories created during one run. Workers register every directory they
//! ensure; the registry keeps each distinct path exactly once, so the
//! end-of-run report never names a directory twice.
use vstd::prelude::*;

verus! {

/// The deduplicated record of directories created during one run.
///
/// The registry itself is sequential; a run shares one instance across its
/// workers behind a mutual-exclusion lock, and the exactly-once guarantee
/// below then holds of every interleaving of `register` calls.
pub struct DirRegistry {
    paths: Vec<String>,
}

impl DirRegistry {
    /// The recorded paths, as character sequences, in registration order.
    pub closed spec fn paths_seq(self) -> Seq<Seq<char>> {
        self.paths@.map_values(|p: String| p@)
    }

    /// Well-formed: no path is recorded twice.
    pub open spec fn wf(self) -> bool {
        forall|i: int, j: int|
            0 <= i < j < self.paths_seq().len() ==> self.paths_seq()[i] != self.paths_seq()[j]
    }

    /// An empty registry.
    pub fn new() -> (r: DirRegistry)
        ensures
            r.wf(),
            r.paths_seq() == Seq::<Seq<char>>::empty(),
    {
        let r = DirRegistry { paths: Vec::new() };
        proof {
            assert(r.paths_seq() =~= Seq::<Seq<char>>::empty());
        }
        r
    }

    /// Whether `p` is already recorded.
    pub fn contains(&self, p: &str) -> (r: bool)
        ensures
            r == self.paths_seq().contains(p@),
    {
        let mut i: usize = 0;
        while i < self.paths.len()
            invariant
                0 <= i <= self.paths@.len(),
                forall|j: int| 0 <= j < i ==> self.paths_seq()[j] != p@,
            decreases self.paths@.len() - i,
        {
            if crate::classify::str_eq(self.paths[i].as_str(), p) {
                assert(self.paths_seq()[i as int] == p@);
                return true;
            }
            i = i + 1;
        }
        false
    }

    /// Records `p` unless it is already recorded. Returns whether this call
    /// was the one that recorded it: exactly one `register` call per
    /// distinct path ever returns `true`, and a duplicate call leaves the
    /// record unchanged.
    pub fn register(&mut self, p: String) -> (newly: bool)
        requires
            old(self).wf(),
        ensures
            final(self).wf(),
            newly == !old(self).paths_seq().contains(p@),
            newly ==> final(self).paths_seq() == old(self).paths_seq().push(p@),
            !newly ==> final(self).paths_seq() == old(self).paths_seq(),
            final(self).paths_seq().contains(p@),
    {
        if self.contains(p.as_str()) {
            return false;
        }
        let ghost before = self.paths_seq();
        self.paths.push(p);
        proof {
            assert(self.paths_seq() =~= before.push(p@));
            assert(self.paths_seq()[before.len() as int] == p@);
        }
        true
    }

    /// The recorded paths, for the end-of-run report.
    pub fn paths(&self) -> (r: &Vec<String>)
        ensures
            r@.map_values(|p: String| p@) == self.paths_seq(),
    {
        &self.paths
    }

    /// Law: the registry never reports the same directory path twice — any
    /// two distinct positions of the report hold distinct paths.
    pub proof fn lemma_reports_each_path_once(self, i: int, j: int)
        requires
            self.wf(),
            0 <= i < self.paths_seq().len(),
            0 <= j < self.paths_seq().len(),
            i != j,
        ensures
            self.paths_seq()[i] != self.paths_seq()[j],
    {
    }
}

} // verus!
