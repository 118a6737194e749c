use vstd::prelude::*;
use crate::pipeline::Pipeline;

verus! {

/// The commit a remote branch pointed to when it was last observed.
#[derive(Clone, Debug)]
pub struct Branch {
    pub name: String,
    pub latest_commit_hash: String,
}

/// A remote Git repository under management.
#[derive(Clone, Debug)]
pub struct Project {
    pub url: String,
    pub pipelines: Vec<Pipeline>,
    /// The branch heads seen at the last successful poll.
    pub branches: Vec<Branch>,
    pub persistent: bool,
}

impl Project {
    /// Replaces the branch cache as a whole.
    pub fn update_branches(&mut self, branches: Vec<Branch>)
        ensures
            final(self).branches == branches,
            final(self).url == old(self).url,
            final(self).pipelines == old(self).pipelines,
            final(self).persistent == old(self).persistent,
    {
        self.branches = branches;
    }

    /// Marks the project and each of its pipelines persistent.
    pub fn mark_persistent(&mut self)
        ensures
            final(self).persistent,
            final(self).url == old(self).url,
            final(self).branches == old(self).branches,
            final(self).pipelines@.len() == old(self).pipelines@.len(),
            forall|i: int|
                0 <= i < final(self).pipelines@.len() ==> {
                    let (p, q) = (#[trigger] final(self).pipelines@[i], old(self).pipelines@[i]);
                    p.persistent && p == (Pipeline { persistent: true, ..q })
                },
    {
        self.persistent = true;
        let ghost orig = self.pipelines@;
        let mut pending: Vec<Pipeline> = Vec::new();
        std::mem::swap(&mut self.pipelines, &mut pending);
        let mut done: Vec<Pipeline> = Vec::new();
        while pending.len() > 0
            invariant
                orig == old(self).pipelines@,
                done@.len() + pending@.len() == orig.len(),
                pending@ == orig.subrange(done@.len() as int, orig.len() as int),
                forall|i: int|
                    0 <= i < done@.len() ==> #[trigger] done@[i] == (Pipeline {
                        persistent: true,
                        ..orig[i]
                    }),
            decreases pending@.len(),
        {
            let mut p = pending.remove(0);
            p.persistent = true;
            done.push(p);
            assert(pending@ =~= orig.subrange(done@.len() as int, orig.len() as int));
        }
        self.pipelines = done;
    }
}

} // verus!
