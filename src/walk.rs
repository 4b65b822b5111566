//! The orchestrator's depth-first walk, kept as an explicit work queue so a
//! deep tree needs no deep call stack.
//!
//! A directory that is recursed into is followed by its children in the order
//! the filesystem listed them, each child's whole subtree before the next
//! child, and only then by the replication of the directory's own metadata.
use vstd::prelude::*;
use vstd::slice::slice_to_vec;

verus! {

/// A unit of work of the walk.
#[derive(Debug)]
pub enum WalkJob {
    /// Copy the source node at `src` into the directory `dst_dir`.
    Copy { src: Vec<u8>, dst_dir: Vec<u8> },
    /// Replicate the metadata of directory `src` onto `dst`, once its
    /// children are done.
    Finish { src: Vec<u8>, dst: Vec<u8> },
}

/// A job as plain paths.
pub ghost enum JobView {
    Copy(Seq<u8>, Seq<u8>),
    Finish(Seq<u8>, Seq<u8>),
}

impl View for WalkJob {
    type V = JobView;

    open spec fn view(&self) -> JobView {
        match self {
            WalkJob::Copy { src, dst_dir } => JobView::Copy(src@, dst_dir@),
            WalkJob::Finish { src, dst } => JobView::Finish(src@, dst@),
        }
    }
}

/// A sequence in reverse order.
pub open spec fn reversed<A>(s: Seq<A>) -> Seq<A> {
    Seq::new(s.len(), |i: int| s[s.len() - 1 - i])
}

/// The jobs that copy each child into `dst`, in the order given.
pub open spec fn child_jobs(children: Seq<Vec<u8>>, dst: Seq<u8>) -> Seq<JobView> {
    Seq::new(children.len(), |i: int| JobView::Copy(children[i]@, dst))
}

/// The pending work of a walk.
pub struct Walk {
    /// Pending jobs; the last is taken first.
    stack: Vec<WalkJob>,
}

impl View for Walk {
    type V = Seq<JobView>;

    /// The pending jobs in the order they will be taken.
    closed spec fn view(&self) -> Seq<JobView> {
        reversed(self.stack@.map_values(|j: WalkJob| j@))
    }
}

impl Walk {
    /// A walk that starts by copying `src` into `dst_dir`.
    pub fn new(src: &[u8], dst_dir: &[u8]) -> (r: Walk)
        ensures
            r@ == seq![JobView::Copy(src@, dst_dir@)],
    {
        let mut stack: Vec<WalkJob> = Vec::new();
        stack.push(WalkJob::Copy { src: slice_to_vec(src), dst_dir: slice_to_vec(dst_dir) });
        let r = Walk { stack };
        assert(r@ =~= seq![JobView::Copy(src@, dst_dir@)]);
        r
    }

    /// Whether no work is left.
    pub fn is_done(&self) -> (r: bool)
        ensures
            r == (self@.len() == 0),
    {
        self.stack.len() == 0
    }

    /// Takes the next job, if any.
    pub fn next(&mut self) -> (r: Option<WalkJob>)
        ensures
            old(self)@.len() == 0 ==> r is None && final(self)@ == old(self)@,
            old(self)@.len() > 0 ==> r is Some && r->0@ == old(self)@[0]
                && final(self)@ == old(self)@.subrange(1, old(self)@.len() as int),
    {
        let ghost before = self.stack@.map_values(|j: WalkJob| j@);
        let r = self.stack.pop();
        proof {
            if before.len() > 0 {
                let after = self.stack@.map_values(|j: WalkJob| j@);
                assert(after =~= before.drop_last());
                assert(reversed(after) =~= reversed(before).subrange(1, before.len() as int));
            }
        }
        r
    }

    /// Queues the children of directory `src`, copied into `dst`, ahead of
    /// all other pending work, in the order given, followed by the
    /// replication of the directory's metadata.
    pub fn enter_dir(&mut self, src: &[u8], dst: &[u8], children: Vec<Vec<u8>>)
        ensures
            final(self)@ == child_jobs(children@, dst@) + seq![JobView::Finish(src@, dst@)] + old(self)@,
    {
        let ghost start = self.stack@.map_values(|j: WalkJob| j@);
        self.stack.push(WalkJob::Finish { src: slice_to_vec(src), dst: slice_to_vec(dst) });
        let n = children.len();
        let mut i: usize = n;
        while i > 0
            invariant
                i <= n,
                n == children@.len(),
                self.stack@.map_values(|j: WalkJob| j@)
                    =~= start + seq![JobView::Finish(src@, dst@)] + reversed(child_jobs(children@, dst@).subrange(i as int, n as int)),
            decreases i,
        {
            i = i - 1;
            let child = slice_to_vec(children[i].as_slice());
            let ghost before = self.stack@.map_values(|j: WalkJob| j@);
            self.stack.push(WalkJob::Copy { src: child, dst_dir: slice_to_vec(dst) });
            proof {
                let jobs = child_jobs(children@, dst@);
                assert(reversed(jobs.subrange(i as int, n as int))
                    =~= reversed(jobs.subrange(i + 1, n as int)).push(jobs[i as int]));
                assert(self.stack@.map_values(|j: WalkJob| j@) =~= before.push(jobs[i as int]));
            }
        }
        proof {
            let jobs = child_jobs(children@, dst@);
            assert(jobs.subrange(0, n as int) =~= jobs);
            let all = start + seq![JobView::Finish(src@, dst@)] + reversed(jobs);
            assert(reversed(all) =~= jobs + seq![JobView::Finish(src@, dst@)] + reversed(start));
        }
    }
}

} // verus!
