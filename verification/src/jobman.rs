//! Running tool invocations, keyed by the id of the `tools/call` request
//! that started them.
//!
//! The manager owns the record of which requests have a live job; the task
//! handles themselves run with the embedder, which feeds the events each
//! task produced into `polling` on the server. An event only turns into
//! output while its job is still held: once a job is cancelled or done,
//! nothing more goes out under its id, which is the cancellation-safety
//! law.

use vstd::prelude::*;

use crate::rpc::{IdVal, RequestId};
use crate::schema::LoadType;
use crate::transport::ChainContext;

verus! {

/// One event out of a running task.
pub enum TaskEvent {
    /// A typed fragment of output.
    Data(LoadType, String),
    /// The task finished; its job is evicted.
    Done,
    /// The task noticed its cancellation.
    Cancelled,
}

/// Whether the job list holds the id.
pub open spec fn has_job(jobs: Seq<(RequestId, Option<ChainContext>)>, id: IdVal) -> bool {
    exists|i: int| 0 <= i < jobs.len() && (#[trigger] jobs[i].0)@ == id
}

/// Each id appears at most once in the job list.
pub open spec fn unique_ids(jobs: Seq<(RequestId, Option<ChainContext>)>) -> bool {
    forall|i: int, j: int|
        0 <= i < j < jobs.len() ==> (#[trigger] jobs[i].0)@ != (#[trigger] jobs[j].0)@
}

/// Two job lists whose ids read the same hold the same jobs.
proof fn lemma_same_ids(
    a: Seq<(RequestId, Option<ChainContext>)>,
    b: Seq<(RequestId, Option<ChainContext>)>,
)
    requires
        a.len() == b.len(),
        forall|k: int| 0 <= k < a.len() ==> (#[trigger] a[k].0)@ == (#[trigger] b[k].0)@,
    ensures
        forall|id: IdVal| #[trigger] has_job(a, id) == has_job(b, id),
{
    assert forall|id: IdVal| #[trigger] has_job(a, id) == has_job(b, id) by {
        if has_job(a, id) {
            let w = choose|i: int| 0 <= i < a.len() && (#[trigger] a[i].0)@ == id;
            assert(b[w].0@ == id);
        }
        if has_job(b, id) {
            let w = choose|i: int| 0 <= i < b.len() && (#[trigger] b[i].0)@ == id;
            assert(a[w].0@ == id);
        }
    }
}

/// Removing the only entry under an id drops exactly that id.
proof fn lemma_remove_job(jobs: Seq<(RequestId, Option<ChainContext>)>, idx: int)
    requires
        unique_ids(jobs),
        0 <= idx < jobs.len(),
    ensures
        unique_ids(jobs.remove(idx)),
        !has_job(jobs.remove(idx), jobs[idx].0@),
        forall|other: IdVal|
            other != jobs[idx].0@ ==> #[trigger] has_job(jobs.remove(idx), other) == has_job(
                jobs,
                other,
            ),
{
    let removed = jobs.remove(idx);
    assert forall|i: int, j: int| 0 <= i < j < removed.len() implies (#[trigger] removed[i].0)@
        != (#[trigger] removed[j].0)@ by {
        let a = if i < idx {
            i
        } else {
            i + 1
        };
        let b = if j < idx {
            j
        } else {
            j + 1
        };
        assert(removed[i] == jobs[a]);
        assert(removed[j] == jobs[b]);
        assert((jobs[a].0)@ != (jobs[b].0)@);
    }
    if has_job(removed, jobs[idx].0@) {
        let w = choose|i: int|
            0 <= i < removed.len() && (#[trigger] removed[i].0)@ == jobs[idx].0@;
        let a = if w < idx {
            w
        } else {
            w + 1
        };
        assert(removed[w] == jobs[a]);
        if a < idx {
            assert((jobs[a].0)@ != (jobs[idx].0)@);
        } else {
            assert((jobs[idx].0)@ != (jobs[a].0)@);
        }
    }
    assert forall|other: IdVal| other != jobs[idx].0@ implies #[trigger] has_job(removed, other)
        == has_job(jobs, other) by {
        if has_job(jobs, other) {
            let w = choose|i: int| 0 <= i < jobs.len() && (#[trigger] jobs[i].0)@ == other;
            if w < idx {
                assert(removed[w] == jobs[w]);
            } else {
                assert(removed[w - 1] == jobs[w]);
            }
        }
        if has_job(removed, other) {
            let w = choose|i: int| 0 <= i < removed.len() && (#[trigger] removed[i].0)@ == other;
            let a = if w < idx {
                w
            } else {
                w + 1
            };
            assert(removed[w] == jobs[a]);
        }
    }
}

/// The job list with the first entry under `id` dropped, and nothing else.
pub open spec fn remove_first_job(
    jobs: Seq<(RequestId, Option<ChainContext>)>,
    id: IdVal,
) -> Seq<(RequestId, Option<ChainContext>)>
    decreases jobs.len(),
{
    if jobs.len() == 0 {
        jobs
    } else if jobs[0].0@ == id {
        jobs.drop_first()
    } else {
        seq![jobs[0]] + remove_first_job(jobs.drop_first(), id)
    }
}

/// Dropping the first entry under `id` is removal at its first index.
proof fn lemma_remove_first_at(jobs: Seq<(RequestId, Option<ChainContext>)>, idx: int)
    requires
        0 <= idx < jobs.len(),
        forall|j: int| 0 <= j < idx ==> (#[trigger] jobs[j].0)@ != jobs[idx].0@,
    ensures
        remove_first_job(jobs, jobs[idx].0@) =~= jobs.remove(idx),
    decreases idx,
{
    if idx == 0 {
        assert(jobs.remove(0) =~= jobs.drop_first());
    } else {
        assert(jobs.drop_first()[idx - 1] == jobs[idx]);
        assert forall|j: int| 0 <= j < idx - 1 implies (#[trigger] jobs.drop_first()[j].0)@
            != jobs.drop_first()[idx - 1].0@ by {
            assert(jobs.drop_first()[j] == jobs[j + 1]);
        }
        lemma_remove_first_at(jobs.drop_first(), idx - 1);
        assert(jobs.remove(idx)[0] == jobs[0]);
        assert(jobs.remove(idx).drop_first() =~= jobs.drop_first().remove(idx - 1));
    }
}

/// With no entry under `id`, dropping is the identity.
proof fn lemma_remove_first_absent(jobs: Seq<(RequestId, Option<ChainContext>)>, id: IdVal)
    requires
        forall|j: int| 0 <= j < jobs.len() ==> (#[trigger] jobs[j].0)@ != id,
    ensures
        remove_first_job(jobs, id) =~= jobs,
    decreases jobs.len(),
{
    if jobs.len() > 0 {
        assert forall|j: int| 0 <= j < jobs.drop_first().len() implies (
        #[trigger] jobs.drop_first()[j].0)@ != id by {
            assert(jobs.drop_first()[j] == jobs[j + 1]);
        }
        lemma_remove_first_absent(jobs.drop_first(), id);
        assert(seq![jobs[0]] + jobs.drop_first() =~= jobs);
    }
}

/// Every job of the dropped list was a job of the whole list.
pub proof fn lemma_remove_first_subset(
    jobs: Seq<(RequestId, Option<ChainContext>)>,
    id: IdVal,
    other: IdVal,
)
    ensures
        has_job(remove_first_job(jobs, id), other) ==> has_job(jobs, other),
    decreases jobs.len(),
{
    if jobs.len() > 0 {
        let dropped = remove_first_job(jobs, id);
        if jobs[0].0@ == id {
            if has_job(dropped, other) {
                let w = choose|i: int|
                    0 <= i < dropped.len() && (#[trigger] dropped[i].0)@ == other;
                assert(dropped[w] == jobs[w + 1]);
            }
        } else {
            lemma_remove_first_subset(jobs.drop_first(), id, other);
            let rest = remove_first_job(jobs.drop_first(), id);
            if has_job(dropped, other) {
                let w = choose|i: int|
                    0 <= i < dropped.len() && (#[trigger] dropped[i].0)@ == other;
                if w == 0 {
                } else {
                    assert(dropped[w] == rest[w - 1]);
                    assert(has_job(rest, other));
                    let u = choose|i: int|
                        0 <= i < jobs.drop_first().len()
                            && (#[trigger] jobs.drop_first()[i].0)@ == other;
                    assert(jobs[u + 1].0@ == other);
                }
            }
        }
    }
}

/// The owner of the running jobs.
pub struct JobManager {
    pub jobs: Vec<(RequestId, Option<ChainContext>)>,
}

impl JobManager {
    /// Each request id holds at most one job.
    pub open spec fn wf(self) -> bool {
        unique_ids(self.jobs@)
    }

    /// A manager with no jobs.
    pub fn new() -> (r: JobManager)
        ensures
            r.jobs@ =~= Seq::<(RequestId, Option<ChainContext>)>::empty(),
            r.wf(),
    {
        JobManager { jobs: Vec::new() }
    }

    /// Whether a job runs under `id`.
    pub fn has(&self, id: &RequestId) -> (r: bool)
        ensures
            r == has_job(self.jobs@, id@),
    {
        let mut i: usize = 0;
        while i < self.jobs.len()
            invariant
                i <= self.jobs@.len(),
                forall|j: int| 0 <= j < i ==> (#[trigger] self.jobs@[j].0)@ != id@,
            decreases self.jobs@.len() - i,
        {
            if self.jobs[i].0.same_as(id) {
                return true;
            }
            i = i + 1;
        }
        false
    }

    /// Records a job under the id of the request that started it,
    /// replacing any earlier job under the same id.
    #[verifier::loop_isolation(false)]
    pub fn add_job(&mut self, req: RequestId, ctx: Option<ChainContext>)
        requires
            old(self).wf(),
        ensures
            final(self).wf(),
            has_job(final(self).jobs@, req@),
            exists|idx: int|
                0 <= idx < final(self).jobs@.len() && #[trigger] final(self).jobs@[idx] == (
                    req,
                    ctx,
                ),
            forall|other: IdVal|
                other != req@ ==> #[trigger] has_job(final(self).jobs@, other) == has_job(
                    old(self).jobs@,
                    other,
                ),
    {
        let ghost idv = req@;
        let mut i: usize = 0;
        while i < self.jobs.len()
            invariant
                i <= self.jobs@.len(),
                forall|j: int| 0 <= j < i ==> (#[trigger] self.jobs@[j].0)@ != idv,
                *self == *old(self),
            decreases self.jobs@.len() - i,
        {
            if self.jobs[i].0.same_as(&req) {
                proof {
                    let updated = self.jobs@.update(i as int, (req, ctx));
                    assert forall|i2: int, j2: int| 0 <= i2 < j2 < updated.len() implies (
                    #[trigger] updated[i2].0)@ != (#[trigger] updated[j2].0)@ by {
                        assert((self.jobs@[i2].0)@ != (self.jobs@[j2].0)@);
                    }
                    assert forall|k: int|
                        0 <= k < updated.len() implies (#[trigger] updated[k].0)@ == (
                    #[trigger] self.jobs@[k].0)@ by {}
                    lemma_same_ids(updated, self.jobs@);
                    assert(updated[i as int].0@ == idv);
                }
                let ghost widx = i as int;
                self.jobs.set(i, (req, ctx));
                proof {
                    assert(self.jobs@[widx] == (req, ctx));
                }
                return ;
            }
            i = i + 1;
        }
        let ghost oldjobs = self.jobs@;
        self.jobs.push((req, ctx));
        proof {
            assert(self.jobs@[oldjobs.len() as int] == (req, ctx));
            assert(self.jobs@[oldjobs.len() as int].0@ == idv);
            assert forall|i2: int, j2: int| 0 <= i2 < j2 < self.jobs@.len() implies (
            #[trigger] self.jobs@[i2].0)@ != (#[trigger] self.jobs@[j2].0)@ by {
                if j2 < oldjobs.len() {
                    assert((oldjobs[i2].0)@ != (oldjobs[j2].0)@);
                } else {
                    assert((oldjobs[i2].0)@ != idv);
                }
            }
            assert forall|other: IdVal| other != idv implies #[trigger] has_job(
                self.jobs@,
                other,
            ) == has_job(oldjobs, other) by {
                if has_job(oldjobs, other) {
                    let w = choose|i2: int|
                        0 <= i2 < oldjobs.len() && (#[trigger] oldjobs[i2].0)@ == other;
                    assert(self.jobs@[w].0@ == other);
                }
                if has_job(self.jobs@, other) {
                    let w = choose|i2: int|
                        0 <= i2 < self.jobs@.len() && (#[trigger] self.jobs@[i2].0)@ == other;
                    assert(w < oldjobs.len());
                    assert(oldjobs[w].0@ == other);
                }
            }
        }
    }

    /// Evicts the job under `req`, reporting whether one was held. After
    /// this, polling produces nothing more under that id.
    #[verifier::loop_isolation(false)]
    pub fn cancel_job(&mut self, req: &RequestId) -> (r: bool)
        requires
            old(self).wf(),
        ensures
            final(self).wf(),
            !has_job(final(self).jobs@, req@),
            r == has_job(old(self).jobs@, req@),
            final(self).jobs@ == remove_first_job(old(self).jobs@, req@),
            forall|other: IdVal|
                other != req@ ==> #[trigger] has_job(final(self).jobs@, other) == has_job(
                    old(self).jobs@,
                    other,
                ),
    {
        let mut i: usize = 0;
        while i < self.jobs.len()
            invariant
                i <= self.jobs@.len(),
                forall|j: int| 0 <= j < i ==> (#[trigger] self.jobs@[j].0)@ != req@,
                *self == *old(self),
            decreases self.jobs@.len() - i,
        {
            if self.jobs[i].0.same_as(req) {
                proof {
                    lemma_remove_job(self.jobs@, i as int);
                    lemma_remove_first_at(self.jobs@, i as int);
                }
                let _ = self.jobs.remove(i);
                return true;
            }
            i = i + 1;
        }
        proof {
            lemma_remove_first_absent(self.jobs@, req@);
        }
        false
    }

    /// Evicts every job.
    pub fn cancel_all_jobs(&mut self)
        ensures
            final(self).jobs@ =~= Seq::<(RequestId, Option<ChainContext>)>::empty(),
            final(self).wf(),
    {
        self.jobs = Vec::new();
    }
}

} // verus!
