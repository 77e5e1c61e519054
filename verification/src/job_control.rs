//! Job control book-keeping: the job table, job states and the reaping of
//! finished jobs.  Spawning processes and waiting on them is left to the
//! caller, which registers each job here and reports when it ends.
use vstd::prelude::*;
use crate::text::owned;

verus! {

/// The state of a job.
#[derive(Debug, Clone, Copy, PartialEq, Eq, Structural)]
pub enum JobState {
    /// Running in the foreground.
    Foreground,
    /// Running in the background.
    Background,
    /// Stopped (by SIGTSTP).
    Stopped,
    /// Finished (exit code not collected yet).
    Done,
}

/// A job in the foreground or the background is running.
pub open spec fn running(s: JobState) -> bool {
    s == JobState::Foreground || s == JobState::Background
}

impl JobState {
    /// Whether the job is still running.
    pub fn is_running(self) -> (r: bool)
        ensures
            r == running(self),
    {
        match self {
            JobState::Foreground | JobState::Background => true,
            _ => false,
        }
    }
}

/// A job: one command line, run as one process group.
#[derive(Debug)]
pub struct Job {
    /// Job number in the shell (from 1).
    pub id: u32,
    /// Process group id (the leader's pid).
    pub pgid: u32,
    /// The command line, as the user typed it.
    pub command: String,
    /// State.
    pub state: JobState,
    /// Exit code (once `Done`, when the process reported one).
    pub exit_code: Option<i32>,
}

/// The abstract form of a job.
pub struct JobSpec {
    pub pgid: u32,
    pub command: Seq<char>,
    pub state: JobState,
    pub exit_code: Option<i32>,
}

impl Job {
    /// The abstract form of this job.
    pub open spec fn spec(&self) -> JobSpec {
        JobSpec {
            pgid: self.pgid,
            command: self.command@,
            state: self.state,
            exit_code: self.exit_code,
        }
    }
}

/// The job table, ordered by job number.
pub struct JobControl {
    jobs: Vec<Job>,
    next_id: u32,
}

/// Job numbers strictly increasing and at most `next_id`.
pub open spec fn ids_ordered(jobs: Seq<Job>, next_id: u32) -> bool {
    &&& forall|i: int, j: int| 0 <= i < j < jobs.len() ==> #[trigger] jobs[i].id < #[trigger] jobs[j].id
    &&& forall|i: int| 0 <= i < jobs.len() ==> #[trigger] jobs[i].id <= next_id
}

/// The table as a map from job number to job.
pub open spec fn table_of(jobs: Seq<Job>) -> Map<u32, JobSpec> {
    Map::new(
        |id: u32| exists|i: int| 0 <= i < jobs.len() && (#[trigger] jobs[i]).id == id,
        |id: u32| jobs[choose|i: int| 0 <= i < jobs.len() && (#[trigger] jobs[i]).id == id].spec(),
    )
}

impl View for JobControl {
    type V = Map<u32, JobSpec>;

    closed spec fn view(&self) -> Map<u32, JobSpec> {
        table_of(self.jobs@)
    }
}

proof fn lemma_table_at(jobs: Seq<Job>, next_id: u32, i: int)
    requires
        ids_ordered(jobs, next_id),
        0 <= i < jobs.len(),
    ensures
        table_of(jobs).contains_key(jobs[i].id),
        table_of(jobs)[jobs[i].id] == jobs[i].spec(),
{
    let k = choose|k: int| 0 <= k < jobs.len() && (#[trigger] jobs[k]).id == jobs[i].id;
    if k < i {
        assert(jobs[k].id < jobs[i].id);
    } else if k > i {
        assert(jobs[i].id < jobs[k].id);
    }
}

impl JobControl {
    /// The last job number handed out (0 before the first job).
    pub closed spec fn last_id(&self) -> u32 {
        self.next_id
    }

    #[verifier::type_invariant]
    closed spec fn ordered(&self) -> bool {
        ids_ordered(self.jobs@, self.next_id)
    }

    /// An empty job table.
    pub fn new() -> (jc: JobControl)
        ensures
            jc@ == Map::<u32, JobSpec>::empty(),
            jc.last_id() == 0,
    {
        let jc = JobControl { jobs: Vec::new(), next_id: 0 };
        assert(jc@ =~= Map::<u32, JobSpec>::empty());
        jc
    }

    /// The last job number handed out (0 before the first job).
    pub fn last_job_id(&self) -> (r: u32)
        ensures
            r == self.last_id(),
    {
        self.next_id
    }

    /// Number of jobs.
    pub fn len(&self) -> (r: usize)
        ensures
            r == self@.len(),
    {
        proof {
            use_type_invariant(self);
            lemma_table_len(self.jobs@, self.next_id);
        }
        self.jobs.len()
    }

    /// Whether there is no job.
    pub fn is_empty(&self) -> (r: bool)
        ensures
            r == (self@.len() == 0),
    {
        self.len() == 0
    }

    /// The jobs, by job number.
    pub fn jobs(&self) -> (r: &[Job])
        ensures
            forall|i: int, j: int| 0 <= i < j < r@.len() ==> #[trigger] r@[i].id < #[trigger] r@[j].id,
            forall|i: int|
                0 <= i < r@.len() ==> self@.contains_key(#[trigger] r@[i].id) && self@[r@[i].id]
                    == r@[i].spec(),
            r@.len() == self@.len(),
    {
        proof {
            use_type_invariant(self);
            lemma_table_len(self.jobs@, self.next_id);
            assert forall|i: int| 0 <= i < self.jobs@.len() implies self@.contains_key(
                #[trigger] self.jobs@[i].id,
            ) && self@[self.jobs@[i].id] == self.jobs@[i].spec() by {
                lemma_table_at(self.jobs@, self.next_id, i);
            }
        }
        self.jobs.as_slice()
    }

    /// The job with number `id`.
    pub fn get(&self, id: u32) -> (r: Option<&Job>)
        ensures
            match r {
                Some(j) => self@.contains_key(id) && j.id == id && self@[id] == j.spec(),
                None => !self@.contains_key(id),
            },
    {
        proof {
            use_type_invariant(self);
        }
        let mut i: usize = 0;
        while i < self.jobs.len()
            invariant
                i <= self.jobs@.len(),
                ids_ordered(self.jobs@, self.next_id),
                forall|k: int| 0 <= k < i ==> (#[trigger] self.jobs@[k]).id != id,
            decreases self.jobs@.len() - i,
        {
            if self.jobs[i].id == id {
                proof {
                    lemma_table_at(self.jobs@, self.next_id, i as int);
                }
                return Some(&self.jobs[i]);
            }
            i = i + 1;
        }
        None
    }

    /// Registers a new background job for a spawned process group; returns
    /// its number (one more than the last one).
    pub fn register(&mut self, pgid: u32, command: &str) -> (id: u32)
        requires
            old(self).last_id() < u32::MAX,
        ensures
            id == old(self).last_id() + 1,
            final(self).last_id() == id,
            !old(self)@.contains_key(id),
            final(self)@ == old(self)@.insert(
                id,
                JobSpec { pgid, command: command@, state: JobState::Background, exit_code: None },
            ),
    {
        proof {
            use_type_invariant(&*self);
        }
        let id = self.next_id + 1;
        let mut v: Vec<Job> = Vec::new();
        std::mem::swap(&mut v, &mut self.jobs);
        let ghost old_v = v@;
        v.push(Job { id, pgid, command: owned(command), state: JobState::Background, exit_code: None });
        proof {
            assert(!table_of(old_v).contains_key(id)) by {
                if table_of(old_v).contains_key(id) {
                    let k = choose|k: int| 0 <= k < old_v.len() && (#[trigger] old_v[k]).id == id;
                    assert(old_v[k].id <= self.next_id);
                }
            }
            assert(ids_ordered(v@, id));
            lemma_table_push(old_v, self.next_id, v@.last());
        }
        self.next_id = id;
        self.jobs = v;
        id
    }

    /// Records that the job `id` ended (with the exit code, when the
    /// process reported one).  Only running jobs change.
    pub fn finish(&mut self, id: u32, code: Option<i32>)
        ensures
            final(self).last_id() == old(self).last_id(),
            old(self)@.contains_key(id) && running(old(self)@[id].state) ==> final(self)@
                == old(self)@.insert(
                id,
                JobSpec { state: JobState::Done, exit_code: code, ..old(self)@[id] },
            ),
            !(old(self)@.contains_key(id) && running(old(self)@[id].state)) ==> final(self)@
                == old(self)@,
    {
        proof {
            use_type_invariant(&*self);
        }
        let mut i: usize = 0;
        while i < self.jobs.len()
            invariant
                i <= self.jobs@.len(),
                *self == *old(self),
                ids_ordered(self.jobs@, self.next_id),
                forall|k: int| 0 <= k < i ==> (#[trigger] self.jobs@[k]).id != id,
            decreases self.jobs@.len() - i,
        {
            if self.jobs[i].id == id {
                proof {
                    lemma_table_at(self.jobs@, self.next_id, i as int);
                }
                if self.jobs[i].state.is_running() {
                    let mut v: Vec<Job> = Vec::new();
                    std::mem::swap(&mut v, &mut self.jobs);
                    let ghost old_v = v@;
                    let j = v.remove(i);
                    v.insert(
                        i,
                        Job {
                            id: j.id,
                            pgid: j.pgid,
                            command: j.command,
                            state: JobState::Done,
                            exit_code: code,
                        },
                    );
                    proof {
                        assert(v@ =~= old_v.update(i as int, v@[i as int]));
                        lemma_table_update(old_v, self.next_id, i as int, v@[i as int]);
                    }
                    self.jobs = v;
                }
                return;
            }
            i = i + 1;
        }
        proof {
            assert(!table_of(self.jobs@).contains_key(id)) by {
                if table_of(self.jobs@).contains_key(id) {
                    let k = choose|k: int|
                        0 <= k < self.jobs@.len() && (#[trigger] self.jobs@[k]).id == id;
                    assert(self.jobs@[k].id != id);
                }
            }
        }
    }

    /// Removes the finished jobs; returns their number, command and exit
    /// code, by job number.
    pub fn reap_done(&mut self) -> (r: Vec<(u32, String, Option<i32>)>)
        ensures
            final(self).last_id() == old(self).last_id(),
            final(self)@ == old(self)@.restrict(
                old(self)@.dom().filter(|id: u32| old(self)@[id].state != JobState::Done),
            ),
            forall|i: int, j: int|
                0 <= i < j < reaped_view(r@).len() ==> #[trigger] reaped_view(r@)[i].0
                    < #[trigger] reaped_view(r@)[j].0,
            forall|i: int|
                0 <= i < reaped_view(r@).len() ==> old(self)@.contains_key(
                    #[trigger] reaped_view(r@)[i].0,
                ) && old(self)@[reaped_view(r@)[i].0].state == JobState::Done && old(
                    self,
                )@[reaped_view(r@)[i].0].command == reaped_view(r@)[i].1 && old(
                    self,
                )@[reaped_view(r@)[i].0].exit_code == reaped_view(r@)[i].2,
            forall|id: u32|
                old(self)@.contains_key(id) && #[trigger] old(self)@[id].state == JobState::Done
                    ==> exists|i: int| 0 <= i < reaped_view(r@).len() && reaped_view(r@)[i].0 == id,
    {
        proof {
            use_type_invariant(&*self);
        }
        let mut v: Vec<Job> = Vec::new();
        std::mem::swap(&mut v, &mut self.jobs);
        let ghost old_v = v@;
        assert(old_v.len() == v.len());
        let ghost next = self.next_id;
        let mut kept: Vec<Job> = Vec::new();
        let mut out: Vec<(u32, String, Option<i32>)> = Vec::new();
        let mut i: usize = 0;
        let ghost mut ks: Seq<int> = Seq::empty();
        let ghost mut os: Seq<int> = Seq::empty();
        let ghost mut slot: Seq<int> = Seq::empty();
        assert(old_v.skip(0) =~= old_v);
        proof {
            reveal(kept_inv);
            reveal(out_inv);
        }
        while v.len() > 0
            invariant
                ids_ordered(old_v, next),
                i <= old_v.len() <= usize::MAX,
                v@ == old_v.skip(i as int),
                kept_inv(old_v, kept@, ks, slot, i as int),
                out_inv(old_v, reaped_view(out@), os, slot, i as int),
            decreases v@.len(),
        {
            assert(i < old_v.len());
            let j = v.remove(0);
            assert(j == old_v[i as int]);
            assert(v@ =~= old_v.skip(i + 1));
            if j.state == JobState::Done {
                let ghost out0 = reaped_view(out@);
                out.push((j.id, j.command, j.exit_code));
                proof {
                    assert(reaped_view(out@) =~= out0.push(reaped_of(old_v[i as int])));
                    lemma_out_step(old_v, out0, os, slot, i as int);
                    lemma_kept_skip(old_v, kept@, ks, slot, i as int, os.len() as int);
                    slot = slot.push(os.len() as int);
                    os = os.push(i as int);
                }
            } else {
                let ghost kept0 = kept@;
                kept.push(j);
                proof {
                    lemma_kept_step(old_v, kept0, ks, slot, i as int);
                    lemma_out_skip(old_v, reaped_view(out@), os, slot, i as int, ks.len() as int);
                    slot = slot.push(ks.len() as int);
                    ks = ks.push(i as int);
                }
            }
            i = i + 1;
        }
        proof {
            lemma_reap_kept(old_v, next, kept@, ks, slot);
            lemma_reap_out(old_v, next, reaped_view(out@), os, slot);
        }
        self.jobs = kept;
        out
    }
}

/// The reaped triple of a job, viewed.
pub open spec fn reaped_of(j: Job) -> (u32, Seq<char>, Option<i32>) {
    (j.id, j.command@, j.exit_code)
}

/// The view of a list of reaped triples.
pub open spec fn reaped_view(v: Seq<(u32, String, Option<i32>)>) -> Seq<(u32, Seq<char>, Option<i32>)> {
    v.map_values(|t: (u32, String, Option<i32>)| (t.0, t.1@, t.2))
}

/// `kept` holds, in order, the unfinished jobs among the first `i`: `ks`
/// gives the position of each in `old_v`, `slot` the place of each
/// unfinished job in `kept`.
#[verifier::opaque]
spec fn kept_inv(old_v: Seq<Job>, kept: Seq<Job>, ks: Seq<int>, slot: Seq<int>, i: int) -> bool {
    &&& ks.len() == kept.len()
    &&& slot.len() == i
    &&& forall|a: int|
        0 <= a < ks.len() ==> 0 <= #[trigger] ks[a] < i && kept[a] == old_v[ks[a]] && old_v[ks[a]].state
            != JobState::Done
    &&& forall|a: int, b: int| 0 <= a < b < ks.len() ==> #[trigger] ks[a] < #[trigger] ks[b]
    &&& forall|p: int|
        0 <= p < i && old_v[p].state != JobState::Done ==> 0 <= #[trigger] slot[p] < ks.len()
            && ks[slot[p]] == p
}

/// `out` holds, in order, the finished jobs among the first `i`, likewise.
#[verifier::opaque]
spec fn out_inv(old_v: Seq<Job>, out: Seq<(u32, Seq<char>, Option<i32>)>, os: Seq<int>, slot: Seq<int>, i: int) -> bool {
    &&& os.len() == out.len()
    &&& slot.len() == i
    &&& forall|a: int|
        0 <= a < os.len() ==> 0 <= #[trigger] os[a] < i && out[a] == reaped_of(old_v[os[a]])
            && old_v[os[a]].state == JobState::Done
    &&& forall|a: int, b: int| 0 <= a < b < os.len() ==> #[trigger] os[a] < #[trigger] os[b]
    &&& forall|p: int|
        0 <= p < i && old_v[p].state == JobState::Done ==> 0 <= #[trigger] slot[p] < os.len()
            && os[slot[p]] == p
}

proof fn lemma_kept_step(old_v: Seq<Job>, kept: Seq<Job>, ks: Seq<int>, slot: Seq<int>, i: int)
    requires
        0 <= i < old_v.len(),
        old_v[i].state != JobState::Done,
        kept_inv(old_v, kept, ks, slot, i),
    ensures
        kept_inv(old_v, kept.push(old_v[i]), ks.push(i), slot.push(ks.len() as int), i + 1),
{
    reveal(kept_inv);
    let k2 = kept.push(old_v[i]);
    let ks2 = ks.push(i);
    let sl2 = slot.push(ks.len() as int);
    assert forall|a: int| 0 <= a < ks2.len() implies 0 <= #[trigger] ks2[a] < i + 1 && k2[a] == old_v[ks2[a]]
        && old_v[ks2[a]].state != JobState::Done by {
        if a < ks.len() {
            assert(ks2[a] == ks[a] && k2[a] == kept[a]);
        }
    }
    assert forall|a: int, b: int| 0 <= a < b < ks2.len() implies #[trigger] ks2[a] < #[trigger] ks2[b] by {
        assert(ks2[a] == ks[a]);
        if b < ks.len() {
            assert(ks2[b] == ks[b]);
        }
    }
    assert forall|p: int| 0 <= p < i + 1 && old_v[p].state != JobState::Done implies 0 <= #[trigger] sl2[p]
        < ks2.len() && ks2[sl2[p]] == p by {
        if p < i {
            assert(sl2[p] == slot[p]);
            assert(ks2[slot[p]] == ks[slot[p]]);
        }
    }
}

proof fn lemma_kept_skip(old_v: Seq<Job>, kept: Seq<Job>, ks: Seq<int>, slot: Seq<int>, i: int, x: int)
    requires
        0 <= i < old_v.len(),
        old_v[i].state == JobState::Done,
        kept_inv(old_v, kept, ks, slot, i),
    ensures
        kept_inv(old_v, kept, ks, slot.push(x), i + 1),
{
    reveal(kept_inv);
    let sl2 = slot.push(x);
    assert forall|p: int| 0 <= p < i + 1 && old_v[p].state != JobState::Done implies 0 <= #[trigger] sl2[p]
        < ks.len() && ks[sl2[p]] == p by {
        assert(sl2[p] == slot[p]);
    }
}

proof fn lemma_out_step(
    old_v: Seq<Job>,
    out: Seq<(u32, Seq<char>, Option<i32>)>,
    os: Seq<int>,
    slot: Seq<int>,
    i: int,
)
    requires
        0 <= i < old_v.len(),
        old_v[i].state == JobState::Done,
        out_inv(old_v, out, os, slot, i),
    ensures
        out_inv(old_v, out.push(reaped_of(old_v[i])), os.push(i), slot.push(os.len() as int), i + 1),
{
    reveal(out_inv);
    let o2 = out.push(reaped_of(old_v[i]));
    let os2 = os.push(i);
    let sl2 = slot.push(os.len() as int);
    assert forall|a: int| 0 <= a < os2.len() implies 0 <= #[trigger] os2[a] < i + 1 && o2[a] == reaped_of(
        old_v[os2[a]],
    ) && old_v[os2[a]].state == JobState::Done by {
        if a < os.len() {
            assert(os2[a] == os[a] && o2[a] == out[a]);
        }
    }
    assert forall|a: int, b: int| 0 <= a < b < os2.len() implies #[trigger] os2[a] < #[trigger] os2[b] by {
        assert(os2[a] == os[a]);
        if b < os.len() {
            assert(os2[b] == os[b]);
        }
    }
    assert forall|p: int| 0 <= p < i + 1 && old_v[p].state == JobState::Done implies 0 <= #[trigger] sl2[p]
        < os2.len() && os2[sl2[p]] == p by {
        if p < i {
            assert(sl2[p] == slot[p]);
            assert(os2[slot[p]] == os[slot[p]]);
        }
    }
}

proof fn lemma_out_skip(
    old_v: Seq<Job>,
    out: Seq<(u32, Seq<char>, Option<i32>)>,
    os: Seq<int>,
    slot: Seq<int>,
    i: int,
    x: int,
)
    requires
        0 <= i < old_v.len(),
        old_v[i].state != JobState::Done,
        out_inv(old_v, out, os, slot, i),
    ensures
        out_inv(old_v, out, os, slot.push(x), i + 1),
{
    reveal(out_inv);
    let sl2 = slot.push(x);
    assert forall|p: int| 0 <= p < i + 1 && old_v[p].state == JobState::Done implies 0 <= #[trigger] sl2[p]
        < os.len() && os[sl2[p]] == p by {
        assert(sl2[p] == slot[p]);
    }
}

proof fn lemma_reap_kept(old_v: Seq<Job>, next: u32, kept: Seq<Job>, ks: Seq<int>, slot: Seq<int>)
    requires
        ids_ordered(old_v, next),
        kept_inv(old_v, kept, ks, slot, old_v.len() as int),
    ensures
        ids_ordered(kept, next),
        table_of(kept) == table_of(old_v).restrict(
            table_of(old_v).dom().filter(|id: u32| table_of(old_v)[id].state != JobState::Done),
        ),
{
    reveal(kept_inv);
    let om = table_of(old_v);
    let km = table_of(kept);
    assert forall|a: int, b: int| 0 <= a < b < kept.len() implies #[trigger] kept[a].id < #[trigger] kept[b].id by {
        assert(ks[a] < ks[b]);
        assert(old_v[ks[a]].id < old_v[ks[b]].id);
    }
    assert forall|a: int| 0 <= a < kept.len() implies #[trigger] kept[a].id <= next by {
        assert(old_v[ks[a]].id <= next);
    }
    let want = om.restrict(om.dom().filter(|id: u32| om[id].state != JobState::Done));
    assert forall|id: u32| #[trigger] km.contains_key(id) <==> want.contains_key(id) by {
        if km.contains_key(id) {
            let a = choose|a: int| 0 <= a < kept.len() && (#[trigger] kept[a]).id == id;
            assert(0 <= ks[a] < old_v.len());
            lemma_table_at(old_v, next, ks[a]);
        }
        if want.contains_key(id) {
            let p = choose|p: int| 0 <= p < old_v.len() && (#[trigger] old_v[p]).id == id;
            lemma_table_at(old_v, next, p);
            assert(0 <= slot[p] < ks.len());
            assert(kept[slot[p]] == old_v[p]);
        }
    }
    assert forall|id: u32| #[trigger] km.contains_key(id) implies km[id] == want[id] by {
        let a = choose|a: int| 0 <= a < kept.len() && (#[trigger] kept[a]).id == id;
        assert(0 <= ks[a] < old_v.len());
        lemma_table_at(old_v, next, ks[a]);
        lemma_table_at(kept, next, a);
    }
    assert(km =~= want);
}

proof fn lemma_reap_out(
    old_v: Seq<Job>,
    next: u32,
    out: Seq<(u32, Seq<char>, Option<i32>)>,
    os: Seq<int>,
    slot: Seq<int>,
)
    requires
        ids_ordered(old_v, next),
        out_inv(old_v, out, os, slot, old_v.len() as int),
    ensures
        forall|a: int, b: int| 0 <= a < b < out.len() ==> #[trigger] out[a].0 < #[trigger] out[b].0,
        forall|a: int|
            0 <= a < out.len() ==> table_of(old_v).contains_key(#[trigger] out[a].0)
                && table_of(old_v)[out[a].0].state == JobState::Done && table_of(old_v)[out[a].0].command
                == out[a].1 && table_of(old_v)[out[a].0].exit_code == out[a].2,
        forall|id: u32|
            table_of(old_v).contains_key(id) && #[trigger] table_of(old_v)[id].state == JobState::Done
                ==> exists|a: int| 0 <= a < out.len() && out[a].0 == id,
{
    reveal(out_inv);
    let om = table_of(old_v);
    assert forall|a: int, b: int| 0 <= a < b < out.len() implies #[trigger] out[a].0 < #[trigger] out[b].0 by {
        assert(os[a] < os[b]);
        assert(old_v[os[a]].id < old_v[os[b]].id);
    }
    assert forall|a: int| 0 <= a < out.len() implies om.contains_key(#[trigger] out[a].0)
        && om[out[a].0].state == JobState::Done && om[out[a].0].command == out[a].1
        && om[out[a].0].exit_code == out[a].2 by {
        assert(0 <= os[a] < old_v.len());
        lemma_table_at(old_v, next, os[a]);
    }
    assert forall|id: u32| om.contains_key(id) && #[trigger] om[id].state == JobState::Done implies exists|a: int|
        0 <= a < out.len() && out[a].0 == id by {
        let p = choose|p: int| 0 <= p < old_v.len() && (#[trigger] old_v[p]).id == id;
        lemma_table_at(old_v, next, p);
        assert(0 <= slot[p] < os.len());
        assert(out[slot[p]].0 == id);
    }
}

proof fn lemma_table_len(jobs: Seq<Job>, next_id: u32)
    requires
        ids_ordered(jobs, next_id),
    ensures
        table_of(jobs).dom().finite(),
        table_of(jobs).len() == jobs.len(),
    decreases jobs.len(),
{
    if jobs.len() == 0 {
        assert(table_of(jobs).dom() =~= Set::<u32>::empty());
    } else {
        let t = jobs.drop_last();
        assert(ids_ordered(t, next_id)) by {
            assert forall|i: int, j: int| 0 <= i < j < t.len() implies #[trigger] t[i].id < #[trigger] t[j].id by {
                assert(t[i] == jobs[i] && t[j] == jobs[j]);
            }
            assert forall|i: int| 0 <= i < t.len() implies #[trigger] t[i].id <= next_id by {
                assert(t[i] == jobs[i]);
            }
        }
        lemma_table_len(t, next_id);
        let last = jobs.last().id;
        assert(table_of(jobs).dom() =~= table_of(t).dom().insert(last)) by {
            assert forall|id: u32| table_of(jobs).dom().contains(id) <==> table_of(t).dom().insert(last).contains(id) by {
                if table_of(jobs).dom().contains(id) {
                    let k = choose|k: int| 0 <= k < jobs.len() && (#[trigger] jobs[k]).id == id;
                    if k < t.len() {
                        assert(t[k] == jobs[k]);
                    }
                }
                if table_of(t).dom().contains(id) {
                    let k = choose|k: int| 0 <= k < t.len() && (#[trigger] t[k]).id == id;
                    assert(t[k] == jobs[k]);
                }
                if id == last {
                    assert(jobs[jobs.len() - 1].id == id);
                }
            }
        }
        assert(!table_of(t).dom().contains(last)) by {
            if table_of(t).dom().contains(last) {
                let k = choose|k: int| 0 <= k < t.len() && (#[trigger] t[k]).id == last;
                assert(t[k] == jobs[k]);
                assert(jobs[k].id < jobs[jobs.len() - 1].id);
            }
        }
    }
}

proof fn lemma_table_push(jobs: Seq<Job>, next_id: u32, j: Job)
    requires
        ids_ordered(jobs, next_id),
        next_id < j.id,
    ensures
        table_of(jobs.push(j)) == table_of(jobs).insert(j.id, j.spec()),
{
    let s = jobs.push(j);
    assert(ids_ordered(s, j.id)) by {
        assert forall|a: int, b: int| 0 <= a < b < s.len() implies #[trigger] s[a].id < #[trigger] s[b].id by {
            if b < jobs.len() {
                assert(s[a] == jobs[a] && s[b] == jobs[b]);
            } else {
                assert(s[a] == jobs[a]);
                assert(jobs[a].id <= next_id);
            }
        }
        assert forall|a: int| 0 <= a < s.len() implies #[trigger] s[a].id <= j.id by {
            if a < jobs.len() {
                assert(s[a] == jobs[a]);
                assert(jobs[a].id <= next_id);
            }
        }
    }
    assert forall|id: u32| #[trigger] table_of(s).contains_key(id) <==> table_of(jobs).insert(j.id, j.spec()).contains_key(id) by {
        if table_of(s).contains_key(id) {
            let k = choose|k: int| 0 <= k < s.len() && (#[trigger] s[k]).id == id;
            if k < jobs.len() {
                assert(s[k] == jobs[k]);
            }
        }
        if table_of(jobs).contains_key(id) {
            let k = choose|k: int| 0 <= k < jobs.len() && (#[trigger] jobs[k]).id == id;
            assert(s[k] == jobs[k]);
        }
        if id == j.id {
            assert(s[jobs.len() as int].id == id);
        }
    }
    assert forall|id: u32| #[trigger] table_of(s).contains_key(id) implies table_of(s)[id] == table_of(jobs).insert(j.id, j.spec())[id] by {
        let k = choose|k: int| 0 <= k < s.len() && (#[trigger] s[k]).id == id;
        lemma_table_at(s, j.id, k);
        if k < jobs.len() {
            assert(s[k] == jobs[k]);
            lemma_table_at(jobs, next_id, k);
        }
    }
    assert(table_of(s) =~= table_of(jobs).insert(j.id, j.spec()));
}

proof fn lemma_table_update(jobs: Seq<Job>, next_id: u32, i: int, j: Job)
    requires
        ids_ordered(jobs, next_id),
        0 <= i < jobs.len(),
        j.id == jobs[i].id,
    ensures
        ids_ordered(jobs.update(i, j), next_id),
        table_of(jobs.update(i, j)) == table_of(jobs).insert(j.id, j.spec()),
{
    let s = jobs.update(i, j);
    assert(ids_ordered(s, next_id)) by {
        assert forall|a: int, b: int| 0 <= a < b < s.len() implies #[trigger] s[a].id < #[trigger] s[b].id by {
            assert(s[a].id == jobs[a].id && s[b].id == jobs[b].id);
        }
        assert forall|a: int| 0 <= a < s.len() implies #[trigger] s[a].id <= next_id by {
            assert(s[a].id == jobs[a].id);
        }
    }
    assert forall|id: u32| #[trigger] table_of(s).contains_key(id) <==> table_of(jobs).insert(j.id, j.spec()).contains_key(id) by {
        if table_of(s).contains_key(id) {
            let k = choose|k: int| 0 <= k < s.len() && (#[trigger] s[k]).id == id;
            assert(s[k].id == jobs[k].id);
        }
        if table_of(jobs).contains_key(id) {
            let k = choose|k: int| 0 <= k < jobs.len() && (#[trigger] jobs[k]).id == id;
            assert(s[k].id == jobs[k].id);
        }
        if id == j.id {
            assert(s[i].id == id);
        }
    }
    assert forall|id: u32| #[trigger] table_of(s).contains_key(id) implies table_of(s)[id] == table_of(jobs).insert(j.id, j.spec())[id] by {
        let k = choose|k: int| 0 <= k < s.len() && (#[trigger] s[k]).id == id;
        lemma_table_at(s, next_id, k);
        if k != i {
            assert(s[k] == jobs[k]);
            lemma_table_at(jobs, next_id, k);
        }
    }
    assert(table_of(s) =~= table_of(jobs).insert(j.id, j.spec()));
}

} // verus!
