//! The bookkeeping of a concurrent run: each job's outcome is captured on its
//! own, and the run is over only once every job has reached one.
use vstd::prelude::*;

verus! {

/// The wall-clock budget of one job, in seconds.
pub const JOB_TIMEOUT_SECS: u64 = 3600;

/// How one job ended.
#[derive(Debug, PartialEq)]
pub enum JobOutcome {
    Succeeded,
    Failed(String),
    TimedOut,
}

/// The model of a [`JobOutcome`].
pub enum OutcomeModel {
    Succeeded,
    Failed(Seq<char>),
    TimedOut,
}

impl View for JobOutcome {
    type V = OutcomeModel;

    open spec fn view(&self) -> OutcomeModel {
        match self {
            JobOutcome::Succeeded => OutcomeModel::Succeeded,
            JobOutcome::Failed(m) => OutcomeModel::Failed(m@),
            JobOutcome::TimedOut => OutcomeModel::TimedOut,
        }
    }
}

/// The outcome of each job of a run, in job order; nothing for a job still running.
pub struct RunLedger {
    outcomes: Vec<Option<JobOutcome>>,
}

/// The model of one slot of a [`RunLedger`].
pub open spec fn slot_model(o: Option<JobOutcome>) -> Option<OutcomeModel> {
    match o {
        Some(x) => Some(x@),
        None => None,
    }
}

impl View for RunLedger {
    type V = Seq<Option<OutcomeModel>>;

    closed spec fn view(&self) -> Seq<Option<OutcomeModel>> {
        self.outcomes@.map_values(|o: Option<JobOutcome>| slot_model(o))
    }
}

/// Whether a slot holds a failure or a timeout.
pub open spec fn is_failure(o: Option<OutcomeModel>) -> bool {
    o matches Some(x) && !(x is Succeeded)
}

/// Whether a slot holds a success.
pub open spec fn is_success(o: Option<OutcomeModel>) -> bool {
    o matches Some(x) && x is Succeeded
}

/// The jobs whose slot satisfies `failed ? is_failure : is_success`, in order.
pub open spec fn jobs_where(s: Seq<Option<OutcomeModel>>, failed: bool) -> Seq<int>
    decreases s.len(),
{
    if s.len() == 0 {
        Seq::empty()
    } else {
        let picked = if failed {
            is_failure(s.last())
        } else {
            is_success(s.last())
        };
        jobs_where(s.drop_last(), failed) + if picked {
            seq![s.len() - 1]
        } else {
            Seq::empty()
        }
    }
}

/// Whether every job has reached an outcome.
pub open spec fn all_settled(s: Seq<Option<OutcomeModel>>) -> bool {
    forall|k: int| 0 <= k < s.len() ==> (#[trigger] s[k]) is Some
}

impl RunLedger {
    /// A ledger for `n` jobs, none of which has ended.
    pub fn new(n: usize) -> (r: RunLedger)
        ensures
            r@ == Seq::new(n as nat, |k: int| None::<OutcomeModel>),
    {
        let mut outcomes: Vec<Option<JobOutcome>> = Vec::new();
        let mut i: usize = 0;
        while i < n
            invariant
                i <= n,
                outcomes@.len() == i,
                forall|k: int| 0 <= k < i ==> (#[trigger] outcomes@[k]) is None,
            decreases n - i,
        {
            outcomes.push(None);
            i = i + 1;
        }
        let r = RunLedger { outcomes };
        assert(r@ =~= Seq::new(n as nat, |k: int| None::<OutcomeModel>));
        r
    }

    /// The number of jobs.
    pub fn len(&self) -> (r: usize)
        ensures
            r == self@.len(),
    {
        self.outcomes.len()
    }

    /// Records how job `k` ended. No other job's slot changes.
    pub fn record(&mut self, k: usize, outcome: JobOutcome)
        requires
            k < old(self)@.len(),
            old(self)@[k as int] is None,
        ensures
            final(self)@ == old(self)@.update(k as int, Some(outcome@)),
    {
        let ghost o = outcome@;
        self.outcomes.set(k, Some(outcome));
        assert(self@ =~= old(self)@.update(k as int, Some(o)));
    }

    /// Whether every job has reached an outcome.
    pub fn is_complete(&self) -> (r: bool)
        ensures
            r == all_settled(self@),
    {
        let mut i: usize = 0;
        while i < self.outcomes.len()
            invariant
                i <= self@.len(),
                self@.len() == self.outcomes@.len(),
                forall|k: int| 0 <= k < i ==> (#[trigger] self@[k]) is Some,
            decreases self.outcomes@.len() - i,
        {
            if self.outcomes[i].is_none() {
                assert(self@[i as int] is None);
                return false;
            }
            assert(self@[i as int] is Some);
            i = i + 1;
        }
        true
    }

    fn jobs_matching(&self, failed: bool) -> (r: Vec<usize>)
        ensures
            r@.map_values(|j: usize| j as int) == jobs_where(self@, failed),
    {
        let ghost s = self@;
        let mut out: Vec<usize> = Vec::new();
        let mut i: usize = 0;
        assert(s.subrange(0, 0) =~= Seq::<Option<OutcomeModel>>::empty());
        assert(out@.map_values(|j: usize| j as int) =~= Seq::<int>::empty());
        while i < self.outcomes.len()
            invariant
                s == self@,
                i <= s.len(),
                s.len() == self.outcomes@.len(),
                out@.map_values(|j: usize| j as int) == jobs_where(s.subrange(0, i as int), failed),
            decreases self.outcomes@.len() - i,
        {
            let ghost prefix = s.subrange(0, i + 1);
            assert(prefix.drop_last() =~= s.subrange(0, i as int));
            assert(prefix.last() == s[i as int]);
            let picked = match &self.outcomes[i] {
                Some(JobOutcome::Succeeded) => !failed,
                Some(_) => failed,
                None => false,
            };
            let ghost before = out@;
            if picked {
                out.push(i);
                assert(out@.map_values(|j: usize| j as int) =~= before.map_values(|j: usize| j as int)
                    + seq![i as int]);
            } else {
                assert(jobs_where(prefix, failed) =~= jobs_where(s.subrange(0, i as int), failed));
            }
            i = i + 1;
        }
        assert(s.subrange(0, s.len() as int) =~= s);
        out
    }

    /// The jobs that failed or timed out, in order.
    pub fn failed_jobs(&self) -> (r: Vec<usize>)
        ensures
            r@.map_values(|j: usize| j as int) == jobs_where(self@, true),
    {
        self.jobs_matching(true)
    }

    /// The jobs that succeeded, in order.
    pub fn succeeded_jobs(&self) -> (r: Vec<usize>)
        ensures
            r@.map_values(|j: usize| j as int) == jobs_where(self@, false),
    {
        self.jobs_matching(false)
    }
}

/// A job is listed among the failed (or the succeeded) exactly when its own
/// slot says so.
pub proof fn lemma_jobs_where_members(s: Seq<Option<OutcomeModel>>, failed: bool, j: int)
    ensures
        jobs_where(s, failed).contains(j) <==> 0 <= j < s.len() && if failed {
            is_failure(s[j])
        } else {
            is_success(s[j])
        },
    decreases s.len(),
{
    if s.len() > 0 {
        lemma_jobs_where_members(s.drop_last(), failed, j);
        let tail = if (failed && is_failure(s.last())) || (!failed && is_success(s.last())) {
            seq![s.len() - 1]
        } else {
            Seq::empty()
        };
        assert(jobs_where(s, failed) == jobs_where(s.drop_last(), failed) + tail);
        if jobs_where(s, failed).contains(j) {
            let idx = choose|idx: int| 0 <= idx < jobs_where(s, failed).len() && jobs_where(s, failed)[idx] == j;
            if idx >= jobs_where(s.drop_last(), failed).len() {
                assert(tail[idx - jobs_where(s.drop_last(), failed).len()] == j);
            } else {
                assert(jobs_where(s.drop_last(), failed)[idx] == j);
            }
        }
        if 0 <= j < s.len() && (if failed { is_failure(s[j]) } else { is_success(s[j]) }) {
            if j == s.len() - 1 {
                assert(jobs_where(s, failed)[jobs_where(s.drop_last(), failed).len() as int] == j);
            } else {
                assert(s.drop_last()[j] == s[j]);
                let idx = choose|idx: int|
                    0 <= idx < jobs_where(s.drop_last(), failed).len() && jobs_where(s.drop_last(), failed)[idx] == j;
                assert(jobs_where(s, failed)[idx] == j);
            }
        }
    }
}

/// Isolation: when every job but `k` succeeded and job `k` failed or timed
/// out, the run is complete, job `k` is the one job reported as failed, and
/// every other job is reported as succeeded.
pub proof fn lemma_job_isolation(s: Seq<Option<OutcomeModel>>, k: int)
    requires
        0 <= k < s.len(),
        is_failure(s[k]),
        forall|j: int| 0 <= j < s.len() && j != k ==> is_success(#[trigger] s[j]),
    ensures
        all_settled(s),
        forall|j: int| #[trigger] jobs_where(s, true).contains(j) <==> j == k,
        forall|j: int|
            #[trigger] jobs_where(s, false).contains(j) <==> 0 <= j < s.len() && j != k,
{
    assert forall|j: int| #[trigger] jobs_where(s, true).contains(j) <==> j == k by {
        lemma_jobs_where_members(s, true, j);
    }
    assert forall|j: int| #[trigger] jobs_where(s, false).contains(j) <==> 0 <= j < s.len() && j != k by {
        lemma_jobs_where_members(s, false, j);
    }
    assert forall|j: int| 0 <= j < s.len() implies (#[trigger] s[j]) is Some by {
        if j != k {
            assert(is_success(s[j]));
        }
    }
}

} // verus!
