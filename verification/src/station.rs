//! A ground station: its network record, its job queue, and its host
//! metrics. The queue is kept sorted ascending by start time with no two
//! jobs sharing an id; merging a fetched batch never duplicates or reorders
//! entries, and the periodic sweep is the only deletion path.

use vstd::prelude::*;

use crate::job::{job_from_pair, Job};
use crate::network;
use crate::sysinfo::SysInfo;
use crate::vessel::Location;

verus! {

broadcast use vstd::set::group_set_axioms;

/// The queue is non-decreasing by start time.
pub open spec fn jobs_sorted(s: Seq<Job>) -> bool {
    forall|i: int, j: int| 0 <= i < j < s.len() ==> s[i].job.start <= s[j].job.start
}

/// No two queued jobs share an id.
pub open spec fn jobs_unique_ids(s: Seq<Job>) -> bool {
    forall|i: int, j: int| 0 <= i < j < s.len() ==> s[i].job.id != s[j].job.id
}

/// Whether some queued job has the given id.
pub open spec fn has_job_id(s: Seq<Job>, id: u64) -> bool {
    exists|i: int| 0 <= i < s.len() && s[i].job.id == id
}

/// Whether some pair of the fetched batch has the given job id.
pub open spec fn has_pair_id(
    ps: Seq<(network::Job, network::Observation)>,
    id: u64,
) -> bool {
    exists|k: int| 0 <= k < ps.len() && ps[k].0.id == id
}

/// The queue with every job whose end is not strictly in the future dropped,
/// in order.
pub open spec fn spec_live_jobs(s: Seq<Job>, now: i64) -> Seq<Job>
    decreases s.len(),
{
    if s.len() == 0 {
        Seq::empty()
    } else if s.first().job.end > now {
        seq![s.first()] + spec_live_jobs(s.drop_first(), now)
    } else {
        spec_live_jobs(s.drop_first(), now)
    }
}

/// The position a job starting at `start` is inserted at: before the first
/// queued job with a strictly later start.
pub open spec fn spec_insert_pos(s: Seq<Job>, start: i64) -> int
    decreases s.len(),
{
    if s.len() == 0 {
        0
    } else if s.first().job.start > start {
        0
    } else {
        1 + spec_insert_pos(s.drop_first(), start)
    }
}

/// Entries kept from `before` stand in `after` in their old relative
/// order: a merge never reorders what was already queued.
pub open spec fn keeps_order(before: Seq<Job>, after: Seq<Job>) -> bool {
    forall|i: int, j: int, k: int, l: int|
        #![trigger before[i], before[j], after[k], after[l]]
        0 <= i < j < before.len() && 0 <= k < after.len() && 0 <= l < after.len() && after[k]
            == before[i] && after[l] == before[j] ==> k < l
}

/// A queue with unique ids keeps its own order.
pub proof fn lemma_keeps_order_refl(s: Seq<Job>)
    requires
        jobs_unique_ids(s),
    ensures
        keeps_order(s, s),
{
    assert forall|i: int, j: int, k: int, l: int|
        #![trigger s[i], s[j], s[k], s[l]]
        0 <= i < j < s.len() && 0 <= k < s.len() && 0 <= l < s.len() && s[k] == s[i] && s[l]
            == s[j] implies k < l by {
        if k != i {
            assert(s[k].job.id != s[i].job.id);
        }
        if l != j {
            assert(s[l].job.id != s[j].job.id);
        }
    }
}

/// What one whole-batch merge guarantees: `after` is sorted with unique
/// ids; every job of `before` is kept, in its old relative order; the id
/// set grows by exactly the batch's ids; nothing else appears — a job not
/// from `before` is built from a pair of the batch whose id `before` did
/// not have; and the count never decreases.
pub open spec fn merged_jobs(
    before: Seq<Job>,
    pairs: Seq<(network::Job, network::Observation)>,
    qth: Location,
    after: Seq<Job>,
) -> bool {
    &&& jobs_sorted(after)
    &&& jobs_unique_ids(after)
    &&& forall|i: int| 0 <= i < before.len() ==> after.contains(#[trigger] before[i])
    &&& forall|id: u64|
        #[trigger] has_job_id(after, id) <==> has_job_id(before, id) || has_pair_id(pairs, id)
    &&& forall|i: int|
        0 <= i < after.len() ==> before.contains(#[trigger] after[i]) || (!has_job_id(
            before,
            after[i].job.id,
        ) && exists|k: int|
            0 <= k < pairs.len() && job_from_pair(after[i], pairs[k].0, pairs[k].1, qth))
    &&& keeps_order(before, after)
    &&& after.len() >= before.len()
    &&& after.len() <= before.len() + pairs.len()
}

pub proof fn lemma_insert_pos_bounds(s: Seq<Job>, start: i64)
    requires
        jobs_sorted(s),
    ensures
        0 <= spec_insert_pos(s, start) <= s.len(),
        forall|j: int| 0 <= j < spec_insert_pos(s, start) ==> s[j].job.start <= start,
        forall|j: int| spec_insert_pos(s, start) <= j < s.len() ==> s[j].job.start > start,
    decreases s.len(),
{
    if s.len() > 0 && s.first().job.start <= start {
        lemma_insert_pos_bounds(s.drop_first(), start);
        let p = spec_insert_pos(s, start);
        assert forall|j: int| 0 <= j < p implies s[j].job.start <= start by {
            if j > 0 {
                assert(s.drop_first()[j - 1].job.start <= start);
            }
        }
        assert forall|j: int| p <= j < s.len() implies s[j].job.start > start by {
            assert(s.drop_first()[j - 1].job.start > start);
        }
    }
}

/// A forward scan that stops at the first strictly-later start stops at the
/// insertion position.
proof fn lemma_insert_pos_unique(s: Seq<Job>, start: i64, k: int)
    requires
        0 <= k <= s.len(),
        forall|j: int| 0 <= j < k ==> s[j].job.start <= start,
        k < s.len() ==> s[k].job.start > start,
    ensures
        k == spec_insert_pos(s, start),
    decreases s.len(),
{
    if s.len() > 0 && s.first().job.start <= start {
        lemma_insert_pos_unique(s.drop_first(), start, k - 1);
    }
}

/// Inserting a job keeps everything and adds the job, nothing else.
proof fn lemma_insert_elements(s: Seq<Job>, pos: int, job: Job)
    requires
        0 <= pos <= s.len(),
    ensures
        forall|x: Job| s.contains(x) ==> #[trigger] s.insert(pos, job).contains(x),
        s.insert(pos, job).contains(job),
        forall|i: int|
            0 <= i < s.insert(pos, job).len() ==> s.contains(
                #[trigger] s.insert(pos, job)[i],
            ) || s.insert(pos, job)[i] == job,
{
    let t = s.insert(pos, job);
    s.insert_ensures(pos, job);
    assert forall|x: Job| s.contains(x) implies #[trigger] t.contains(x) by {
        let i = choose|i: int| 0 <= i < s.len() && s[i] == x;
        if i < pos {
            assert(t[i] == x);
        } else {
            assert(t[i + 1] == x);
        }
    }
    assert(t[pos] == job);
    assert forall|i: int| 0 <= i < t.len() implies s.contains(#[trigger] t[i]) || t[i] == job by {
        if i < pos {
            assert(t[i] == s[i]);
            assert(s.contains(s[i]));
        } else if i > pos {
            assert(t[i] == s[i - 1]);
            assert(s.contains(s[i - 1]));
        }
    }
}

/// Insert a job into a sorted queue, keeping it sorted: it lands before the
/// first job with a strictly later start.
fn insert_job(jobs: &mut Vec<Job>, job: Job)
    requires
        jobs_sorted(old(jobs)@),
    ensures
        final(jobs)@ == old(jobs)@.insert(
            spec_insert_pos(old(jobs)@, job.job.start),
            job,
        ),
        jobs_sorted(final(jobs)@),
{
    let start = job.start();
    let n = jobs.len();
    let mut pos: usize = 0;
    while pos < n && jobs[pos].start() <= start
        invariant
            0 <= pos <= n == jobs@.len(),
            jobs_sorted(jobs@),
            start == job.job.start,
            forall|j: int| 0 <= j < pos ==> jobs@[j].job.start <= start,
        decreases n - pos,
    {
        pos = pos + 1;
    }
    proof {
        lemma_insert_pos_unique(jobs@, start, pos as int);
        lemma_insert_pos_bounds(jobs@, start);
        jobs@.insert_ensures(pos as int, job);
    }
    let ghost before = jobs@;
    jobs.insert(pos, job);
    proof {
        let t = before.insert(pos as int, job);
        assert forall|i: int, j: int| 0 <= i < j < t.len() implies t[i].job.start
            <= t[j].job.start by {
            let p = pos as int;
            if i < p && j < p {
            } else if i < p && j == p {
            } else if i < p && j > p {
                assert(t[j] == before[j - 1]);
            } else if i == p && j > p {
                assert(t[j] == before[j - 1]);
            } else if i > p && j > p {
                assert(t[i] == before[i - 1] && t[j] == before[j - 1]);
            }
        }
    }
}

/// One monitored ground station.
pub struct Station {
    /// The station record as fetched from the network.
    pub info: network::StationInfo,
    /// The job queue, sorted ascending by start time, unique by id.
    pub jobs: Vec<Job>,
    /// The most recent host metrics snapshot.
    pub sys_info: SysInfo,
}

impl Station {
    /// The queue invariant: sorted by start, no duplicate ids.
    pub open spec fn wf(self) -> bool {
        jobs_sorted(self.jobs@) && jobs_unique_ids(self.jobs@)
    }

    /// The station's observer location, from its record.
    pub open spec fn spec_location(self) -> Location {
        Location {
            lat_udeg: self.info.lat_udeg,
            lon_udeg: self.info.lon_udeg,
            alt_mm: self.info.alt_mm,
        }
    }

    /// A station with an empty queue and nothing measured.
    pub fn new(info: network::StationInfo) -> (s: Station)
        ensures
            s.info == info,
            s.jobs@.len() == 0,
            s.sys_info.cpu_load_milli_pct is None,
            s.sys_info.cpu_temp_milli_c is None,
            s.sys_info.mem_free_bytes is None,
            s.sys_info.mem_total_bytes is None,
            s.sys_info.uptime_secs is None,
            s.wf(),
    {
        Station { info, jobs: Vec::new(), sys_info: Default::default() }
    }

    /// The station's network id.
    pub fn id(&self) -> (r: u64)
        ensures
            r == self.info.id,
    {
        self.info.id
    }

    /// The station's display name.
    pub fn name(&self) -> (r: &str)
        ensures
            r@ == self.info.name@,
    {
        self.info.name.as_str()
    }

    /// The station's observer location.
    pub fn location(&self) -> (r: Location)
        ensures
            r == self.spec_location(),
    {
        Location {
            lat_udeg: self.info.lat_udeg,
            lon_udeg: self.info.lon_udeg,
            alt_mm: self.info.alt_mm,
        }
    }

    /// Overwrite the host metrics snapshot.
    pub fn update_sys_info(&mut self, sys_info: SysInfo)
        ensures
            final(self).sys_info == sys_info,
            final(self).info == old(self).info,
            final(self).jobs == old(self).jobs,
    {
        self.sys_info = sys_info;
    }

    /// Whether the queue holds a job with this id.
    fn has_job(&self, id: u64) -> (r: bool)
        ensures
            r == has_job_id(self.jobs@, id),
    {
        let mut i: usize = 0;
        while i < self.jobs.len()
            invariant
                0 <= i <= self.jobs@.len(),
                forall|j: int| 0 <= j < i ==> self.jobs@[j].job.id != id,
            decreases self.jobs@.len() - i,
        {
            if self.jobs[i].id() == id {
                return true;
            }
            i = i + 1;
        }
        false
    }

    /// Merge a freshly fetched batch of (job, observation) pairs into the
    /// queue: a pair whose id is already queued is discarded, every other
    /// pair becomes a new job seeded with this station's location, and the
    /// queue stays sorted by start time.
    pub fn update_jobs(&mut self, pairs: Vec<(network::Job, network::Observation)>)
        requires
            old(self).wf(),
        ensures
            final(self).wf(),
            final(self).info == old(self).info,
            final(self).sys_info == old(self).sys_info,
            merged_jobs(old(self).jobs@, pairs@, old(self).spec_location(), final(self).jobs@),
    {
        let ghost orig_pairs = pairs@;
        let ghost q0 = self.jobs@;
        let qth = self.location();
        let mut pairs = pairs;
        let pairs_n: usize = pairs.len();
        let mut taken: usize = 0;
        proof {
            assert(orig_pairs.take(0) =~= Seq::<(network::Job, network::Observation)>::empty());
            lemma_keeps_order_refl(q0);
        }
        while pairs.len() > 0
            invariant
                self.wf(),
                self.info == old(self).info,
                self.sys_info == old(self).sys_info,
                qth == old(self).spec_location(),
                pairs_n == orig_pairs.len(),
                taken + pairs@.len() == pairs_n,
                pairs@ =~= orig_pairs.skip(taken as int),
                merged_jobs(q0, orig_pairs.take(taken as int), qth, self.jobs@),
                q0 == old(self).jobs@,
            decreases pairs@.len(),
        {
            let ghost done = orig_pairs.take(taken as int);
            let pair = pairs.remove(0);
            proof {
                assert(orig_pairs.take(taken as int + 1) =~= done.push(pair));
                assert(pairs@ =~= orig_pairs.skip(taken as int + 1));
            }
            let present = self.has_job(pair.0.id);
            if !present {
                let ghost qpre = self.jobs@;
                let job = Job::new(pair, qth);
                insert_job(&mut self.jobs, job);
                proof {
                    lemma_merged_insert(q0, done, pair, qth, qpre, job, self.jobs@);
                    let qnew = self.jobs@;
                    assert forall|i: int, j: int| 0 <= i < j < qnew.len() implies qnew[i].job.id
                        != qnew[j].job.id by {
                        assert(jobs_unique_ids(qnew));
                    }
                }
            } else {
                proof {
                    lemma_merged_extend_pair(q0, done, pair, qth, self.jobs@);
                }
            }
            taken = taken + 1;
        }
        proof {
            assert(orig_pairs.take(taken as int) =~= orig_pairs);
        }
    }

    /// Drop every job whose end time is not strictly in the future; this is
    /// the only deletion path. Jobs still ending in the future are left
    /// untouched, in order.
    pub fn remove_finished_jobs(&mut self, now: i64)
        requires
            old(self).wf(),
        ensures
            final(self).wf(),
            final(self).info == old(self).info,
            final(self).sys_info == old(self).sys_info,
            final(self).jobs@ == spec_live_jobs(old(self).jobs@, now),
    {
        let ghost orig = self.jobs@;
        let mut kept: Vec<Job> = Vec::new();
        proof {
            assert(orig.take(0) =~= Seq::<Job>::empty());
        }
        while self.jobs.len() > 0
            invariant
                orig == old(self).jobs@,
                orig =~= orig.take(orig.len() - self.jobs@.len()) + self.jobs@,
                self.jobs@ =~= orig.skip(orig.len() - self.jobs@.len()),
                kept@ =~= spec_live_jobs(orig.take(orig.len() - self.jobs@.len()), now),
                self.info == old(self).info,
                self.sys_info == old(self).sys_info,
            decreases self.jobs@.len(),
        {
            let ghost i = orig.len() - self.jobs@.len();
            let ghost done = orig.take(i);
            let j = self.jobs.remove(0);
            proof {
                assert(orig.take(i + 1) =~= done.push(j));
                lemma_live_jobs_push(done, j, now);
                assert(self.jobs@ =~= orig.skip(i + 1));
            }
            if j.end() > now {
                kept.push(j);
            }
        }
        proof {
            assert(orig.take(orig.len() - self.jobs@.len()) =~= orig);
            lemma_live_jobs_wf(orig, now);
        }
        self.jobs = kept;
    }
}

/// Appending one job to the source appends it to the live view exactly when
/// it still ends in the future.
proof fn lemma_live_jobs_push(s: Seq<Job>, job: Job, now: i64)
    ensures
        job.job.end > now ==> spec_live_jobs(s.push(job), now) == spec_live_jobs(s, now).push(
            job,
        ),
        job.job.end <= now ==> spec_live_jobs(s.push(job), now) == spec_live_jobs(s, now),
    decreases s.len(),
{
    if s.len() == 0 {
        assert(s.push(job).drop_first() =~= Seq::<Job>::empty());
        assert(spec_live_jobs(Seq::<Job>::empty(), now) =~= Seq::<Job>::empty());
        assert(s =~= Seq::<Job>::empty());
        if job.job.end > now {
            assert(spec_live_jobs(s.push(job), now) =~= spec_live_jobs(s, now).push(job));
        } else {
            assert(spec_live_jobs(s.push(job), now) =~= spec_live_jobs(s, now));
        }
    } else {
        assert(s.push(job).drop_first() =~= s.drop_first().push(job));
        lemma_live_jobs_push(s.drop_first(), job, now);
        if s.first().job.end > now {
            if job.job.end > now {
                assert(spec_live_jobs(s.push(job), now) =~= spec_live_jobs(s, now).push(job));
            } else {
                assert(spec_live_jobs(s.push(job), now) =~= spec_live_jobs(s, now));
            }
        }
    }
}

/// The sweep keeps the queue well-formed: what survives is still sorted and
/// unique, and every kept entry is an entry of the source.
pub proof fn lemma_live_jobs_wf(s: Seq<Job>, now: i64)
    requires
        jobs_sorted(s),
        jobs_unique_ids(s),
    ensures
        jobs_sorted(spec_live_jobs(s, now)),
        jobs_unique_ids(spec_live_jobs(s, now)),
        forall|k: int|
            0 <= k < spec_live_jobs(s, now).len() ==> exists|i: int|
                0 <= i < s.len() && #[trigger] spec_live_jobs(s, now)[k] == s[i],
    decreases s.len(),
{
    if s.len() > 0 {
        let rest = s.drop_first();
        lemma_live_jobs_wf(rest, now);
        let live = spec_live_jobs(s, now);
        let live_rest = spec_live_jobs(rest, now);
        if s.first().job.end > now {
            assert(live =~= seq![s.first()] + live_rest);
            assert forall|k: int| 0 <= k < live.len() implies exists|i: int|
                0 <= i < s.len() && #[trigger] live[k] == s[i] by {
                if k == 0 {
                    assert(live[0] == s[0]);
                } else {
                    let i = choose|i: int| 0 <= i < rest.len() && live_rest[k - 1] == rest[i];
                    assert(live[k] == s[i + 1]);
                }
            }
            assert forall|a: int, b: int| 0 <= a < b < live.len() implies live[a].job.start
                <= live[b].job.start by {
                if a == 0 {
                    let i = choose|i: int| 0 <= i < rest.len() && live_rest[b - 1] == rest[i];
                    assert(live[b] == s[i + 1]);
                }
            }
            assert forall|a: int, b: int| 0 <= a < b < live.len() implies live[a].job.id
                != live[b].job.id by {
                if a == 0 {
                    let i = choose|i: int| 0 <= i < rest.len() && live_rest[b - 1] == rest[i];
                    assert(live[b] == s[i + 1]);
                }
            }
        } else {
            assert forall|k: int| 0 <= k < live.len() implies exists|i: int|
                0 <= i < s.len() && #[trigger] live[k] == s[i] by {
                let i = choose|i: int| 0 <= i < rest.len() && live[k] == rest[i];
                assert(live[k] == s[i + 1]);
            }
        }
    }
}

/// Expiry correctness: a sweep removes exactly the jobs whose end has
/// passed — everything kept still ends in the future, and every job still
/// ending in the future is kept.
pub proof fn lemma_expiry_correctness(s: Seq<Job>, now: i64)
    ensures
        forall|k: int|
            0 <= k < spec_live_jobs(s, now).len() ==> #[trigger] spec_live_jobs(
                s,
                now,
            )[k].job.end > now,
        forall|i: int|
            0 <= i < s.len() && s[i].job.end > now ==> spec_live_jobs(s, now).contains(
                #[trigger] s[i],
            ),
    decreases s.len(),
{
    if s.len() > 0 {
        let rest = s.drop_first();
        lemma_expiry_correctness(rest, now);
        let live = spec_live_jobs(s, now);
        let live_rest = spec_live_jobs(rest, now);
        assert forall|i: int| 0 <= i < s.len() && s[i].job.end > now implies live.contains(
            #[trigger] s[i],
        ) by {
            if i == 0 {
                assert(live[0] == s[0]);
            } else {
                assert(rest[i - 1] == s[i]);
                assert(live_rest.contains(rest[i - 1]));
                let k = choose|k: int| 0 <= k < live_rest.len() && live_rest[k] == rest[i - 1];
                if s.first().job.end > now {
                    assert(live[k + 1] == live_rest[k]);
                } else {
                    assert(live[k] == live_rest[k]);
                }
            }
        }
    }
}


/// The position of `x` in `s`.
pub open spec fn job_pos(s: Seq<Job>, x: Job) -> int {
    choose|k: int| 0 <= k < s.len() && s[k] == x
}

/// In a queue with unique ids a contained job has exactly one position.
proof fn lemma_job_pos(s: Seq<Job>, x: Job)
    requires
        jobs_unique_ids(s),
        s.contains(x),
    ensures
        0 <= job_pos(s, x) < s.len(),
        s[job_pos(s, x)] == x,
        forall|k: int| 0 <= k < s.len() && s[k] == x ==> k == job_pos(s, x),
{
    let p = job_pos(s, x);
    assert(0 <= p < s.len() && s[p] == x);
    assert forall|k: int| 0 <= k < s.len() && s[k] == x implies k == p by {
        if k != p {
            assert(s[k].job.id != s[p].job.id);
        }
    }
}

/// Positions never step back: the entry after `i` sits at least one place
/// further along.
proof fn lemma_pos_ge(a: Seq<Job>, b: Seq<Job>, i: int)
    requires
        jobs_unique_ids(a),
        jobs_unique_ids(b),
        forall|m: int| 0 <= m < a.len() ==> b.contains(#[trigger] a[m]),
        keeps_order(a, b),
        0 <= i < a.len(),
    ensures
        job_pos(b, a[i]) >= i,
    decreases i,
{
    lemma_job_pos(b, a[i]);
    if i > 0 {
        lemma_pos_ge(a, b, i - 1);
        lemma_job_pos(b, a[i - 1]);
        let k = job_pos(b, a[i - 1]);
        let l = job_pos(b, a[i]);
        assert(b[k] == a[i - 1] && b[l] == a[i]);
        assert(k < l);
    }
}

/// Positions spread at least as far apart as the entries they hold.
proof fn lemma_pos_gap(a: Seq<Job>, b: Seq<Job>, i: int, j: int)
    requires
        jobs_unique_ids(a),
        jobs_unique_ids(b),
        forall|m: int| 0 <= m < a.len() ==> b.contains(#[trigger] a[m]),
        keeps_order(a, b),
        0 <= i <= j < a.len(),
    ensures
        job_pos(b, a[j]) - job_pos(b, a[i]) >= j - i,
    decreases j - i,
{
    lemma_job_pos(b, a[i]);
    lemma_job_pos(b, a[j]);
    if i < j {
        lemma_pos_gap(a, b, i, j - 1);
        lemma_job_pos(b, a[j - 1]);
        let k = job_pos(b, a[j - 1]);
        let l = job_pos(b, a[j]);
        assert(b[k] == a[j - 1] && b[l] == a[j]);
        assert(k < l);
    }
}

/// Two equal-length queues with unique ids, one contained in the other in
/// its old order, are the same sequence.
proof fn lemma_ordered_containment_equal(a: Seq<Job>, b: Seq<Job>)
    requires
        a.len() == b.len(),
        jobs_unique_ids(a),
        jobs_unique_ids(b),
        forall|m: int| 0 <= m < a.len() ==> b.contains(#[trigger] a[m]),
        keeps_order(a, b),
    ensures
        a == b,
{
    let n = a.len() as int;
    assert forall|i: int| 0 <= i < n implies job_pos(b, a[i]) == i by {
        lemma_pos_ge(a, b, i);
        if i < n - 1 {
            lemma_pos_gap(a, b, i, n - 1);
            lemma_pos_ge(a, b, n - 1);
            lemma_job_pos(b, a[n - 1]);
        }
        lemma_job_pos(b, a[i]);
    }
    assert forall|i: int| 0 <= i < n implies a[i] == b[i] by {
        lemma_job_pos(b, a[i]);
        assert(b[job_pos(b, a[i])] == a[i]);
    }
    assert(a =~= b);
}

/// Idempotent merge: merging the same batch a second time changes nothing
/// at all — the queue after the second merge is exactly the queue after the
/// first: same entries, same order.
pub proof fn lemma_merge_idempotent(
    q0: Seq<Job>,
    q1: Seq<Job>,
    q2: Seq<Job>,
    pairs: Seq<(network::Job, network::Observation)>,
    qth: Location,
)
    requires
        merged_jobs(q0, pairs, qth, q1),
        merged_jobs(q1, pairs, qth, q2),
    ensures
        q2 == q1,
{
    assert forall|id: u64| #[trigger] has_job_id(q2, id) implies has_job_id(q1, id) by {
        if has_pair_id(pairs, id) {
            assert(has_job_id(q1, id));
        }
    }
    assert forall|i: int| 0 <= i < q2.len() implies q1.contains(#[trigger] q2[i]) by {
        if !q1.contains(q2[i]) {
            let k = choose|k: int|
                0 <= k < pairs.len() && job_from_pair(q2[i], pairs[k].0, pairs[k].1, qth);
            assert(pairs[k].0.id == q2[i].job.id);
            assert(has_pair_id(pairs, q2[i].job.id));
            assert(has_job_id(q1, q2[i].job.id));
            assert(!has_job_id(q1, q2[i].job.id));
        }
    }
    lemma_contained_unique_len(q2, q1);
    assert(q2.len() == q1.len());
    lemma_ordered_containment_equal(q1, q2);
}

/// A sequence of distinct entries, each contained in another sequence, is
/// no longer than it.
proof fn lemma_contained_unique_len(a: Seq<Job>, b: Seq<Job>)
    requires
        jobs_unique_ids(a),
        forall|i: int| 0 <= i < a.len() ==> b.contains(#[trigger] a[i]),
    ensures
        a.len() <= b.len(),
    decreases b.len(),
{
    if a.len() > 0 {
        let x = a[0];
        let j = choose|j: int| 0 <= j < b.len() && b[j] == x;
        let a1 = a.drop_first();
        let b1 = b.remove(j);
        assert forall|i: int| 0 <= i < a1.len() implies b1.contains(#[trigger] a1[i]) by {
            assert(a1[i] == a[i + 1]);
            assert(a1[i].job.id != x.job.id);
            let m = choose|m: int| 0 <= m < b.len() && b[m] == a1[i];
            assert(m != j);
            if m < j {
                assert(b1[m] == b[m]);
            } else {
                assert(b1[m - 1] == b[m]);
            }
        }
        assert(jobs_unique_ids(a1)) by {
            assert forall|i: int, k: int| 0 <= i < k < a1.len() implies a1[i].job.id
                != a1[k].job.id by {
                assert(a1[i] == a[i + 1] && a1[k] == a[k + 1]);
            }
        }
        lemma_contained_unique_len(a1, b1);
    }
}


/// A batch pair whose id the queue already has extends the merge unchanged.
proof fn lemma_merged_extend_pair(
    q0: Seq<Job>,
    done: Seq<(network::Job, network::Observation)>,
    pair: (network::Job, network::Observation),
    qth: Location,
    q: Seq<Job>,
)
    requires
        merged_jobs(q0, done, qth, q),
        has_job_id(q, pair.0.id),
    ensures
        merged_jobs(q0, done.push(pair), qth, q),
{
    let done1 = done.push(pair);
    lemma_has_pair_push(done, pair);
    assert forall|id: u64| #[trigger] has_job_id(q, id) <==> (has_job_id(q0, id) || has_pair_id(
        done1,
        id,
    )) by {
        assert(has_job_id(q, id) <==> has_job_id(q0, id) || has_pair_id(done, id));
    }
    assert forall|i: int|
        0 <= i < q.len() implies q0.contains(#[trigger] q[i]) || (!has_job_id(q0, q[i].job.id)
        && exists|k: int|
        0 <= k < done1.len() && job_from_pair(q[i], done1[k].0, done1[k].1, qth)) by {
        if !q0.contains(q[i]) {
            let k = choose|k: int|
                0 <= k < done.len() && job_from_pair(q[i], done[k].0, done[k].1, qth);
            assert(done1[k] == done[k]);
            assert(job_from_pair(q[i], done1[k].0, done1[k].1, qth));
        }
    }
}

/// The id set of a batch grows by exactly the appended pair's id.
proof fn lemma_has_pair_push(
    done: Seq<(network::Job, network::Observation)>,
    pair: (network::Job, network::Observation),
)
    ensures
        forall|id: u64|
            #[trigger] has_pair_id(done.push(pair), id) <==> (has_pair_id(done, id) || id
                == pair.0.id),
{
    let done1 = done.push(pair);
    assert forall|id: u64| #[trigger] has_pair_id(done1, id) <==> (has_pair_id(done, id) || id
        == pair.0.id) by {
        if has_pair_id(done1, id) {
            let k = choose|k: int| 0 <= k < done1.len() && done1[k].0.id == id;
            if k < done.len() {
                assert(done[k].0.id == id);
            }
        }
        if has_pair_id(done, id) {
            let k = choose|k: int| 0 <= k < done.len() && done[k].0.id == id;
            assert(done1[k].0.id == id);
        }
        if id == pair.0.id {
            assert(done1[done.len() as int].0.id == id);
        }
    }
}

/// A batch pair whose id the queue lacks extends the merge by inserting the
/// job built from it at its sorted position.
#[verifier::rlimit(100)]
proof fn lemma_merged_insert(
    q0: Seq<Job>,
    done: Seq<(network::Job, network::Observation)>,
    pair: (network::Job, network::Observation),
    qth: Location,
    q: Seq<Job>,
    job: Job,
    qnew: Seq<Job>,
)
    requires
        merged_jobs(q0, done, qth, q),
        jobs_sorted(q),
        !has_job_id(q, pair.0.id),
        job_from_pair(job, pair.0, pair.1, qth),
        qnew == q.insert(spec_insert_pos(q, job.job.start), job),
        jobs_sorted(qnew),
    ensures
        merged_jobs(q0, done.push(pair), qth, qnew),
{
    let done1 = done.push(pair);
    let pos = spec_insert_pos(q, job.job.start);
    lemma_insert_pos_bounds(q, job.job.start);
    q.insert_ensures(pos, job);
    lemma_insert_elements(q, pos, job);
    lemma_has_pair_push(done, pair);
    assert(job.job.id == pair.0.id);

    // unique ids
    assert forall|i: int, j: int| 0 <= i < j < qnew.len() implies qnew[i].job.id
        != qnew[j].job.id by {
        if i < pos && j < pos {
            assert(qnew[i] == q[i] && qnew[j] == q[j]);
        } else if i < pos && j == pos {
            assert(qnew[i] == q[i] && qnew[j] == job);
            assert(q[i].job.id != job.job.id) by {
                assert(has_job_id(q, q[i].job.id));
            }
        } else if i < pos && j > pos {
            assert(qnew[i] == q[i] && qnew[j] == q[j - 1]);
        } else if i == pos {
            assert(qnew[i] == job && qnew[j] == q[j - 1]);
            assert(q[j - 1].job.id != job.job.id) by {
                assert(has_job_id(q, q[j - 1].job.id));
            }
        } else {
            assert(qnew[i] == q[i - 1] && qnew[j] == q[j - 1]);
        }
    }

    // q0 kept
    assert forall|i: int| 0 <= i < q0.len() implies qnew.contains(#[trigger] q0[i]) by {
        assert(q.contains(q0[i]));
    }

    // id set
    assert forall|id: u64| #[trigger] has_job_id(qnew, id) <==> (has_job_id(q0, id)
        || has_pair_id(done1, id)) by {
        if has_job_id(qnew, id) {
            let i = choose|i: int| 0 <= i < qnew.len() && qnew[i].job.id == id;
            if i < pos {
                assert(q[i].job.id == id);
                assert(has_job_id(q, id));
            } else if i > pos {
                assert(q[i - 1].job.id == id);
                assert(has_job_id(q, id));
            } else {
                assert(id == pair.0.id);
            }
        }
        if has_job_id(q0, id) || has_pair_id(done, id) {
            assert(has_job_id(q, id));
            let i = choose|i: int| 0 <= i < q.len() && q[i].job.id == id;
            if i < pos {
                assert(qnew[i].job.id == id);
            } else {
                assert(qnew[i + 1].job.id == id);
            }
            assert(has_job_id(qnew, id));
        }
        if id == pair.0.id {
            assert(qnew[pos].job.id == id);
            assert(has_job_id(qnew, id));
        }
    }

    // provenance
    assert(!has_job_id(q0, job.job.id)) by {
        if has_job_id(q0, job.job.id) {
            let i = choose|i: int| 0 <= i < q0.len() && q0[i].job.id == job.job.id;
            assert(q.contains(q0[i]));
            let m = choose|m: int| 0 <= m < q.len() && q[m] == q0[i];
            assert(has_job_id(q, job.job.id));
        }
    }
    // kept entries stay in their old relative order: the insert shifts
    // positions but never swaps two existing entries
    assert forall|i: int, j: int, k: int, l: int|
        #![trigger q0[i], q0[j], qnew[k], qnew[l]]
        0 <= i < j < q0.len() && 0 <= k < qnew.len() && 0 <= l < qnew.len() && qnew[k] == q0[i]
            && qnew[l] == q0[j] implies k < l by {
        assert(k != pos) by {
            if k == pos {
                assert(qnew[pos] == job);
                assert(has_job_id(q0, job.job.id));
            }
        }
        assert(l != pos) by {
            if l == pos {
                assert(qnew[pos] == job);
                assert(has_job_id(q0, job.job.id));
            }
        }
        let k0 = if k < pos {
            k
        } else {
            k - 1
        };
        let l0 = if l < pos {
            l
        } else {
            l - 1
        };
        assert(q[k0] == q0[i] && q[l0] == q0[j]);
        assert(k0 < l0);
    }
    assert forall|i: int|
        0 <= i < qnew.len() implies q0.contains(#[trigger] qnew[i]) || (!has_job_id(
        q0,
        qnew[i].job.id,
    ) && exists|k: int|
        0 <= k < done1.len() && job_from_pair(qnew[i], done1[k].0, done1[k].1, qth)) by {
        if qnew[i] == job {
            assert(done1[done.len() as int] == pair);
            assert(job_from_pair(qnew[i], done1[done.len() as int].0, done1[done.len() as int].1, qth));
        } else {
            assert(q.contains(qnew[i]));
            let m = choose|m: int| 0 <= m < q.len() && q[m] == qnew[i];
            if !q0.contains(q[m]) {
                let k = choose|k: int|
                    0 <= k < done.len() && job_from_pair(q[m], done[k].0, done[k].1, qth);
                assert(done1[k] == done[k]);
                assert(job_from_pair(qnew[i], done1[k].0, done1[k].1, qth));
            }
        }
    }
}


/// The ids of the queued jobs, as a set.
pub open spec fn job_id_set(s: Seq<Job>) -> Set<u64>
    decreases s.len(),
{
    if s.len() == 0 {
        Set::empty()
    } else {
        job_id_set(s.drop_last()).insert(s.last().job.id)
    }
}

/// The queued ids together with the ids of the batch's pairs.
pub open spec fn merged_id_set(
    before: Seq<Job>,
    pairs: Seq<(network::Job, network::Observation)>,
) -> Set<u64>
    decreases pairs.len(),
{
    if pairs.len() == 0 {
        job_id_set(before)
    } else {
        merged_id_set(before, pairs.drop_last()).insert(pairs.last().0.id)
    }
}

/// How many distinct new ids a batch brings: pairs whose id is neither
/// queued already nor carried by an earlier pair of the batch.
pub open spec fn count_new_ids(
    before: Seq<Job>,
    pairs: Seq<(network::Job, network::Observation)>,
) -> int
    decreases pairs.len(),
{
    if pairs.len() == 0 {
        0
    } else {
        count_new_ids(before, pairs.drop_last()) + (if has_job_id(before, pairs.last().0.id)
            || has_pair_id(pairs.drop_last(), pairs.last().0.id) {
            0int
        } else {
            1int
        })
    }
}

/// The id set of a queue holds exactly its queued ids, and is finite.
proof fn lemma_job_id_set(s: Seq<Job>)
    ensures
        job_id_set(s).finite(),
        forall|id: u64| job_id_set(s).contains(id) <==> #[trigger] has_job_id(s, id),
    decreases s.len(),
{
    if s.len() == 0 {
        assert(Set::<u64>::empty().finite());
        assert forall|id: u64| job_id_set(s).contains(id) <==> #[trigger] has_job_id(
            s,
            id,
        ) by {
            assert(!Set::<u64>::empty().contains(id));
        }
    } else {
        let d = s.drop_last();
        lemma_job_id_set(d);
        assert forall|id: u64| job_id_set(s).contains(id) <==> #[trigger] has_job_id(
            s,
            id,
        ) by {
            let dset = job_id_set(d);
            assert(job_id_set(s) == dset.insert(s.last().job.id));
            if job_id_set(s).contains(id) {
                if id != s.last().job.id {
                    assert(dset.contains(id));
                    assert(has_job_id(d, id));
                    let i = choose|i: int| 0 <= i < d.len() && d[i].job.id == id;
                    assert(s[i].job.id == id);
                    assert(has_job_id(s, id));
                } else {
                    assert(s[s.len() - 1].job.id == id);
                    assert(has_job_id(s, id));
                }
            }
            if has_job_id(s, id) {
                let i = choose|i: int| 0 <= i < s.len() && s[i].job.id == id;
                if i < s.len() - 1 {
                    assert(d[i].job.id == id);
                    assert(has_job_id(d, id));
                    assert(dset.contains(id));
                    assert(job_id_set(s).contains(id));
                } else {
                    assert(id == s.last().job.id);
                    assert(job_id_set(s).contains(id));
                }
            }
        }
    }
}

/// With unique ids the queue is as long as its id set.
proof fn lemma_job_id_set_len(s: Seq<Job>)
    requires
        jobs_unique_ids(s),
    ensures
        job_id_set(s).finite(),
        job_id_set(s).len() == s.len(),
    decreases s.len(),
{
    if s.len() == 0 {
        assert(Set::<u64>::empty().len() == 0);
    } else {
        let d = s.drop_last();
        assert(jobs_unique_ids(d)) by {
            assert forall|i: int, j: int| 0 <= i < j < d.len() implies d[i].job.id
                != d[j].job.id by {
                assert(d[i] == s[i] && d[j] == s[j]);
            }
        }
        lemma_job_id_set_len(d);
        lemma_job_id_set(d);
        assert(!has_job_id(d, s.last().job.id)) by {
            if has_job_id(d, s.last().job.id) {
                let i = choose|i: int| 0 <= i < d.len() && d[i].job.id == s.last().job.id;
                assert(s[i].job.id == s[s.len() - 1].job.id);
            }
        }
        vstd::set::axiom_set_insert_len(job_id_set(d), s.last().job.id);
    }
}

/// The merged id set holds exactly the queued and batch ids, and grows by
/// exactly the count of new ids.
proof fn lemma_merged_id_set(before: Seq<Job>, pairs: Seq<(network::Job, network::Observation)>)
    ensures
        merged_id_set(before, pairs).finite(),
        forall|id: u64|
            merged_id_set(before, pairs).contains(id) <==> (#[trigger] has_job_id(before, id)
                || has_pair_id(pairs, id)),
        merged_id_set(before, pairs).len() == job_id_set(before).len() + count_new_ids(
            before,
            pairs,
        ),
    decreases pairs.len(),
{
    lemma_job_id_set(before);
    if pairs.len() == 0 {
        assert forall|id: u64|
            merged_id_set(before, pairs).contains(id) <==> (#[trigger] has_job_id(before, id)
                || has_pair_id(pairs, id)) by {
            assert(!has_pair_id(pairs, id)) by {
                if has_pair_id(pairs, id) {
                    let k = choose|k: int| 0 <= k < pairs.len() && pairs[k].0.id == id;
                }
            }
            assert(merged_id_set(before, pairs) == job_id_set(before));
            assert(job_id_set(before).contains(id) <==> has_job_id(before, id));
        }
    } else {
        let d = pairs.drop_last();
        let last = pairs.last();
        lemma_merged_id_set(before, d);
        assert(pairs =~= d.push(last));
        lemma_has_pair_push(d, last);
        assert forall|id: u64|
            merged_id_set(before, pairs).contains(id) <==> (#[trigger] has_job_id(before, id)
                || has_pair_id(pairs, id)) by {
            let mset = merged_id_set(before, d);
            assert(merged_id_set(before, pairs) == mset.insert(last.0.id));
            assert(mset.contains(id) <==> (has_job_id(before, id) || has_pair_id(d, id)));
            assert(has_pair_id(pairs, id) <==> (has_pair_id(d, id) || id == last.0.id)) by {
                assert(pairs == d.push(last));
                assert(has_pair_id(d.push(last), id) <==> (has_pair_id(d, id) || id
                    == last.0.id));
            }
        }
        vstd::set::axiom_set_insert_len(merged_id_set(before, d), last.0.id);
        assert(merged_id_set(before, d).contains(last.0.id) <==> (has_job_id(
            before,
            last.0.id,
        ) || has_pair_id(d, last.0.id)));
    }
}

/// Exact growth: a merge lengthens the queue by exactly the number of
/// distinct batch ids that were not queued yet.
pub proof fn lemma_merge_growth(
    before: Seq<Job>,
    pairs: Seq<(network::Job, network::Observation)>,
    qth: Location,
    after: Seq<Job>,
)
    requires
        jobs_unique_ids(before),
        merged_jobs(before, pairs, qth, after),
    ensures
        after.len() == before.len() + count_new_ids(before, pairs),
{
    lemma_job_id_set(before);
    lemma_job_id_set(after);
    lemma_job_id_set_len(before);
    lemma_job_id_set_len(after);
    lemma_merged_id_set(before, pairs);
    assert(job_id_set(after) =~= merged_id_set(before, pairs)) by {
        assert forall|id: u64|
            job_id_set(after).contains(id) <==> merged_id_set(before, pairs).contains(id) by {
            assert(job_id_set(after).contains(id) <==> has_job_id(after, id));
            assert(has_job_id(after, id) <==> (has_job_id(before, id) || has_pair_id(
                pairs,
                id,
            )));
        }
    }
}

} // verus!
