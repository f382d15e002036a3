//! The network worker's vocabulary: commands it accepts, data it returns,
//! and the pairing of freshly fetched jobs with their observations.

use vstd::prelude::*;

use crate::network::{obs_equiv, Job, Observation};

verus! {

/// Data the network worker hands back over the event bus.
pub enum Data {
    /// Job/observation pairs freshly fetched for one station.
    Jobs(u64, Vec<(Job, Observation)>),
}

/// Commands the consumer loop sends to the network worker.
#[derive(Clone, Copy, Debug, PartialEq, Eq, Structural)]
pub enum Command {
    /// Fetch the job list of the station with this id.
    GetJobs(u64),
}

/// The first observation whose id equals `id`, scanning front to back.
pub open spec fn spec_find_obs(obs: Seq<Observation>, id: u64) -> Option<Observation>
    decreases obs.len(),
{
    if obs.len() == 0 {
        None
    } else if obs.first().id == id {
        Some(obs.first())
    } else {
        spec_find_obs(obs.drop_first(), id)
    }
}

/// The jobs that have an observation with their id, in job order, each
/// paired with the first such observation.
pub open spec fn spec_pair_jobs(jobs: Seq<Job>, obs: Seq<Observation>) -> Seq<(Job, Observation)>
    decreases jobs.len(),
{
    if jobs.len() == 0 {
        Seq::empty()
    } else {
        let rest = spec_pair_jobs(jobs.drop_first(), obs);
        match spec_find_obs(obs, jobs.first().id) {
            Some(o) => seq![(jobs.first(), o)] + rest,
            None => rest,
        }
    }
}

/// A scan that stopped at index `k` found what `spec_find_obs` denotes.
proof fn lemma_find_obs_at(obs: Seq<Observation>, id: u64, k: int)
    requires
        0 <= k < obs.len(),
        obs[k].id == id,
        forall|j: int| 0 <= j < k ==> obs[j].id != id,
    ensures
        spec_find_obs(obs, id) == Some(obs[k]),
    decreases obs.len(),
{
    if k > 0 {
        lemma_find_obs_at(obs.drop_first(), id, k - 1);
    }
}

/// A scan that found no match means `spec_find_obs` denotes nothing.
proof fn lemma_find_obs_none(obs: Seq<Observation>, id: u64)
    requires
        forall|j: int| 0 <= j < obs.len() ==> obs[j].id != id,
    ensures
        spec_find_obs(obs, id) is None,
    decreases obs.len(),
{
    if obs.len() > 0 {
        lemma_find_obs_none(obs.drop_first(), id);
    }
}

/// Pairing distributes over splitting the job list.
proof fn lemma_pair_jobs_concat(a: Seq<Job>, b: Seq<Job>, obs: Seq<Observation>)
    ensures
        spec_pair_jobs(a + b, obs) == spec_pair_jobs(a, obs) + spec_pair_jobs(b, obs),
    decreases a.len(),
{
    if a.len() == 0 {
        assert(a + b =~= b);
        assert(spec_pair_jobs(a, obs) + spec_pair_jobs(b, obs) =~= spec_pair_jobs(b, obs));
    } else {
        assert((a + b).drop_first() =~= a.drop_first() + b);
        lemma_pair_jobs_concat(a.drop_first(), b, obs);
        match spec_find_obs(obs, a.first().id) {
            Some(o) => {
                assert(spec_pair_jobs(a + b, obs) =~= spec_pair_jobs(a, obs) + spec_pair_jobs(
                    b,
                    obs,
                ));
            },
            None => {},
        }
    }
}

/// Find the first observation with the given id.
fn find_observation(observations: &Vec<Observation>, id: u64) -> (r: Option<&Observation>)
    ensures
        match r {
            Some(o) => spec_find_obs(observations@, id) == Some(*o),
            None => spec_find_obs(observations@, id) is None,
        },
{
    let mut k: usize = 0;
    while k < observations.len()
        invariant
            0 <= k <= observations@.len(),
            forall|j: int| 0 <= j < k ==> observations@[j].id != id,
        decreases observations@.len() - k,
    {
        if observations[k].id == id {
            proof {
                lemma_find_obs_at(observations@, id, k as int);
            }
            return Some(&observations[k]);
        }
        k = k + 1;
    }
    proof {
        lemma_find_obs_none(observations@, id);
    }
    None
}

/// Pair each fetched job with the first observation that shares its id,
/// keeping job order; jobs without an observation are dropped.
///
/// The observations in the result are copies: equivalent to, though not the
/// same values as, the entries of `observations`.
pub fn pair_jobs(jobs: Vec<Job>, observations: &Vec<Observation>) -> (out: Vec<(Job, Observation)>)
    ensures
        out@.len() == spec_pair_jobs(jobs@, observations@).len(),
        forall|i: int|
            0 <= i < out@.len() ==> #[trigger] out@[i].0 == spec_pair_jobs(
                jobs@,
                observations@,
            )[i].0 && obs_equiv(out@[i].1, spec_pair_jobs(jobs@, observations@)[i].1),
{
    let ghost orig = jobs@;
    let ghost target = spec_pair_jobs(jobs@, observations@);
    let mut jobs = jobs;
    let mut out: Vec<(Job, Observation)> = Vec::new();
    while jobs.len() > 0
        invariant
            orig =~= orig.take(orig.len() - jobs@.len()) + jobs@,
            jobs@ =~= orig.skip(orig.len() - jobs@.len()),
            target == spec_pair_jobs(orig, observations@),
            out@.len() == spec_pair_jobs(
                orig.take(orig.len() - jobs@.len()),
                observations@,
            ).len(),
            forall|i: int|
                0 <= i < out@.len() ==> #[trigger] out@[i].0 == spec_pair_jobs(
                    orig.take(orig.len() - jobs@.len()),
                    observations@,
                )[i].0 && obs_equiv(
                    out@[i].1,
                    spec_pair_jobs(orig.take(orig.len() - jobs@.len()), observations@)[i].1,
                ),
        decreases jobs@.len(),
    {
        let ghost i = orig.len() - jobs@.len();
        let ghost done = orig.take(i);
        let job = jobs.remove(0);
        proof {
            assert(orig.take(i + 1) =~= done + seq![job]);
            lemma_pair_jobs_concat(done, seq![job], observations@);
            assert(seq![job].drop_first() =~= Seq::<Job>::empty());
            assert(spec_pair_jobs(Seq::<Job>::empty(), observations@) == Seq::<(
                Job,
                Observation,
            )>::empty());
            assert(seq![job].len() == 1 && seq![job].first() == job);
            match spec_find_obs(observations@, job.id) {
                Some(o) => {
                    assert(spec_pair_jobs(seq![job], observations@) =~= seq![(job, o)]);
                },
                None => {
                    assert(spec_pair_jobs(seq![job], observations@) =~= Seq::<(
                        Job,
                        Observation,
                    )>::empty());
                },
            }
            assert(jobs@ =~= orig.skip(i + 1));
        }
        match find_observation(observations, job.id) {
            Some(o) => {
                let copied = o.clone();
                out.push((job, copied));
                proof {
                    let now_done = orig.take(i + 1);
                    let spec_now = spec_pair_jobs(now_done, observations@);
                    assert(spec_now =~= spec_pair_jobs(done, observations@) + seq![
                        (job, spec_find_obs(observations@, job.id)->Some_0),
                    ]);
                }
            },
            None => {},
        }
    }
    proof {
        assert(orig.take(orig.len() - jobs@.len()) =~= orig);
    }
    out
}

} // verus!
