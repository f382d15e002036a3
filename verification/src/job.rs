//! A job: one scheduled observation of a station, owning its network record,
//! the paired observation, and the vessel it tracks.

use vstd::prelude::*;

use crate::network;
use crate::vessel::{Location, SatState, Vessel};

verus! {

/// One scheduled observation in a station's queue.
pub struct Job {
    /// The job record as fetched from the network.
    pub job: network::Job,
    /// The observation record paired with the job.
    pub observation: network::Observation,
    /// The tracked satellite, seeded with the station's location.
    pub vessel: Vessel,
}

/// Whether `j` is exactly the job built from the fetched pair
/// `(njob, obs)` for an observer at `qth`: the records are stored and the
/// vessel is seeded with the pair's elements and an empty cache.
pub open spec fn job_from_pair(
    j: Job,
    njob: network::Job,
    obs: network::Observation,
    qth: Location,
) -> bool {
    &&& j.job == njob
    &&& j.observation == obs
    &&& j.vessel.id == obs.norad_cat_id
    &&& j.vessel.qth == qth
    &&& j.vessel.tle.name@ == njob.tle0@
    &&& j.vessel.tle.line1@ == njob.tle1@
    &&& j.vessel.tle.line2@ == njob.tle2@
    &&& j.vessel.footprint@.len() == 0
    &&& j.vessel.ground_track@.len() == 0
    &&& j.vessel.polar_track@.len() == 0
    &&& j.vessel.sat is None
}

impl Job {
    /// Build a job from a freshly fetched (job, observation) pair, seeding
    /// its vessel with the station's location.
    pub fn new(pair: (network::Job, network::Observation), qth: Location) -> (j: Job)
        ensures
            job_from_pair(j, pair.0, pair.1, qth),
    {
        let (njob, observation) = pair;
        let vessel = Vessel::new(
            observation.norad_cat_id,
            njob.tle0.as_str(),
            njob.tle1.as_str(),
            njob.tle2.as_str(),
            qth,
        );
        Job { job: njob, observation, vessel }
    }

    /// The job's id.
    pub fn id(&self) -> (r: u64)
        ensures
            r == self.job.id,
    {
        self.job.id
    }

    /// Start of the observation window, seconds since the UNIX epoch.
    pub fn start(&self) -> (r: i64)
        ensures
            r == self.job.start,
    {
        self.job.start
    }

    /// End of the observation window, seconds since the UNIX epoch.
    pub fn end(&self) -> (r: i64)
        ensures
            r == self.job.end,
    {
        self.job.end
    }

    /// Transmit frequency in Hz.
    pub fn frequency(&self) -> (r: u64)
        ensures
            r == self.job.frequency,
    {
        self.job.frequency
    }

    /// The job's mode name.
    pub fn mode(&self) -> (r: &str)
        ensures
            r@ == self.job.mode@,
    {
        self.job.mode.as_str()
    }

    /// The tracked satellite's name.
    pub fn vessel_name(&self) -> (r: &str)
        ensures
            r@ == self.vessel.tle.name@,
    {
        self.vessel.tle.name.as_str()
    }

    /// The vessel's most recently stored propagation sample.
    pub fn sat(&self) -> (r: Option<SatState>)
        ensures
            r == self.vessel.sat,
    {
        self.vessel.sat()
    }

    /// Store a freshly propagated sample in the vessel; returns whether its
    /// ground track is stale.
    pub fn update_position(&mut self, fresh: SatState) -> (track_stale: bool)
        ensures
            final(self).job == old(self).job,
            final(self).observation == old(self).observation,
            final(self).vessel.sat == Some(fresh),
            track_stale == old(self).vessel.spec_track_stale(fresh),
            final(self).vessel.ground_track == old(self).vessel.ground_track,
            final(self).vessel.footprint == old(self).vessel.footprint,
            final(self).vessel.polar_track == old(self).vessel.polar_track,
            final(self).vessel.id == old(self).vessel.id,
            final(self).vessel.qth == old(self).vessel.qth,
            final(self).vessel.tle == old(self).vessel.tle,
    {
        self.vessel.update_position(fresh)
    }
}

} // verus!
