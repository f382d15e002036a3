//! A vessel: one tracked satellite, owned by a job. It wraps the orbital
//! elements and the observer location, and caches derived geometry as plain
//! values: positions in micro-degrees, angles in milli-degrees. The
//! propagation library that computes samples runs outside this library; the
//! cache policy and the track-building protocol are verified here.

use vstd::prelude::*;

verus! {

/// Fixed step, in seconds, between propagation samples of a ground track.
pub const TRACK_STEP_SECS: i64 = 10;

/// An observer location: latitude and longitude in micro-degrees, altitude
/// in millimetres.
#[derive(Clone, Copy, Debug, PartialEq, Eq, Structural)]
pub struct Location {
    pub lat_udeg: i64,
    pub lon_udeg: i64,
    pub alt_mm: i64,
}

/// An orbital element set: the name line and the two element lines.
pub struct Tle {
    pub name: String,
    pub line1: String,
    pub line2: String,
}

/// One propagated sample of a satellite's state, as seen from the observer.
#[derive(Clone, Copy, Debug, PartialEq, Eq, Structural)]
pub struct SatState {
    /// Orbit number; a change marks the start of a new orbit.
    pub orbit_nr: u64,
    /// Sub-satellite latitude in micro-degrees.
    pub lat_udeg: i64,
    /// Sub-satellite longitude in micro-degrees.
    pub lon_udeg: i64,
    /// Altitude in metres.
    pub alt_m: i64,
    /// Velocity in millimetres per second.
    pub vel_mm_s: i64,
    /// Range to the observer in metres.
    pub range_m: i64,
    /// Range rate in millimetres per second.
    pub range_rate_mm_s: i64,
    /// Azimuth from the observer in milli-degrees.
    pub az_mdeg: i64,
    /// Elevation from the observer in milli-degrees.
    pub el_mdeg: i64,
}

/// One tracked satellite with its cached derived geometry.
pub struct Vessel {
    /// Footprint ring: (longitude, latitude) in micro-degrees.
    pub footprint: Vec<(i64, i64)>,
    /// Ground track: (longitude, latitude) in micro-degrees, one point per
    /// propagation step, from the start of the current orbit onward.
    pub ground_track: Vec<(i64, i64)>,
    /// Polar track over the observation window: (azimuth, elevation) in
    /// milli-degrees.
    pub polar_track: Vec<(i64, i64)>,
    /// The satellite's NORAD catalogue id.
    pub id: u64,
    /// The observer location the geometry is computed for.
    pub qth: Location,
    /// The most recently stored propagation sample; empty until the first
    /// update.
    pub sat: Option<SatState>,
    /// The orbital elements.
    pub tle: Tle,
}

impl Vessel {
    /// A vessel with the given identity and no cached geometry.
    pub fn new(id: u64, name: &str, tle1: &str, tle2: &str, qth: Location) -> (v: Vessel)
        ensures
            v.id == id,
            v.qth == qth,
            v.tle.name@ == name@,
            v.tle.line1@ == tle1@,
            v.tle.line2@ == tle2@,
            v.footprint@.len() == 0,
            v.ground_track@.len() == 0,
            v.polar_track@.len() == 0,
            v.sat is None,
    {
        Vessel {
            footprint: Vec::new(),
            ground_track: Vec::new(),
            polar_track: Vec::new(),
            id,
            qth,
            sat: None,
            tle: Tle { name: name.to_owned(), line1: tle1.to_owned(), line2: tle2.to_owned() },
        }
    }

    /// The satellite's name, from the elements' name line.
    pub fn name(&self) -> (r: &str)
        ensures
            r@ == self.tle.name@,
    {
        self.tle.name.as_str()
    }

    /// The most recently stored propagation sample.
    pub fn sat(&self) -> (r: Option<SatState>)
        ensures
            r == self.sat,
    {
        self.sat
    }

    /// Whether storing `fresh` must be followed by recomputing the ground
    /// track: the cache is empty, or the orbit number changed.
    pub open spec fn spec_track_stale(self, fresh: SatState) -> bool {
        match self.sat {
            None => true,
            Some(prev) => prev.orbit_nr != fresh.orbit_nr || self.ground_track@.len() == 0,
        }
    }

    /// Store a freshly propagated sample. Returns whether the cached ground
    /// track is stale and must be recomputed; the cached tracks themselves
    /// are never touched here.
    pub fn update_position(&mut self, fresh: SatState) -> (track_stale: bool)
        ensures
            final(self).sat == Some(fresh),
            track_stale == old(self).spec_track_stale(fresh),
            final(self).ground_track == old(self).ground_track,
            final(self).footprint == old(self).footprint,
            final(self).polar_track == old(self).polar_track,
            final(self).id == old(self).id,
            final(self).qth == old(self).qth,
            final(self).tle == old(self).tle,
    {
        let stale = match self.sat {
            None => true,
            Some(prev) => prev.orbit_nr != fresh.orbit_nr || self.ground_track.len() == 0,
        };
        self.sat = Some(fresh);
        stale
    }

    /// Replace the cached ground track with a freshly computed one.
    pub fn set_ground_track(&mut self, points: Vec<(i64, i64)>)
        ensures
            final(self).ground_track == points,
            final(self).footprint == old(self).footprint,
            final(self).polar_track == old(self).polar_track,
            final(self).sat == old(self).sat,
            final(self).id == old(self).id,
            final(self).qth == old(self).qth,
            final(self).tle == old(self).tle,
    {
        self.ground_track = points;
    }

    /// Replace the cached footprint ring.
    pub fn set_footprint(&mut self, points: Vec<(i64, i64)>)
        ensures
            final(self).footprint == points,
            final(self).ground_track == old(self).ground_track,
            final(self).polar_track == old(self).polar_track,
            final(self).sat == old(self).sat,
            final(self).id == old(self).id,
            final(self).qth == old(self).qth,
            final(self).tle == old(self).tle,
    {
        self.footprint = points;
    }

    /// Replace the cached polar track.
    pub fn set_polar_track(&mut self, points: Vec<(i64, i64)>)
        ensures
            final(self).polar_track == points,
            final(self).ground_track == old(self).ground_track,
            final(self).footprint == old(self).footprint,
            final(self).sat == old(self).sat,
            final(self).id == old(self).id,
            final(self).qth == old(self).qth,
            final(self).tle == old(self).tle,
    {
        self.polar_track = points;
    }
}

/// Ground-track cache stability: once a position update has stored a sample
/// and a track has been computed, a second update within the same orbit
/// finds the cache fresh — by `update_position`'s contract it leaves the
/// track untouched.
pub proof fn lemma_track_cache_stable(v: Vessel, s2: SatState)
    requires
        v.sat is Some,
        v.sat->Some_0.orbit_nr == s2.orbit_nr,
        v.ground_track@.len() > 0,
    ensures
        !v.spec_track_stale(s2),
{
}

/// A detected orbit-number change always marks the cached track stale, so a
/// recomputation is always triggered.
pub proof fn lemma_orbit_change_recomputes(v: Vessel, fresh: SatState)
    requires
        v.sat is Some ==> v.sat->Some_0.orbit_nr != fresh.orbit_nr,
    ensures
        v.spec_track_stale(fresh),
{
}

/// Phase of an in-progress ground-track computation.
#[derive(Clone, Copy, Debug, PartialEq, Eq, Structural)]
pub enum TrackPhase {
    /// Stepping backward in time until the orbit number changes, to locate
    /// the start of the current orbit.
    SeekingOrbitStart,
    /// Stepping forward in time, recording one point per sample, until the
    /// orbit number has advanced by the requested span.
    Advancing,
    /// The track is complete.
    Done,
}

/// Step-by-step ground-track computation. The caller propagates the orbital
/// elements at `next_time()`, hands the sample to `step`, and repeats until
/// the builder is done; the propagation itself happens outside the library.
pub struct TrackBuilder {
    pub phase: TrackPhase,
    /// The orbit number at the moment the track was requested.
    pub base_orbit: u64,
    /// How many orbits ahead the track extends.
    pub span: u8,
    /// The time, in seconds since the UNIX epoch, to propagate for the next
    /// step.
    pub time: i64,
    /// The recorded points: (longitude, latitude) in micro-degrees.
    pub points: Vec<(i64, i64)>,
}

impl TrackBuilder {
    /// Start computing a track of `span` orbits for a satellite currently on
    /// orbit `current_orbit` at time `now`.
    pub fn new(now: i64, current_orbit: u64, span: u8) -> (b: TrackBuilder)
        ensures
            b.phase == TrackPhase::SeekingOrbitStart,
            b.base_orbit == current_orbit,
            b.span == span,
            b.time == now,
            b.points@.len() == 0,
    {
        TrackBuilder {
            phase: TrackPhase::SeekingOrbitStart,
            base_orbit: current_orbit,
            span,
            time: now,
            points: Vec::new(),
        }
    }

    /// The time to propagate for the next step.
    pub fn next_time(&self) -> (t: i64)
        ensures
            t == self.time,
    {
        self.time
    }

    /// Feed the sample propagated at `next_time()` back in.
    ///
    /// While seeking, the time walks backward one step at a time until the
    /// orbit number differs from the base orbit; from there the time walks
    /// forward, recording one point per sample, until a sample's orbit
    /// number has advanced `span` orbits past the base.
    pub fn step(&mut self, sample: SatState) -> (done: bool)
        requires
            old(self).phase != TrackPhase::Done,
            i64::MIN + TRACK_STEP_SECS < old(self).time,
            old(self).time < i64::MAX - TRACK_STEP_SECS,
        ensures
            final(self).base_orbit == old(self).base_orbit,
            final(self).span == old(self).span,
            done == (final(self).phase == TrackPhase::Done),
            old(self).phase == TrackPhase::SeekingOrbitStart && sample.orbit_nr == old(
                self,
            ).base_orbit ==> {
                &&& final(self).phase == TrackPhase::SeekingOrbitStart
                &&& final(self).time == old(self).time - TRACK_STEP_SECS
                &&& final(self).points == old(self).points
            },
            old(self).phase == TrackPhase::SeekingOrbitStart && sample.orbit_nr != old(
                self,
            ).base_orbit ==> {
                &&& final(self).phase == TrackPhase::Advancing
                &&& final(self).time == old(self).time + TRACK_STEP_SECS
                &&& final(self).points == old(self).points
            },
            old(self).phase == TrackPhase::Advancing ==> {
                &&& final(self).points@ == old(self).points@.push(
                    (sample.lon_udeg, sample.lat_udeg),
                )
                &&& (sample.orbit_nr < old(self).base_orbit + old(self).span ==> {
                    &&& final(self).phase == TrackPhase::Advancing
                    &&& final(self).time == old(self).time + TRACK_STEP_SECS
                })
                &&& (sample.orbit_nr >= old(self).base_orbit + old(self).span
                    ==> final(self).phase == TrackPhase::Done)
            },
    {
        match self.phase {
            TrackPhase::SeekingOrbitStart => {
                if sample.orbit_nr == self.base_orbit {
                    self.time = self.time - TRACK_STEP_SECS;
                } else {
                    self.phase = TrackPhase::Advancing;
                    self.time = self.time + TRACK_STEP_SECS;
                }
                false
            },
            TrackPhase::Advancing => {
                self.points.push((sample.lon_udeg, sample.lat_udeg));
                let within = sample.orbit_nr < self.base_orbit
                    || sample.orbit_nr - self.base_orbit < self.span as u64;
                if within {
                    self.time = self.time + TRACK_STEP_SECS;
                    false
                } else {
                    self.phase = TrackPhase::Done;
                    true
                }
            },
            TrackPhase::Done => false,
        }
    }
}

/// The sample times of a polar track over an observation window: from `aos`
/// to `los` inclusive, one sample every two seconds. The caller propagates
/// the elements at each time and records (azimuth, elevation).
pub fn polar_track_times(aos: i64, los: i64) -> (times: Vec<i64>)
    requires
        aos <= los,
        los < i64::MAX - 2,
    ensures
        times@.len() == (los - aos) / 2 + 1,
        forall|i: int| 0 <= i < times@.len() ==> times@[i] == aos + 2 * i,
{
    let mut times: Vec<i64> = Vec::new();
    let mut t: i64 = aos;
    while t <= los
        invariant
            aos <= t,
            t <= los + 2,
            los < i64::MAX - 2,
            (t - aos) % 2 == 0,
            times@.len() * 2 == t - aos,
            forall|i: int| 0 <= i < times@.len() ==> times@[i] == aos + 2 * i,
        decreases los + 2 - t,
    {
        times.push(t);
        t = t + 2;
    }
    times
}

} // verus!
