//! Typed records of the remote network API, held as plain values: times in
//! whole seconds since the UNIX epoch, angles in milli-degrees, positions in
//! micro-degrees and millimetres. The HTTP client that fills them lives
//! outside the library; the records and the query filter are its contract.

use vstd::prelude::*;

use crate::timefmt::{format_rfc3339_seconds, rfc3339_rendering};

verus! {

/// One demodulated data payload attached to an observation.
pub struct DemodData {
    pub payload_demod: String,
}

/// One antenna of a ground station.
pub struct Antenna {
    /// Minimum frequency in Hz.
    pub frequency: u64,
    /// Maximum frequency in Hz.
    pub frequency_max: u64,
    /// Frequency band.
    pub band: String,
    /// Antenna type.
    pub antenna_type: String,
}

/// Operational status of a ground station.
#[derive(Clone, Copy, Debug, PartialEq, Eq, Structural)]
pub enum StationStatus {
    Online,
    Offline,
    Testing,
}

/// A scheduled job of a ground station.
pub struct Job {
    pub id: u64,
    /// Start of the observation window, seconds since the UNIX epoch.
    pub start: i64,
    /// End of the observation window, seconds since the UNIX epoch.
    pub end: i64,
    pub ground_station: u64,
    /// Orbital element set: name line and the two element lines.
    pub tle0: String,
    pub tle1: String,
    pub tle2: String,
    /// Transmit frequency in Hz.
    pub frequency: u64,
    pub mode: String,
    pub transmitter: String,
}

/// The observation record paired 1:1 with a job by id.
pub struct Observation {
    pub id: u64,
    /// Seconds since the UNIX epoch.
    pub start: i64,
    /// Seconds since the UNIX epoch.
    pub end: i64,
    pub ground_station: u64,
    pub transmitter: String,
    pub norad_cat_id: u64,
    /// Azimuth at rise, milli-degrees.
    pub rise_azimuth_mdeg: i64,
    /// Azimuth at set, milli-degrees.
    pub set_azimuth_mdeg: i64,
    /// Maximum altitude, milli-degrees.
    pub max_altitude_mdeg: i64,
    pub vetted_status: String,
    pub demoddata: Vec<DemodData>,
}

/// The fields of a station record that the dashboard reads.
pub struct StationInfo {
    pub id: u64,
    pub name: String,
    /// Station latitude in micro-degrees.
    pub lat_udeg: i64,
    /// Station longitude in micro-degrees.
    pub lon_udeg: i64,
    /// Station altitude in millimetres.
    pub alt_mm: i64,
    /// Minimum horizon in milli-degrees.
    pub min_horizon_mdeg: i64,
    pub qthlocator: String,
    pub antenna: Vec<Antenna>,
    /// Seconds since the UNIX epoch.
    pub created: i64,
    /// Seconds since the UNIX epoch, where the network has seen the station.
    pub last_seen: Option<i64>,
    pub status: StationStatus,
    /// Number of observations the network counts for the station.
    pub observations: u64,
    pub description: String,
}

/// Whether two demodulated payload records carry the same text.
pub open spec fn demod_equiv(a: DemodData, b: DemodData) -> bool {
    a.payload_demod@ == b.payload_demod@
}

/// Whether two observation records carry the same values, comparing text
/// fields by their characters.
pub open spec fn obs_equiv(a: Observation, b: Observation) -> bool {
    &&& a.id == b.id
    &&& a.start == b.start
    &&& a.end == b.end
    &&& a.ground_station == b.ground_station
    &&& a.transmitter@ == b.transmitter@
    &&& a.norad_cat_id == b.norad_cat_id
    &&& a.rise_azimuth_mdeg == b.rise_azimuth_mdeg
    &&& a.set_azimuth_mdeg == b.set_azimuth_mdeg
    &&& a.max_altitude_mdeg == b.max_altitude_mdeg
    &&& a.vetted_status@ == b.vetted_status@
    &&& a.demoddata@.len() == b.demoddata@.len()
    &&& forall|i: int|
        0 <= i < a.demoddata@.len() ==> demod_equiv(#[trigger] a.demoddata@[i], b.demoddata@[i])
}

impl Clone for DemodData {
    fn clone(&self) -> (r: Self)
        ensures
            demod_equiv(r, *self),
    {
        DemodData { payload_demod: self.payload_demod.clone() }
    }
}

impl Clone for Observation {
    fn clone(&self) -> (r: Self)
        ensures
            obs_equiv(r, *self),
    {
        let mut demoddata: Vec<DemodData> = Vec::new();
        let mut i: usize = 0;
        while i < self.demoddata.len()
            invariant
                0 <= i <= self.demoddata@.len(),
                demoddata@.len() == i,
                forall|k: int|
                    0 <= k < i ==> demod_equiv(#[trigger] demoddata@[k], self.demoddata@[k]),
            decreases self.demoddata@.len() - i,
        {
            demoddata.push(self.demoddata[i].clone());
            i = i + 1;
        }
        Observation {
            id: self.id,
            start: self.start,
            end: self.end,
            ground_station: self.ground_station,
            transmitter: self.transmitter.clone(),
            norad_cat_id: self.norad_cat_id,
            rise_azimuth_mdeg: self.rise_azimuth_mdeg,
            set_azimuth_mdeg: self.set_azimuth_mdeg,
            max_altitude_mdeg: self.max_altitude_mdeg,
            vetted_status: self.vetted_status.clone(),
            demoddata,
        }
    }
}

/// The character for the decimal digit `d`.
pub open spec fn digit_char(d: int) -> char
    recommends
        0 <= d <= 9,
{
    if d == 0 {
        '0'
    } else if d == 1 {
        '1'
    } else if d == 2 {
        '2'
    } else if d == 3 {
        '3'
    } else if d == 4 {
        '4'
    } else if d == 5 {
        '5'
    } else if d == 6 {
        '6'
    } else if d == 7 {
        '7'
    } else if d == 8 {
        '8'
    } else {
        '9'
    }
}

/// The decimal digits of `n`, most significant first.
pub open spec fn dec_digits(n: nat) -> Seq<char>
    decreases n,
{
    if n < 10 {
        seq![digit_char(n as int)]
    } else {
        dec_digits(n / 10).push(digit_char((n % 10) as int))
    }
}

/// Relies on std's formatting of u64 through format!, which writes the
/// value's decimal digits.
#[verifier::external_body]
pub fn u64_to_decimal(n: u64) -> (r: String)
    ensures
        r@ == dec_digits(n as nat),
{
    format!("{}", n)
}

/// Query filter for the observations endpoint; empty fields are left out of
/// the query.
pub struct ObservationFilter {
    pub ground_station: String,
    pub start: String,
    pub end: String,
    pub norad_cat_id: String,
}

/// The key/value pairs the filter contributes to a query, in their fixed
/// order; an empty field contributes none.
pub open spec fn spec_filter_params(f: ObservationFilter) -> Seq<(Seq<char>, Seq<char>)> {
    let p0: Seq<(Seq<char>, Seq<char>)> = if f.ground_station@.len() > 0 {
        seq![("ground_station"@, f.ground_station@)]
    } else {
        Seq::empty()
    };
    let p1: Seq<(Seq<char>, Seq<char>)> = if f.start@.len() > 0 {
        seq![("start"@, f.start@)]
    } else {
        Seq::empty()
    };
    let p2: Seq<(Seq<char>, Seq<char>)> = if f.end@.len() > 0 {
        seq![("end"@, f.end@)]
    } else {
        Seq::empty()
    };
    let p3: Seq<(Seq<char>, Seq<char>)> = if f.norad_cat_id@.len() > 0 {
        seq![("satellite__norad_cat_id"@, f.norad_cat_id@)]
    } else {
        Seq::empty()
    };
    p0 + p1 + p2 + p3
}

impl ObservationFilter {
    /// A filter with every field empty.
    pub fn new() -> (f: ObservationFilter)
        ensures
            f.ground_station@.len() == 0,
            f.start@.len() == 0,
            f.end@.len() == 0,
            f.norad_cat_id@.len() == 0,
    {
        ObservationFilter {
            ground_station: String::new(),
            start: String::new(),
            end: String::new(),
            norad_cat_id: String::new(),
        }
    }

    /// Restrict the filter to one ground station, by its decimal id.
    pub fn ground_station(self, id: u64) -> (f: ObservationFilter)
        ensures
            f.ground_station@ == dec_digits(id as nat),
            f.start == self.start,
            f.end == self.end,
            f.norad_cat_id == self.norad_cat_id,
    {
        ObservationFilter { ground_station: u64_to_decimal(id), ..self }
    }

    /// Restrict the filter to observations from the given instant on,
    /// rendered as RFC 3339; an instant the calendar cannot render leaves the
    /// field unchanged.
    pub fn start(self, dt_secs: i64) -> (f: ObservationFilter)
        ensures
            match rfc3339_rendering(dt_secs) {
                Some(text) => f.start@ == text,
                None => f.start == self.start,
            },
            f.ground_station == self.ground_station,
            f.end == self.end,
            f.norad_cat_id == self.norad_cat_id,
    {
        match format_rfc3339_seconds(dt_secs) {
            Some(text) => ObservationFilter { start: text, ..self },
            None => self,
        }
    }

    /// Restrict the filter to observations up to the given instant, rendered
    /// as RFC 3339; an instant the calendar cannot render leaves the field
    /// unchanged.
    pub fn end(self, dt_secs: i64) -> (f: ObservationFilter)
        ensures
            match rfc3339_rendering(dt_secs) {
                Some(text) => f.end@ == text,
                None => f.end == self.end,
            },
            f.ground_station == self.ground_station,
            f.start == self.start,
            f.norad_cat_id == self.norad_cat_id,
    {
        match format_rfc3339_seconds(dt_secs) {
            Some(text) => ObservationFilter { end: text, ..self },
            None => self,
        }
    }

    /// Restrict the filter to one satellite, by its decimal NORAD id.
    pub fn norad_cat_id(self, id: u64) -> (f: ObservationFilter)
        ensures
            f.norad_cat_id@ == dec_digits(id as nat),
            f.ground_station == self.ground_station,
            f.start == self.start,
            f.end == self.end,
    {
        ObservationFilter { norad_cat_id: u64_to_decimal(id), ..self }
    }

    /// The key/value pairs of the query this filter describes.
    pub fn params(&self) -> (ps: Vec<(String, String)>)
        ensures
            ps@.map_values(|p: (String, String)| (p.0@, p.1@)) == spec_filter_params(*self),
    {
        let mut ps: Vec<(String, String)> = Vec::new();
        if !self.ground_station.as_str().is_empty() {
            ps.push(("ground_station".to_owned(), self.ground_station.clone()));
        }
        if !self.start.as_str().is_empty() {
            ps.push(("start".to_owned(), self.start.clone()));
        }
        if !self.end.as_str().is_empty() {
            ps.push(("end".to_owned(), self.end.clone()));
        }
        if !self.norad_cat_id.as_str().is_empty() {
            ps.push(("satellite__norad_cat_id".to_owned(), self.norad_cat_id.clone()));
        }
        proof {
            assert(ps@.map_values(|p: (String, String)| (p.0@, p.1@)) =~= spec_filter_params(
                *self,
            ));
        }
        ps
    }
}

} // verus!
