//! Dashboard settings: per-station configuration, display options, and the
//! rules that merge command-line overrides into loaded settings. Reading
//! the command line and the configuration file happens outside the library;
//! the defaults, the merge and the validation are verified here.

use vstd::prelude::*;

verus! {

/// Why a settings merge was rejected.
#[derive(Clone, Copy, Debug, PartialEq, Eq, Structural)]
pub enum SettingsError {
    /// No station was configured at all.
    NoStations,
    /// The lower dB bound is not below the upper one.
    InvalidDbRange,
}

/// One monitored station, as configured.
pub struct StationConfig {
    /// Whether the station runs on this host, enabling the metrics sampler.
    pub local: bool,
    /// The station's network id.
    pub satnogs_id: u64,
    /// Optional rotator address for this station.
    pub rt_ip: Option<String>,
    /// Optional rotator port for this station.
    pub rt_port: Option<u32>,
}

impl StationConfig {
    /// A non-local station with the given network id and no rotator.
    pub fn new(id: u64) -> (c: StationConfig)
        ensures
            c.local == false,
            c.satnogs_id == id,
            c.rt_ip is None,
            c.rt_port is None,
    {
        StationConfig { local: false, satnogs_id: id, rt_ip: None, rt_port: None }
    }
}

/// Display options.
pub struct UiConfig {
    /// How many orbits of ground track the map shows.
    pub ground_track_num: u8,
    /// Whether the satellite footprint is drawn.
    pub sat_footprint: bool,
    /// Whether the spectrum plot is shown.
    pub spectrum_plot: bool,
    /// Whether the waterfall plot is shown.
    pub waterfall: bool,
    /// Lower bound of the spectrum and waterfall plots, milli-dB.
    pub db_min_milli: i64,
    /// Upper bound of the spectrum and waterfall plots, milli-dB.
    pub db_max_milli: i64,
    /// Pointing error, milli-degrees, above which the rotator reading is a
    /// warning.
    pub rotator_warn_mdeg: i64,
    /// Pointing error, milli-degrees, above which the rotator reading is an
    /// error.
    pub rotator_error_mdeg: i64,
}

/// All settings of one dashboard run.
pub struct Settings {
    /// Base URL of the network API.
    pub api_endpoint: String,
    /// Configured log verbosity, where the command line may raise it.
    pub log_level: Option<u64>,
    pub ui: UiConfig,
    /// The monitored stations.
    pub stations: Vec<StationConfig>,
    /// Directory to watch for capture files; absent disables the waterfall.
    pub data_path: Option<String>,
    /// Zoom of the spectrum and waterfall plots, in thousandths.
    pub waterfall_zoom_milli: u32,
    /// Rotator daemon address; absent disables rotator monitoring.
    pub rotctld_address: Option<String>,
    /// Seconds between rotator position polls.
    pub rotctld_interval: u64,
    /// Seconds between job-list refreshes.
    pub job_update_interval: u64,
}

impl Settings {
    /// The built-in defaults: the public network endpoint, three ground
    /// tracks, footprint on, no plots, no stations, no waterfall directory,
    /// no rotator, and the standard poll intervals.
    pub fn new() -> (s: Settings)
        ensures
            s.api_endpoint@ == "https://network.satnogs.org/api/"@,
            s.log_level == Some(0u64),
            s.ui.ground_track_num == 3,
            s.ui.sat_footprint == true,
            s.ui.spectrum_plot == false,
            s.ui.waterfall == false,
            s.ui.db_min_milli == -100_000,
            s.ui.db_max_milli == 0,
            s.ui.rotator_warn_mdeg == 5_000,
            s.ui.rotator_error_mdeg == 10_000,
            s.stations@.len() == 0,
            s.data_path is None,
            s.waterfall_zoom_milli == 1_000,
            s.rotctld_address is None,
            s.rotctld_interval == 5,
            s.job_update_interval == 600,
    {
        Settings {
            api_endpoint: "https://network.satnogs.org/api/".to_owned(),
            log_level: Some(0),
            ui: UiConfig {
                ground_track_num: 3,
                sat_footprint: true,
                spectrum_plot: false,
                waterfall: false,
                db_min_milli: -100_000,
                db_max_milli: 0,
                rotator_warn_mdeg: 5_000,
                rotator_error_mdeg: 10_000,
            },
            stations: Vec::new(),
            data_path: None,
            waterfall_zoom_milli: 1_000,
            rotctld_address: None,
            rotctld_interval: 5,
            job_update_interval: 600,
        }
    }
}

/// Whether some configured station has this network id.
pub open spec fn has_config_id(s: Seq<StationConfig>, id: u64) -> bool {
    exists|i: int| 0 <= i < s.len() && s[i].satnogs_id == id
}

/// Whether entry `i` is the first of its id in the list.
pub open spec fn first_of_id(s: Seq<StationConfig>, i: int) -> bool {
    forall|j: int| 0 <= j < i ==> s[j].satnogs_id != s[i].satnogs_id
}

/// Whether every entry of `out` is the first entry of its id in `orig`.
pub open spec fn kept_first(orig: Seq<StationConfig>, out: Seq<StationConfig>) -> bool {
    forall|i: int|
        0 <= i < out.len() ==> exists|m: int|
            0 <= m < orig.len() && orig[m] == #[trigger] out[i] && first_of_id(orig, m)
}

/// Mark the stations named in `ids` as local, creating any that are not
/// configured yet: for each named id, the first configured entry with that
/// id is marked, or a fresh local entry is appended.
#[verifier::rlimit(80)]
pub fn merge_local_stations(stations: &mut Vec<StationConfig>, ids: &Vec<u64>)
    ensures
        final(stations)@.len() >= old(stations)@.len(),
        forall|id: u64|
            #[trigger] has_config_id(final(stations)@, id) <==> (has_config_id(
                old(stations)@,
                id,
            ) || ids@.contains(id)),
        forall|i: int|
            0 <= i < final(stations)@.len() && ids@.contains(
                (#[trigger] final(stations)@[i]).satnogs_id,
            ) && first_of_id(final(stations)@, i) ==> final(stations)@[i].local == true,
        // configured entries keep their place, id and rotator fields; only
        // the local flag of named entries may rise
        forall|i: int|
            0 <= i < old(stations)@.len() ==> {
                &&& (#[trigger] final(stations)@[i]).satnogs_id == old(stations)@[i].satnogs_id
                &&& final(stations)@[i].rt_ip == old(stations)@[i].rt_ip
                &&& final(stations)@[i].rt_port == old(stations)@[i].rt_port
            },
        forall|i: int|
            0 <= i < old(stations)@.len() && !ids@.contains(
                (#[trigger] old(stations)@[i]).satnogs_id,
            ) ==> final(stations)@[i] == old(stations)@[i],
        // everything appended is a fresh local entry for a named id
        forall|i: int|
            old(stations)@.len() <= i < final(stations)@.len() ==> {
                &&& (#[trigger] final(stations)@[i]).local == true
                &&& final(stations)@[i].rt_ip is None
                &&& final(stations)@[i].rt_port is None
                &&& ids@.contains(final(stations)@[i].satnogs_id)
            },
{
    let base = stations.len();
    let mut k: usize = 0;
    while k < ids.len()
        invariant
            0 <= k <= ids@.len(),
            base == old(stations)@.len(),
            stations@.len() >= base,
            forall|id: u64|
                #[trigger] has_config_id(stations@, id) <==> (has_config_id(old(stations)@, id)
                    || exists|m: int| 0 <= m < k && ids@[m] == id),
            forall|i: int|
                0 <= i < stations@.len() && (exists|m: int|
                    0 <= m < k && ids@[m] == (#[trigger] stations@[i]).satnogs_id)
                    && first_of_id(stations@, i) ==> stations@[i].local == true,
            forall|i: int|
                0 <= i < base ==> {
                    &&& (#[trigger] stations@[i]).satnogs_id == old(stations)@[i].satnogs_id
                    &&& stations@[i].rt_ip == old(stations)@[i].rt_ip
                    &&& stations@[i].rt_port == old(stations)@[i].rt_port
                },
            forall|i: int|
                0 <= i < base && !(exists|m: int|
                    0 <= m < k && ids@[m] == (#[trigger] old(stations)@[i]).satnogs_id)
                    ==> stations@[i] == old(stations)@[i],
            forall|i: int|
                base <= i < stations@.len() ==> {
                    &&& (#[trigger] stations@[i]).local == true
                    &&& stations@[i].rt_ip is None
                    &&& stations@[i].rt_port is None
                    &&& exists|m: int| 0 <= m < k && ids@[m] == stations@[i].satnogs_id
                },
        decreases ids@.len() - k,
    {
        let id = ids[k];
        let mut found: Option<usize> = None;
        let mut i: usize = 0;
        while i < stations.len()
            invariant
                0 <= i <= stations@.len(),
                match found {
                    Some(f) => 0 <= f < stations@.len() && stations@[f as int].satnogs_id == id
                        && forall|j: int| 0 <= j < f ==> stations@[j].satnogs_id != id,
                    None => forall|j: int| 0 <= j < i ==> stations@[j].satnogs_id != id,
                },
                found is Some ==> i == stations@.len(),
            decreases stations@.len() - i + (if found is Some { 0int } else { 1int }),
        {
            if stations[i].satnogs_id == id {
                found = Some(i);
                i = stations.len();
            } else {
                i = i + 1;
            }
        }
        let ghost before = stations@;
        match found {
            Some(f) => {
                let entry = &mut stations[f];
                entry.local = true;
                proof {
                    assert(stations@ =~= before.update(f as int, stations@[f as int]));
                    assert(stations@[f as int].satnogs_id == id && stations@[f as int].local
                        == true);
                    assert(stations@[f as int].rt_ip == before[f as int].rt_ip);
                    assert(stations@[f as int].rt_port == before[f as int].rt_port);
                    assert forall|id2: u64| #[trigger] has_config_id(stations@, id2)
                        <==> has_config_id(before, id2) by {
                        if has_config_id(stations@, id2) {
                            let a = choose|a: int|
                                0 <= a < stations@.len() && stations@[a].satnogs_id == id2;
                            assert(before[a].satnogs_id == id2);
                        }
                        if has_config_id(before, id2) {
                            let a = choose|a: int|
                                0 <= a < before.len() && before[a].satnogs_id == id2;
                            if a != f {
                                assert(stations@[a].satnogs_id == id2);
                            } else {
                                assert(stations@[f as int].satnogs_id == id2);
                            }
                        }
                    }
                    assert forall|a: int|
                        0 <= a < stations@.len() && (exists|m: int|
                            0 <= m < k + 1 && ids@[m] == (#[trigger] stations@[a]).satnogs_id)
                            && first_of_id(stations@, a) implies stations@[a].local == true by {
                        let m = choose|m: int|
                            0 <= m < k + 1 && ids@[m] == stations@[a].satnogs_id;
                        assert forall|j: int|
                            0 <= j < a implies before[j].satnogs_id != before[a].satnogs_id by {
                            assert(stations@[j].satnogs_id == before[j].satnogs_id);
                            assert(stations@[a].satnogs_id == before[a].satnogs_id);
                        }
                        assert(first_of_id(before, a));
                        if a == f {
                        } else if stations@[a].satnogs_id == id {
                            assert(before[f as int].satnogs_id == id);
                            if a < f {
                                assert(first_of_id(before, f as int));
                                assert(before[a].satnogs_id != before[f as int].satnogs_id);
                            } else {
                                assert(before[f as int].satnogs_id != before[a].satnogs_id);
                            }
                            assert(false);
                        } else {
                            assert(m < k);
                            assert(stations@[a] == before[a]);
                        }
                    }
                }
            },
            None => {
                let mut fresh = StationConfig::new(id);
                fresh.local = true;
                stations.push(fresh);
                proof {
                    assert forall|id2: u64| #[trigger] has_config_id(stations@, id2) <==> (
                    has_config_id(before, id2) || id2 == id) by {
                        if has_config_id(stations@, id2) {
                            let a = choose|a: int|
                                0 <= a < stations@.len() && stations@[a].satnogs_id == id2;
                            if a < before.len() {
                                assert(before[a].satnogs_id == id2);
                            }
                        }
                        if has_config_id(before, id2) {
                            let a = choose|a: int|
                                0 <= a < before.len() && before[a].satnogs_id == id2;
                            assert(stations@[a].satnogs_id == id2);
                        }
                        if id2 == id {
                            assert(stations@[before.len() as int].satnogs_id == id2);
                        }
                    }
                    assert forall|a: int|
                        0 <= a < stations@.len() && (exists|m: int|
                            0 <= m < k + 1 && ids@[m] == (#[trigger] stations@[a]).satnogs_id)
                            && first_of_id(stations@, a) implies stations@[a].local == true by {
                        let m = choose|m: int|
                            0 <= m < k + 1 && ids@[m] == stations@[a].satnogs_id;
                        if a < before.len() {
                            assert(stations@[a] == before[a]);
                            assert(first_of_id(before, a)) by {
                                assert forall|j: int|
                                    0 <= j < a implies before[j].satnogs_id
                                    != before[a].satnogs_id by {
                                    assert(stations@[j] == before[j]);
                                }
                            }
                            if stations@[a].satnogs_id == id {
                                assert(!has_config_id(before, id));
                                assert(before[a].satnogs_id == id);
                                assert(false);
                            } else {
                                assert(m < k);
                            }
                        } else {
                            assert(stations@[a].local == true);
                        }
                    }
                }
            },
        }
        k = k + 1;
    }
}

/// Add a plain station for each id not configured yet.
pub fn merge_station_ids(stations: &mut Vec<StationConfig>, ids: &Vec<u64>)
    ensures
        final(stations)@.len() >= old(stations)@.len(),
        forall|id: u64|
            #[trigger] has_config_id(final(stations)@, id) <==> (has_config_id(
                old(stations)@,
                id,
            ) || ids@.contains(id)),
        forall|i: int|
            0 <= i < old(stations)@.len() ==> #[trigger] final(stations)@[i] == old(
                stations,
            )@[i],
        forall|i: int|
            old(stations)@.len() <= i < final(stations)@.len() ==> {
                &&& (#[trigger] final(stations)@[i]).local == false
                &&& final(stations)@[i].rt_ip is None
                &&& final(stations)@[i].rt_port is None
                &&& ids@.contains(final(stations)@[i].satnogs_id)
            },
{
    let mut k: usize = 0;
    while k < ids.len()
        invariant
            0 <= k <= ids@.len(),
            stations@.len() >= old(stations)@.len(),
            forall|id: u64|
                #[trigger] has_config_id(stations@, id) <==> (has_config_id(old(stations)@, id)
                    || exists|m: int| 0 <= m < k && ids@[m] == id),
            forall|i: int|
                0 <= i < old(stations)@.len() ==> #[trigger] stations@[i] == old(stations)@[i],
            forall|i: int|
                old(stations)@.len() <= i < stations@.len() ==> {
                    &&& (#[trigger] stations@[i]).local == false
                    &&& stations@[i].rt_ip is None
                    &&& stations@[i].rt_port is None
                    &&& exists|m: int| 0 <= m < k && ids@[m] == stations@[i].satnogs_id
                },
        decreases ids@.len() - k,
    {
        let id = ids[k];
        let mut present = false;
        let mut i: usize = 0;
        while i < stations.len()
            invariant
                0 <= i <= stations@.len(),
                present == exists|j: int| 0 <= j < i && stations@[j].satnogs_id == id,
            decreases stations@.len() - i,
        {
            if stations[i].satnogs_id == id {
                present = true;
            }
            i = i + 1;
        }
        let ghost before = stations@;
        if !present {
            stations.push(StationConfig::new(id));
            proof {
                assert forall|id2: u64| #[trigger] has_config_id(stations@, id2) <==> (
                has_config_id(before, id2) || id2 == id) by {
                    if has_config_id(stations@, id2) {
                        let a = choose|a: int|
                            0 <= a < stations@.len() && stations@[a].satnogs_id == id2;
                        if a < before.len() {
                            assert(before[a].satnogs_id == id2);
                        }
                    }
                    if has_config_id(before, id2) {
                        let a = choose|a: int| 0 <= a < before.len() && before[a].satnogs_id == id2;
                        assert(stations@[a].satnogs_id == id2);
                    }
                    if id2 == id {
                        assert(stations@[before.len() as int].satnogs_id == id2);
                    }
                }
            }
        }
        k = k + 1;
    }
}

/// The configured stations in ascending id order, one entry per id: for a
/// duplicated id the first configured entry wins.
#[verifier::rlimit(80)]
pub fn dedup_stations(stations: &mut Vec<StationConfig>)
    ensures
        forall|i: int, j: int|
            0 <= i < j < final(stations)@.len()
                ==> final(stations)@[i].satnogs_id < final(stations)@[j].satnogs_id,
        forall|id: u64|
            #[trigger] has_config_id(final(stations)@, id) <==> has_config_id(
                old(stations)@,
                id,
            ),
        kept_first(old(stations)@, final(stations)@),
{
    let ghost orig = stations@;
    let mut out: Vec<StationConfig> = Vec::new();
    let mut taken: usize = 0;
    let n = stations.len();
    while taken < n
        invariant
            0 <= taken <= n == stations@.len(),
            stations@ == orig,
            forall|i: int, j: int|
                0 <= i < j < out@.len() ==> out@[i].satnogs_id < out@[j].satnogs_id,
            forall|id: u64|
                #[trigger] has_config_id(out@, id) <==> exists|m: int|
                    0 <= m < taken && orig[m].satnogs_id == id,
            kept_first(orig, out@),
        decreases n - taken,
    {
        let id = stations[taken].satnogs_id;
        let mut present = false;
        let mut i: usize = 0;
        while i < out.len()
            invariant
                0 <= i <= out@.len(),
                present == exists|j: int| 0 <= j < i && out@[j].satnogs_id == id,
            decreases out@.len() - i,
        {
            if out[i].satnogs_id == id {
                present = true;
            }
            i = i + 1;
        }
        let ghost before = out@;
        if !present {
            let entry = &stations[taken];
            let copy = StationConfig {
                local: entry.local,
                satnogs_id: entry.satnogs_id,
                rt_ip: match &entry.rt_ip {
                    Some(ip) => Some(ip.clone()),
                    None => None,
                },
                rt_port: entry.rt_port,
            };
            let mut pos: usize = 0;
            while pos < out.len() && out[pos].satnogs_id < id
                invariant
                    0 <= pos <= out@.len(),
                    forall|j: int| 0 <= j < pos ==> out@[j].satnogs_id < id,
                    out@ == before,
                decreases out@.len() - pos,
            {
                pos = pos + 1;
            }
            proof {
                before.insert_ensures(pos as int, copy);
                assert(!has_config_id(before, id));
                assert forall|j: int| pos <= j < before.len() implies before[j].satnogs_id
                    > id by {
                    if before[j].satnogs_id == id {
                        assert(has_config_id(before, id));
                    }
                    if j > pos {
                        assert(before[pos as int].satnogs_id < before[j].satnogs_id);
                    }
                }
            }
            out.insert(pos, copy);
            proof {
                let qnew = out@;
                assert(copy.satnogs_id == id && copy.local == stations@[taken as int].local);
                assert(orig.contains(orig[taken as int]));
                assert(copy == orig[taken as int]) by {
                    let e = orig[taken as int];
                    assert(copy.local == e.local && copy.satnogs_id == e.satnogs_id
                        && copy.rt_port == e.rt_port);
                    match e.rt_ip {
                        Some(_) => {},
                        None => {},
                    }
                }
                assert forall|i2: int, j2: int|
                    0 <= i2 < j2 < qnew.len() implies qnew[i2].satnogs_id
                    < qnew[j2].satnogs_id by {
                    let p = pos as int;
                    if i2 < p && j2 < p {
                    } else if i2 < p && j2 == p {
                    } else if i2 < p && j2 > p {
                        assert(qnew[j2] == before[j2 - 1]);
                    } else if i2 == p && j2 > p {
                        assert(qnew[j2] == before[j2 - 1]);
                    } else {
                        assert(qnew[i2] == before[i2 - 1] && qnew[j2] == before[j2 - 1]);
                    }
                }
                assert forall|id2: u64| #[trigger] has_config_id(qnew, id2) <==> (has_config_id(
                    before,
                    id2,
                ) || id2 == id) by {
                    if has_config_id(qnew, id2) {
                        let a = choose|a: int| 0 <= a < qnew.len() && qnew[a].satnogs_id == id2;
                        if a < pos {
                            assert(before[a].satnogs_id == id2);
                        } else if a > pos {
                            assert(before[a - 1].satnogs_id == id2);
                        }
                    }
                    if has_config_id(before, id2) {
                        let a = choose|a: int| 0 <= a < before.len() && before[a].satnogs_id == id2;
                        if a < pos {
                            assert(qnew[a].satnogs_id == id2);
                        } else {
                            assert(qnew[a + 1].satnogs_id == id2);
                        }
                    }
                    if id2 == id {
                        assert(qnew[pos as int].satnogs_id == id2);
                    }
                }
                assert forall|i2: int|
                    0 <= i2 < qnew.len() implies exists|m: int|
                    0 <= m < orig.len() && orig[m] == #[trigger] qnew[i2] && first_of_id(orig, m) by {
                    assert(kept_first(orig, before));
                    if i2 < pos {
                        assert(qnew[i2] == before[i2]);
                    } else if i2 > pos {
                        assert(qnew[i2] == before[i2 - 1]);
                    } else {
                        assert(qnew[i2] == copy);
                        assert(first_of_id(orig, taken as int)) by {
                            assert forall|m2: int|
                                0 <= m2 < taken implies orig[m2].satnogs_id
                                != orig[taken as int].satnogs_id by {
                                if orig[m2].satnogs_id == id {
                                    assert(has_config_id(out@, id));
                                }
                            }
                        }
                        assert(orig[taken as int] == copy && first_of_id(orig, taken as int));
                    }
                }
                assert(kept_first(orig, qnew));
            }
        } else {
            proof {
                assert(has_config_id(out@, id));
            }
        }
        taken = taken + 1;
        proof {
            assert forall|id2: u64| #[trigger] has_config_id(out@, id2) <==> exists|m: int|
                0 <= m < taken && orig[m].satnogs_id == id2 by {
                if has_config_id(out@, id2) {
                }
                if exists|m: int| 0 <= m < taken && orig[m].satnogs_id == id2 {
                    let m = choose|m: int| 0 <= m < taken && orig[m].satnogs_id == id2;
                    if m < taken - 1 {
                        assert(has_config_id(out@, id2));
                    } else {
                        assert(orig[taken - 1].satnogs_id == id);
                        assert(id2 == id);
                        assert(has_config_id(out@, id2));
                    }
                }
            }
        }
    }
    proof {
        assert forall|id2: u64| #[trigger] has_config_id(out@, id2) <==> has_config_id(
            orig,
            id2,
        ) by {
            if has_config_id(orig, id2) {
                let a = choose|a: int| 0 <= a < orig.len() && orig[a].satnogs_id == id2;
                assert(exists|m: int| 0 <= m < taken && orig[m].satnogs_id == id2);
            }
        }
    }
    proof {
        assert(kept_first(orig, out@));
    }
    *stations = out;
}

/// Clamp a zoom factor, in thousandths, into the allowed range.
pub fn clamp_zoom(zoom_milli: u32) -> (r: u32)
    ensures
        r == (if zoom_milli < 1_000 {
            1_000u32
        } else if zoom_milli > 10_000 {
            10_000u32
        } else {
            zoom_milli
        }),
{
    if zoom_milli < 1_000 {
        1_000
    } else if zoom_milli > 10_000 {
        10_000
    } else {
        zoom_milli
    }
}

/// The log filter for a verbosity count: warnings only by default, with
/// info, debug, and trace at successively higher counts.
pub fn log_filter_for(verbosity: u64) -> (r: u8)
    ensures
        verbosity == 0 ==> r == crate::event::LOG_WARN,
        verbosity == 1 ==> r == crate::event::LOG_INFO,
        verbosity == 2 ==> r == crate::event::LOG_DEBUG,
        verbosity >= 3 ==> r == crate::event::LOG_TRACE,
{
    if verbosity == 0 {
        crate::event::LOG_WARN
    } else if verbosity == 1 {
        crate::event::LOG_INFO
    } else if verbosity == 2 {
        crate::event::LOG_DEBUG
    } else {
        crate::event::LOG_TRACE
    }
}


/// Command-line overrides, already parsed into plain values by the caller.
pub struct Overrides {
    pub api_endpoint: Option<String>,
    /// Ids of stations running on this host.
    pub local_stations: Vec<u64>,
    /// Ids of further stations to monitor.
    pub stations: Vec<u64>,
    /// Number of orbits to plot; at least one is always kept.
    pub orbits: Option<u8>,
    pub rotctld_address: Option<String>,
    pub rotctld_interval: Option<u64>,
    pub data_path: Option<String>,
    pub db_min_milli: Option<i64>,
    pub db_max_milli: Option<i64>,
    pub spectrum_plot: bool,
    pub waterfall: bool,
    pub waterfall_zoom_milli: Option<u32>,
    pub job_update_interval: Option<u64>,
}

impl Settings {
    /// Merge command-line overrides into these settings: station lists are
    /// united, marked local where asked, sorted by id and deduplicated with
    /// the first entry winning; scalar options replace their setting where
    /// given; the plots are enabled by either side; the zoom is clamped.
    ///
    /// The merge is rejected, leaving the settings unchanged, exactly when
    /// no station is configured at all, or when the resulting dB range is
    /// empty.
    pub fn apply_overrides(&mut self, o: Overrides) -> (r: Result<(), SettingsError>)
        ensures
            r == Err::<(), SettingsError>(SettingsError::NoStations) <==> (old(
                self,
            ).stations@.len() == 0 && o.local_stations@.len() == 0 && o.stations@.len() == 0),
            ({
                let db_min = if o.db_min_milli is Some {
                    o.db_min_milli->0
                } else {
                    old(self).ui.db_min_milli
                };
                let db_max = if o.db_max_milli is Some {
                    o.db_max_milli->0
                } else {
                    old(self).ui.db_max_milli
                };
                &&& (r == Err::<(), SettingsError>(SettingsError::InvalidDbRange) <==> (!(old(
                    self,
                ).stations@.len() == 0 && o.local_stations@.len() == 0 && o.stations@.len() == 0)
                    && db_min >= db_max))
                &&& (r is Ok ==> final(self).ui.db_min_milli == db_min
                    && final(self).ui.db_max_milli == db_max)
            }),
            r is Err ==> *final(self) == *old(self),
            r is Ok ==> {
                &&& final(self).api_endpoint == (if o.api_endpoint is Some {
                    o.api_endpoint->0
                } else {
                    old(self).api_endpoint
                })
                &&& final(self).log_level == old(self).log_level
                &&& final(self).ui.ground_track_num == (if o.orbits is Some {
                    if o.orbits->0 == 0 {
                        1u8
                    } else {
                        o.orbits->0
                    }
                } else {
                    old(self).ui.ground_track_num
                })
                &&& final(self).ui.sat_footprint == old(self).ui.sat_footprint
                &&& final(self).ui.spectrum_plot == (old(self).ui.spectrum_plot
                    || o.spectrum_plot)
                &&& final(self).ui.waterfall == (old(self).ui.waterfall || o.waterfall)
                &&& final(self).ui.rotator_warn_mdeg == old(self).ui.rotator_warn_mdeg
                &&& final(self).ui.rotator_error_mdeg == old(self).ui.rotator_error_mdeg
                &&& final(self).rotctld_address == (if o.rotctld_address is Some {
                    o.rotctld_address
                } else {
                    old(self).rotctld_address
                })
                &&& final(self).rotctld_interval == (if o.rotctld_interval is Some {
                    o.rotctld_interval->0
                } else {
                    old(self).rotctld_interval
                })
                &&& final(self).data_path == (if o.data_path is Some {
                    o.data_path
                } else {
                    old(self).data_path
                })
                &&& final(self).waterfall_zoom_milli == (if o.waterfall_zoom_milli is Some {
                    if o.waterfall_zoom_milli->0 < 1_000 {
                        1_000u32
                    } else if o.waterfall_zoom_milli->0 > 10_000 {
                        10_000u32
                    } else {
                        o.waterfall_zoom_milli->0
                    }
                } else {
                    old(self).waterfall_zoom_milli
                })
                &&& final(self).job_update_interval == (if o.job_update_interval is Some {
                    o.job_update_interval->0
                } else {
                    old(self).job_update_interval
                })
                &&& (forall|i: int, j: int|
                    0 <= i < j < final(self).stations@.len()
                        ==> final(self).stations@[i].satnogs_id
                        < final(self).stations@[j].satnogs_id)
                &&& (forall|id: u64|
                    #[trigger] has_config_id(final(self).stations@, id) <==> (has_config_id(
                        old(self).stations@,
                        id,
                    ) || o.local_stations@.contains(id) || o.stations@.contains(id)))
                &&& (forall|i: int|
                    0 <= i < final(self).stations@.len() && o.local_stations@.contains(
                        (#[trigger] final(self).stations@[i]).satnogs_id,
                    ) ==> final(self).stations@[i].local == true)
                &&& (forall|i: int|
                    0 <= i < final(self).stations@.len() && has_config_id(
                        old(self).stations@,
                        (#[trigger] final(self).stations@[i]).satnogs_id,
                    ) ==> exists|m: int|
                        {
                            let e = final(self).stations@[i];
                            &&& 0 <= m < old(self).stations@.len()
                            &&& (#[trigger] old(self).stations@[m]).satnogs_id == e.satnogs_id
                            &&& first_of_id(old(self).stations@, m)
                            &&& e.rt_ip == old(self).stations@[m].rt_ip
                            &&& e.rt_port == old(self).stations@[m].rt_port
                            &&& e.local == (old(self).stations@[m].local
                                || o.local_stations@.contains(e.satnogs_id))
                        })
                &&& (forall|i: int|
                    0 <= i < final(self).stations@.len() && !has_config_id(
                        old(self).stations@,
                        (#[trigger] final(self).stations@[i]).satnogs_id,
                    ) ==> final(self).stations@[i].rt_ip is None
                        && final(self).stations@[i].rt_port is None
                        && final(self).stations@[i].local == o.local_stations@.contains(
                        final(self).stations@[i].satnogs_id,
                    ))
            },
    {
        if self.stations.len() == 0 && o.local_stations.len() == 0 && o.stations.len() == 0 {
            return Err(SettingsError::NoStations);
        }
        let db_min = match o.db_min_milli {
            Some(v) => v,
            None => self.ui.db_min_milli,
        };
        let db_max = match o.db_max_milli {
            Some(v) => v,
            None => self.ui.db_max_milli,
        };
        if db_min >= db_max {
            return Err(SettingsError::InvalidDbRange);
        }
        match o.api_endpoint {
            Some(url) => {
                self.api_endpoint = url;
            },
            None => {},
        }
        let ghost s0 = self.stations@;
        merge_local_stations(&mut self.stations, &o.local_stations);
        let ghost s1 = self.stations@;
        merge_station_ids(&mut self.stations, &o.stations);
        let ghost s2 = self.stations@;
        dedup_stations(&mut self.stations);
        proof {
            let s3 = self.stations@;
            assert forall|i: int|
                0 <= i < s3.len() && has_config_id(
                    s0,
                    (#[trigger] s3[i]).satnogs_id,
                ) implies exists|m: int|
                {
                    let e = s3[i];
                    &&& 0 <= m < s0.len()
                    &&& (#[trigger] s0[m]).satnogs_id == e.satnogs_id
                    &&& first_of_id(s0, m)
                    &&& e.rt_ip == s0[m].rt_ip
                    &&& e.rt_port == s0[m].rt_port
                    &&& e.local == (s0[m].local || o.local_stations@.contains(e.satnogs_id))
                } by {
                let sid = s3[i].satnogs_id;
                let m2 = choose|m2: int|
                    0 <= m2 < s2.len() && s2[m2] == s3[i] && first_of_id(s2, m2);
                let a = choose|a: int| 0 <= a < s0.len() && s0[a].satnogs_id == sid;
                assert(s1[a].satnogs_id == sid);
                assert(s2[a] == s1[a]);
                assert(m2 <= a) by {
                    if m2 > a {
                        assert(s2[a].satnogs_id != s2[m2].satnogs_id);
                    }
                }
                assert(m2 < s0.len());
                assert(s2[m2] == s1[m2]);
                assert(s1[m2].satnogs_id == s0[m2].satnogs_id);
                assert(s1[m2].rt_ip == s0[m2].rt_ip && s1[m2].rt_port == s0[m2].rt_port);
                assert(first_of_id(s0, m2)) by {
                    assert forall|j: int|
                        0 <= j < m2 implies s0[j].satnogs_id != s0[m2].satnogs_id by {
                        assert(s1[j].satnogs_id == s0[j].satnogs_id);
                        assert(s2[j] == s1[j]);
                    }
                }
                if o.local_stations@.contains(sid) {
                    assert(first_of_id(s1, m2)) by {
                        assert forall|j: int|
                            0 <= j < m2 implies s1[j].satnogs_id != s1[m2].satnogs_id by {
                            assert(s2[j] == s1[j]);
                        }
                    }
                    assert(s1[m2].local == true);
                } else {
                    assert(s1[m2] == s0[m2]);
                }
                assert(0 <= m2 < s0.len() && s0[m2].satnogs_id == s3[i].satnogs_id
                    && first_of_id(s0, m2) && s3[i].rt_ip == s0[m2].rt_ip && s3[i].rt_port
                    == s0[m2].rt_port && s3[i].local == (s0[m2].local
                    || o.local_stations@.contains(s3[i].satnogs_id)));
            }
            assert forall|i: int|
                0 <= i < s3.len() && !has_config_id(
                    s0,
                    (#[trigger] s3[i]).satnogs_id,
                ) implies s3[i].rt_ip is None && s3[i].rt_port is None && s3[i].local
                == o.local_stations@.contains(s3[i].satnogs_id) by {
                let sid = s3[i].satnogs_id;
                let m2 = choose|m2: int|
                    0 <= m2 < s2.len() && s2[m2] == s3[i] && first_of_id(s2, m2);
                assert(m2 >= s0.len()) by {
                    if m2 < s0.len() {
                        assert(s2[m2] == s1[m2]);
                        assert(s1[m2].satnogs_id == s0[m2].satnogs_id);
                        assert(s0[m2].satnogs_id == sid);
                    }
                }
                if m2 < s1.len() {
                    // appended while marking local stations: fresh and local
                    assert(s2[m2] == s1[m2]);
                    assert(s1[m2].local == true && s1[m2].rt_ip is None && s1[m2].rt_port
                        is None);
                    assert(o.local_stations@.contains(sid));
                } else {
                    // appended while adding plain stations: fresh, not local
                    assert(s2[m2].local == false && s2[m2].rt_ip is None && s2[m2].rt_port
                        is None);
                    assert(!o.local_stations@.contains(sid)) by {
                        if o.local_stations@.contains(sid) {
                            assert(has_config_id(s1, sid));
                            let a = choose|a: int|
                                0 <= a < s1.len() && s1[a].satnogs_id == sid;
                            assert(s2[a] == s1[a]);
                            assert(s2[a].satnogs_id != s2[m2].satnogs_id);
                        }
                    }
                }
            }
            assert forall|i: int|
                0 <= i < s3.len() && o.local_stations@.contains(
                    (#[trigger] s3[i]).satnogs_id,
                ) implies s3[i].local == true by {
                let id = s3[i].satnogs_id;
                let m = choose|m: int| 0 <= m < s2.len() && s2[m] == s3[i] && first_of_id(s2, m);
                assert(has_config_id(s1, id));
                let a = choose|a: int| 0 <= a < s1.len() && s1[a].satnogs_id == id;
                assert(s2[a] == s1[a]);
                assert(m < s1.len()) by {
                    if m >= s1.len() {
                        assert(s2[a].satnogs_id == s2[m].satnogs_id);
                        if a < m {
                            assert(first_of_id(s2, m));
                        }
                        assert(a >= m);
                        assert(false);
                    }
                }
                assert(s2[m] == s1[m]);
                assert(first_of_id(s1, m)) by {
                    assert forall|j: int|
                        0 <= j < m implies s1[j].satnogs_id != s1[m].satnogs_id by {
                        assert(s2[j] == s1[j]);
                    }
                }
                assert(s1[m].local == true);
            }
        }
        match o.orbits {
            Some(orbits) => {
                self.ui.ground_track_num = if orbits == 0 {
                    1
                } else {
                    orbits
                };
            },
            None => {},
        }
        match o.rotctld_address {
            Some(addr) => {
                self.rotctld_address = Some(addr);
            },
            None => {},
        }
        match o.rotctld_interval {
            Some(v) => {
                self.rotctld_interval = v;
            },
            None => {},
        }
        match o.data_path {
            Some(p) => {
                self.data_path = Some(p);
            },
            None => {},
        }
        self.ui.db_min_milli = db_min;
        self.ui.db_max_milli = db_max;
        self.ui.spectrum_plot = self.ui.spectrum_plot || o.spectrum_plot;
        self.ui.waterfall = self.ui.waterfall || o.waterfall;
        match o.waterfall_zoom_milli {
            Some(z) => {
                self.waterfall_zoom_milli = clamp_zoom(z);
            },
            None => {},
        }
        match o.job_update_interval {
            Some(v) => {
                self.job_update_interval = v;
            },
            None => {},
        }
        Ok(())
    }
}

} // verus!
