use satnogs_monitor::job::Job;
use satnogs_monitor::network;
use satnogs_monitor::satnogs::pair_jobs;
use satnogs_monitor::state::State;
use satnogs_monitor::station::Station;
use satnogs_monitor::sysinfo::SysInfo;
use satnogs_monitor::vessel::{Location, SatState, TrackBuilder, TrackPhase, Vessel};

fn net_job(id: u64, start: i64, end: i64) -> network::Job {
    network::Job {
        id,
        start,
        end,
        ground_station: 1,
        tle0: format!("SAT-{}", id),
        tle1: String::from("1 25544U 98067A   20083.39831343  .00000534"),
        tle2: String::from("2 25544  51.6442 141.7789 0004734  83.6223"),
        frequency: 145_800_000,
        mode: String::from("CW"),
        transmitter: String::from("xmtr"),
    }
}

fn net_obs(id: u64, start: i64, end: i64) -> network::Observation {
    network::Observation {
        id,
        start,
        end,
        ground_station: 1,
        transmitter: String::from("xmtr"),
        norad_cat_id: 25_544,
        rise_azimuth_mdeg: 123_000,
        set_azimuth_mdeg: 270_500,
        max_altitude_mdeg: 45_000,
        vetted_status: String::from("unknown"),
        demoddata: Vec::new(),
    }
}

fn station_info(id: u64) -> network::StationInfo {
    network::StationInfo {
        id,
        name: format!("station {}", id),
        lat_udeg: 47_000_000,
        lon_udeg: 8_000_000,
        alt_mm: 450_000,
        min_horizon_mdeg: 0,
        qthlocator: String::from("JN47"),
        antenna: Vec::new(),
        created: 0,
        last_seen: None,
        status: network::StationStatus::Online,
        observations: 0,
        description: String::new(),
    }
}

fn pairs_for(ids_and_windows: &[(u64, i64, i64)]) -> Vec<(network::Job, network::Observation)> {
    ids_and_windows
        .iter()
        .map(|&(id, start, end)| (net_job(id, start, end), net_obs(id, start, end)))
        .collect()
}

fn job_ids(station: &Station) -> Vec<u64> {
    station.jobs.iter().map(|j| j.id()).collect()
}

#[test]
fn merge_is_idempotent() {
    let mut station = Station::new(station_info(1));
    let batch = &[(5u64, 100i64, 200i64), (3, 50, 150), (9, 300, 400)];
    station.update_jobs(pairs_for(batch));
    let once = job_ids(&station);
    assert_eq!(once, vec![3, 5, 9]);
    station.update_jobs(pairs_for(batch));
    let twice = job_ids(&station);
    assert_eq!(once, twice);
    assert_eq!(station.jobs.len(), 3);
}

#[test]
fn merge_keeps_queue_sorted_by_start() {
    let mut station = Station::new(station_info(1));
    station.update_jobs(pairs_for(&[(7, 500, 600), (2, 10, 20)]));
    station.update_jobs(pairs_for(&[(4, 250, 300), (8, 5, 8)]));
    let starts: Vec<i64> = station.jobs.iter().map(|j| j.start()).collect();
    let mut sorted = starts.clone();
    sorted.sort();
    assert_eq!(starts, sorted);
    assert_eq!(job_ids(&station), vec![8, 2, 4, 7]);
}

#[test]
fn merge_never_shrinks_the_queue() {
    let mut station = Station::new(station_info(1));
    station.update_jobs(pairs_for(&[(1, 10, 20)]));
    let before = station.jobs.len();
    station.update_jobs(Vec::new());
    assert_eq!(station.jobs.len(), before);
    station.update_jobs(pairs_for(&[(1, 10, 20)]));
    assert_eq!(station.jobs.len(), before);
}

#[test]
fn sweep_removes_exactly_the_finished_jobs() {
    let mut station = Station::new(station_info(1));
    station.update_jobs(pairs_for(&[(1, 0, 100), (2, 50, 200), (3, 150, 300)]));
    station.remove_finished_jobs(200);
    // end <= now is dropped; end > now stays untouched
    assert_eq!(job_ids(&station), vec![3]);
    station.remove_finished_jobs(300);
    assert_eq!(job_ids(&station), Vec::<u64>::new());
}

#[test]
fn end_to_end_one_station_two_jobs() {
    // configure one station
    let mut state = State::new();
    state.add_station(Station::new(station_info(1)));
    state.active_station = 1;
    // the network worker returns two jobs: ids 5 and 3, job 3 starting earlier
    let fetched_jobs = vec![net_job(5, 1_000, 2_000), net_job(3, 100, 900)];
    let fetched_obs = vec![net_obs(5, 1_000, 2_000), net_obs(3, 100, 900)];
    let paired = pair_jobs(fetched_jobs, &fetched_obs);
    assert_eq!(paired.len(), 2);
    state.update_jobs(1, paired);
    {
        let station = state.get_active_station();
        assert_eq!(job_ids(station), vec![3, 5]);
    }
    // advance the wall clock past job 3's end: the sweep leaves only job 5
    let station = state.get_active_station_mut();
    station.remove_finished_jobs(950);
    let station = state.get_active_station();
    assert_eq!(job_ids(station), vec![5]);
}

#[test]
fn pairing_drops_jobs_without_observation() {
    let jobs = vec![net_job(1, 0, 10), net_job(2, 5, 15), net_job(3, 20, 30)];
    let obs = vec![net_obs(3, 20, 30), net_obs(1, 0, 10)];
    let paired = pair_jobs(jobs, &obs);
    let ids: Vec<u64> = paired.iter().map(|p| p.0.id).collect();
    assert_eq!(ids, vec![1, 3]);
    assert_eq!(paired[0].1.id, 1);
    assert_eq!(paired[1].1.id, 3);
}

#[test]
fn adding_a_station_twice_replaces_it() {
    let mut state = State::new();
    state.add_station(Station::new(station_info(5)));
    let mut replacement = station_info(5);
    replacement.name = String::from("renamed");
    state.add_station(Station::new(replacement));
    assert_eq!(state.stations.len(), 1);
    assert_eq!(state.stations[0].name(), "renamed");
}

#[test]
fn position_update_reaches_the_lead_vessel() {
    let mut state = State::new();
    state.add_station(Station::new(station_info(1)));
    state.active_station = 1;
    // with no jobs the update has nothing to refresh
    assert_eq!(state.update_vessel_position(sample(900, 10, 20)), None);
    state.update_jobs(1, vec![(net_job(3, 10, 20), net_obs(3, 10, 20))]);
    // with a job queued the lead vessel is refreshed; its cache was empty,
    // so the ground track is reported stale
    assert_eq!(state.update_vessel_position(sample(900, 10, 20)), Some(true));
    assert!(state.stations[0].jobs[0].sat().is_some());
    // a second update within the same orbit finds the cache usable once a
    // track is installed
    state.set_active_ground_track(vec![(10, 20)]);
    assert_eq!(state.update_vessel_position(sample(900, 11, 21)), Some(false));
}

#[test]
fn ground_track_lands_on_the_lead_job() {
    let mut state = State::new();
    state.add_station(Station::new(station_info(1)));
    state.active_station = 1;
    state.update_jobs(1, vec![(net_job(3, 10, 20), net_obs(3, 10, 20))]);
    state.set_active_ground_track(vec![(1, 2), (3, 4)]);
    assert_eq!(state.stations[0].jobs[0].vessel.ground_track, vec![(1, 2), (3, 4)]);
}

#[test]
fn cursor_wraps_after_station_count_steps() {
    let mut state = State::new();
    for id in [4u64, 7, 9] {
        state.add_station(Station::new(station_info(id)));
    }
    state.active_station = 7;
    state.next_station();
    assert_eq!(state.active_station, 9);
    state.next_station();
    assert_eq!(state.active_station, 4);
    state.next_station();
    assert_eq!(state.active_station, 7);
}

#[test]
fn cursor_prev_wraps_at_the_front() {
    let mut state = State::new();
    for id in [4u64, 7, 9] {
        state.add_station(Station::new(station_info(id)));
    }
    state.active_station = 4;
    state.prev_station();
    assert_eq!(state.active_station, 9);
    state.prev_station();
    assert_eq!(state.active_station, 7);
    state.prev_station();
    assert_eq!(state.active_station, 4);
}

#[test]
fn cursor_is_a_no_op_with_one_station() {
    let mut state = State::new();
    state.add_station(Station::new(station_info(4)));
    state.active_station = 4;
    state.next_station();
    assert_eq!(state.active_station, 4);
    state.prev_station();
    assert_eq!(state.active_station, 4);
}

fn sample(orbit_nr: u64, lon_udeg: i64, lat_udeg: i64) -> SatState {
    SatState {
        orbit_nr,
        lat_udeg,
        lon_udeg,
        alt_m: 420_000,
        vel_mm_s: 7_660_000,
        range_m: 1_200_000,
        range_rate_mm_s: -3_000_000,
        az_mdeg: 180_000,
        el_mdeg: 45_000,
    }
}

#[test]
fn ground_track_is_stable_within_one_orbit() {
    let qth = Location { lat_udeg: 47_000_000, lon_udeg: 8_000_000, alt_mm: 450_000 };
    let mut vessel = Vessel::new(25_544, "ISS", "line1", "line2", qth);
    // an empty cache always asks for a track
    assert!(vessel.update_position(sample(900, 10, 20)));
    vessel.set_ground_track(vec![(10, 20), (30, 40)]);
    // same orbit number: the cached track is kept as it is
    assert!(!vessel.update_position(sample(900, 11, 21)));
    assert_eq!(vessel.ground_track, vec![(10, 20), (30, 40)]);
    // a changed orbit number always asks for a recomputation
    assert!(vessel.update_position(sample(901, 12, 22)));
}

#[test]
fn track_builder_walks_back_and_forward() {
    // requested on orbit 900 for one orbit of track
    let mut builder = TrackBuilder::new(10_000, 900, 1);
    assert_eq!(builder.next_time(), 10_000);
    // still on the same orbit: seek backward
    assert!(!builder.step(sample(900, 0, 0)));
    assert_eq!(builder.next_time(), 9_990);
    assert!(!builder.step(sample(900, 0, 0)));
    assert_eq!(builder.next_time(), 9_980);
    // the orbit number changed: the start of the current orbit is found
    assert!(!builder.step(sample(899, 0, 0)));
    assert_eq!(builder.phase, TrackPhase::Advancing);
    assert_eq!(builder.next_time(), 9_990);
    assert_eq!(builder.points, Vec::<(i64, i64)>::new());
    // walk forward, recording points, until one orbit past the base
    assert!(!builder.step(sample(900, 1, 2)));
    assert_eq!(builder.next_time(), 10_000);
    assert!(!builder.step(sample(900, 3, 4)));
    assert!(builder.step(sample(901, 5, 6)));
    assert_eq!(builder.phase, TrackPhase::Done);
    assert_eq!(builder.points, vec![(1, 2), (3, 4), (5, 6)]);
}

#[test]
fn polar_track_times_step_by_two_seconds() {
    let times = satnogs_monitor::vessel::polar_track_times(100, 109);
    assert_eq!(times, vec![100, 102, 104, 106, 108]);
    let single = satnogs_monitor::vessel::polar_track_times(50, 50);
    assert_eq!(single, vec![50]);
}

#[test]
fn sys_info_lands_on_named_stations_only() {
    let mut state = State::new();
    state.add_station(Station::new(station_info(1)));
    state.add_station(Station::new(station_info(2)));
    let info = SysInfo {
        cpu_load_milli_pct: Some(12_500),
        cpu_temp_milli_c: Some(48_000),
        mem_free_bytes: Some(1 << 30),
        mem_total_bytes: Some(4 << 30),
        uptime_secs: Some(3600),
    };
    satnogs_monitor::state::apply_sys_info(&mut state, &vec![2], info);
    assert_eq!(state.stations[0].sys_info.cpu_load_milli_pct, None);
    assert_eq!(state.stations[1].sys_info.cpu_load_milli_pct, Some(12_500));
}

#[test]
fn job_getters_mirror_the_records() {
    let qth = Location { lat_udeg: 0, lon_udeg: 0, alt_mm: 0 };
    let job = Job::new((net_job(5, 100, 200), net_obs(5, 100, 200)), qth);
    assert_eq!(job.id(), 5);
    assert_eq!(job.start(), 100);
    assert_eq!(job.end(), 200);
    assert_eq!(job.frequency(), 145_800_000);
    assert_eq!(job.mode(), "CW");
    assert_eq!(job.vessel_name(), "SAT-5");
    assert!(job.sat().is_none());
    assert_eq!(job.vessel.id, 25_544);
    assert_eq!(job.vessel.qth, qth);
}
