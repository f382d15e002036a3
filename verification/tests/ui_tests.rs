use satnogs_monitor::event::{Event, InputEvent, LOG_WARN};
use satnogs_monitor::logger::{log_target_enabled, LogRing};
use satnogs_monitor::network::{self, ObservationFilter};
use satnogs_monitor::satnogs::{Command, Data};
use satnogs_monitor::settings::{Overrides, Settings, SettingsError, StationConfig};
use satnogs_monitor::state::State;
use satnogs_monitor::station::Station;
use satnogs_monitor::sysinfo::SysInfo;
use satnogs_monitor::theme::Theme;
use satnogs_monitor::ui::UiState;

fn station_info(id: u64) -> network::StationInfo {
    network::StationInfo {
        id,
        name: format!("station {}", id),
        lat_udeg: 47_000_000,
        lon_udeg: 8_000_000,
        alt_mm: 450_000,
        min_horizon_mdeg: 0,
        qthlocator: String::from("JN47"),
        antenna: Vec::new(),
        created: 0,
        last_seen: None,
        status: network::StationStatus::Online,
        observations: 0,
        description: String::new(),
    }
}

fn net_job(id: u64, start: i64, end: i64) -> network::Job {
    network::Job {
        id,
        start,
        end,
        ground_station: 1,
        tle0: format!("SAT-{}", id),
        tle1: String::from("l1"),
        tle2: String::from("l2"),
        frequency: 437_000_000,
        mode: String::from("BPSK"),
        transmitter: String::from("xmtr"),
    }
}

fn net_obs(id: u64, start: i64, end: i64) -> network::Observation {
    network::Observation {
        id,
        start,
        end,
        ground_station: 1,
        transmitter: String::from("xmtr"),
        norad_cat_id: 7,
        rise_azimuth_mdeg: 0,
        set_azimuth_mdeg: 0,
        max_altitude_mdeg: 0,
        vetted_status: String::from("unknown"),
        demoddata: Vec::new(),
    }
}

fn ui_with_stations(ids: &[u64]) -> UiState {
    let mut state = State::new();
    for &id in ids {
        state.add_station(Station::new(station_info(id)));
        if state.active_station == 0 {
            state.active_station = id;
        }
    }
    UiState::new(Settings::new(), state)
}

#[test]
fn quit_keys_shut_the_loop_down() {
    let mut ui = ui_with_stations(&[1]);
    ui.handle_event(Event::Input(InputEvent::Char('q')), 0);
    assert!(ui.shutdown);
    let mut ui = ui_with_stations(&[1]);
    ui.handle_event(Event::Input(InputEvent::Ctrl('c')), 0);
    assert!(ui.shutdown);
    let mut ui = ui_with_stations(&[1]);
    ui.handle_event(Event::Shutdown, 0);
    assert!(ui.shutdown);
}

#[test]
fn tab_cycles_the_active_station() {
    let mut ui = ui_with_stations(&[2, 5, 8]);
    assert_eq!(ui.state.active_station, 2);
    ui.handle_event(Event::Input(InputEvent::Char('\t')), 0);
    assert_eq!(ui.state.active_station, 5);
    ui.handle_event(Event::Input(InputEvent::Ctrl('\t')), 0);
    assert_eq!(ui.state.active_station, 2);
    ui.handle_event(Event::Input(InputEvent::Ctrl('\t')), 0);
    assert_eq!(ui.state.active_station, 8);
}

#[test]
fn toggle_keys_flip_their_flags() {
    let mut ui = ui_with_stations(&[1]);
    let footprint = ui.settings.ui.sat_footprint;
    ui.handle_event(Event::Input(InputEvent::Char('f')), 0);
    assert_eq!(ui.settings.ui.sat_footprint, !footprint);
    assert!(!ui.show_logs);
    ui.handle_event(Event::Input(InputEvent::Char('l')), 0);
    assert!(ui.show_logs);
    // zoom steps by half, clamped to its range
    assert_eq!(ui.settings.waterfall_zoom_milli, 1_000);
    ui.handle_event(Event::Input(InputEvent::Char('-')), 0);
    assert_eq!(ui.settings.waterfall_zoom_milli, 1_000);
    ui.handle_event(Event::Input(InputEvent::Char('+')), 0);
    assert_eq!(ui.settings.waterfall_zoom_milli, 1_500);
}

#[test]
fn unbound_keys_change_nothing() {
    let mut ui = ui_with_stations(&[1]);
    let fx = ui.handle_event(Event::Input(InputEvent::Char('x')), 0);
    assert!(!ui.shutdown);
    assert!(fx.commands.is_empty());
    assert!(!fx.refresh_position);
}

#[test]
fn job_response_merges_and_refreshes_the_active_station() {
    let mut ui = ui_with_stations(&[1, 2]);
    let pairs = vec![(net_job(3, 10, 20), net_obs(3, 10, 20))];
    let fx = ui.handle_event(Event::CommandResponse(Data::Jobs(1, pairs)), 0);
    assert!(fx.refresh_position);
    assert_eq!(ui.state.stations[0].jobs.len(), 1);
    assert_eq!(ui.state.stations[1].jobs.len(), 0);
    // a response for an inactive station does not touch the active vessel
    let pairs = vec![(net_job(4, 10, 20), net_obs(4, 10, 20))];
    let fx = ui.handle_event(Event::CommandResponse(Data::Jobs(2, pairs)), 0);
    assert!(!fx.refresh_position);
    assert_eq!(ui.state.stations[1].jobs.len(), 1);
}

#[test]
fn every_fifth_tick_refreshes_the_position() {
    let mut ui = ui_with_stations(&[1]);
    for expected in [false, false, false, false, true, false] {
        let fx = ui.handle_event(Event::Tick, 0);
        assert_eq!(fx.refresh_position, expected);
    }
    assert_eq!(ui.ticks, 6);
}

#[test]
fn every_sixtieth_tick_sweeps_finished_jobs() {
    let mut ui = ui_with_stations(&[1]);
    let pairs = vec![(net_job(3, 10, 20), net_obs(3, 10, 20)), (net_job(4, 50, 99), net_obs(4, 50, 99))];
    ui.handle_event(Event::CommandResponse(Data::Jobs(1, pairs)), 0);
    for _ in 0..59 {
        ui.handle_event(Event::Tick, 30);
        assert_eq!(ui.state.stations[0].jobs.len(), 2);
    }
    // the sixtieth tick sweeps: job 3 ended at 20 < 30, job 4 still runs
    ui.handle_event(Event::Tick, 30);
    assert_eq!(ui.state.stations[0].jobs.len(), 1);
    assert_eq!(ui.state.stations[0].jobs[0].id(), 4);
}

#[test]
fn job_requests_follow_the_update_interval() {
    let mut ui = ui_with_stations(&[1, 2]);
    ui.settings.job_update_interval = 3;
    let fx = ui.handle_event(Event::Tick, 0);
    assert!(fx.commands.is_empty());
    let fx = ui.handle_event(Event::Tick, 0);
    assert!(fx.commands.is_empty());
    let fx = ui.handle_event(Event::Tick, 0);
    assert_eq!(fx.commands, vec![Command::GetJobs(1), Command::GetJobs(2)]);
    let fx = ui.handle_event(Event::Tick, 0);
    assert!(fx.commands.is_empty());
}

#[test]
fn startup_requests_jobs_for_every_station() {
    let mut ui = ui_with_stations(&[4, 9]);
    let commands = ui.request_all_jobs();
    assert_eq!(commands, vec![Command::GetJobs(4), Command::GetJobs(9)]);
    assert_eq!(ui.ticks_since_job_update, 0);
}

#[test]
fn rotator_reading_is_stored() {
    let mut ui = ui_with_stations(&[1]);
    ui.handle_event(Event::RotatorPosition(123_500, 44_250), 0);
    assert_eq!(ui.state.rotator_position, Some((123_500, 44_250)));
}

#[test]
fn sys_info_event_reaches_named_stations() {
    let mut ui = ui_with_stations(&[1, 2]);
    let info = SysInfo {
        cpu_load_milli_pct: Some(10_000),
        cpu_temp_milli_c: None,
        mem_free_bytes: None,
        mem_total_bytes: None,
        uptime_secs: None,
    };
    ui.handle_event(Event::SystemInfo(vec![1], info), 0);
    assert_eq!(ui.state.stations[0].sys_info.cpu_load_milli_pct, Some(10_000));
    assert_eq!(ui.state.stations[1].sys_info.cpu_load_milli_pct, None);
}

#[test]
fn waterfall_events_fill_and_clear_the_view() {
    let mut ui = ui_with_stations(&[1]);
    ui.handle_event(Event::WaterfallCreated(77, vec![-100, 0, 100]), 0);
    assert_eq!(ui.waterfall_obs_id, 77);
    assert_eq!(ui.waterfall_frequencies, vec![-100, 0, 100]);
    ui.handle_event(Event::WaterfallData(5, vec![1, 2, 3]), 0);
    ui.handle_event(Event::WaterfallData(6, vec![4, 5, 6]), 0);
    assert_eq!(ui.waterfall_data.len(), 2);
    ui.handle_event(Event::WaterfallClosed(77), 0);
    assert_eq!(ui.waterfall_obs_id, 0);
    assert!(ui.waterfall_frequencies.is_empty());
    assert!(ui.waterfall_data.is_empty());
}

#[test]
fn log_events_land_in_the_ring() {
    let mut ui = ui_with_stations(&[1]);
    ui.handle_event(Event::Log((LOG_WARN, String::from("socket lost"))), 42);
    assert_eq!(ui.logs.entries.len(), 1);
    assert_eq!(ui.logs.entries[0].0, 42);
    assert_eq!(ui.logs.entries[0].1, LOG_WARN);
    assert_eq!(ui.logs.entries[0].2, "socket lost");
}

#[test]
fn log_ring_evicts_the_oldest_line() {
    let mut ring = LogRing::new(2);
    ring.push((1, LOG_WARN, String::from("a")));
    ring.push((2, LOG_WARN, String::from("b")));
    ring.push((3, LOG_WARN, String::from("c")));
    assert_eq!(ring.entries.len(), 2);
    assert_eq!(ring.entries[0].0, 2);
    assert_eq!(ring.entries[1].0, 3);
}

#[test]
fn only_satnogs_targets_are_logged() {
    assert!(log_target_enabled(b"satnogs_monitor"));
    assert!(log_target_enabled(b"satnogs"));
    assert!(!log_target_enabled(b"hyper::client"));
    assert!(!log_target_enabled(b"sat"));
}

#[test]
fn observation_filter_renders_its_query() {
    let filter = ObservationFilter::new().ground_station(42).start(0).norad_cat_id(25544);
    let params = filter.params();
    assert_eq!(params.len(), 3);
    assert_eq!(params[0], (String::from("ground_station"), String::from("42")));
    assert_eq!(params[1], (String::from("start"), String::from("1970-01-01T00:00:00+00:00")));
    assert_eq!(
        params[2],
        (String::from("satellite__norad_cat_id"), String::from("25544"))
    );
    let empty = ObservationFilter::new();
    assert!(empty.params().is_empty());
}

#[test]
fn defaults_match_the_documented_settings() {
    let s = Settings::new();
    assert_eq!(s.api_endpoint, "https://network.satnogs.org/api/");
    assert_eq!(s.ui.ground_track_num, 3);
    assert!(s.ui.sat_footprint);
    assert!(!s.ui.spectrum_plot);
    assert!(!s.ui.waterfall);
    assert_eq!(s.waterfall_zoom_milli, 1_000);
    assert_eq!(s.job_update_interval, 600);
    assert_eq!(s.rotctld_interval, 5);
    assert!(s.stations.is_empty());
}

fn no_overrides() -> Overrides {
    Overrides {
        api_endpoint: None,
        local_stations: Vec::new(),
        stations: Vec::new(),
        orbits: None,
        rotctld_address: None,
        rotctld_interval: None,
        data_path: None,
        db_min_milli: None,
        db_max_milli: None,
        spectrum_plot: false,
        waterfall: false,
        waterfall_zoom_milli: None,
        job_update_interval: None,
    }
}

#[test]
fn settings_without_stations_are_rejected() {
    let mut s = Settings::new();
    assert_eq!(s.apply_overrides(no_overrides()), Err(SettingsError::NoStations));
}

#[test]
fn inverted_db_range_is_rejected() {
    let mut s = Settings::new();
    let mut o = no_overrides();
    o.stations = vec![1];
    o.db_min_milli = Some(0);
    o.db_max_milli = Some(-10_000);
    assert_eq!(s.apply_overrides(o), Err(SettingsError::InvalidDbRange));
}

#[test]
fn overrides_merge_sort_and_mark_stations() {
    let mut s = Settings::new();
    s.stations.push(StationConfig::new(9));
    s.stations.push(StationConfig::new(2));
    let mut o = no_overrides();
    o.local_stations = vec![2];
    o.stations = vec![7, 9];
    o.orbits = Some(0);
    o.waterfall_zoom_milli = Some(99_999);
    o.spectrum_plot = true;
    assert_eq!(s.apply_overrides(o), Ok(()));
    let ids: Vec<u64> = s.stations.iter().map(|c| c.satnogs_id).collect();
    assert_eq!(ids, vec![2, 7, 9]);
    assert!(s.stations[0].local);
    assert!(!s.stations[1].local);
    assert_eq!(s.ui.ground_track_num, 1);
    assert_eq!(s.waterfall_zoom_milli, 10_000);
    assert!(s.ui.spectrum_plot);
}

#[test]
fn theme_loading_yields_the_builtin_theme() {
    let theme = Theme::from_file("/nonexistent/theme.toml").unwrap();
    assert_eq!(theme.header.background, "");
    assert_eq!(theme.header.foreground, "");
}

#[test]
fn station_config_defaults_are_plain() {
    let c = StationConfig::new(17);
    assert!(!c.local);
    assert_eq!(c.satnogs_id, 17);
    assert!(c.rt_ip.is_none());
    assert!(c.rt_port.is_none());
}
