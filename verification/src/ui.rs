//! The consumer loop's state transitions: one owner of all mutable
//! dashboard state applies each event drained from the bus and says which
//! commands to send and whether the active vessel's position must be
//! recomputed. The terminal, the channels and the threads live outside the
//! library.

use vstd::prelude::*;

use crate::event::{Event, InputEvent};
use crate::logger::LogRing;
use crate::network;
use crate::satnogs::{Command, Data};
use crate::settings::{Settings, UiConfig};
use crate::state::{has_station_id, spec_next_active, spec_prev_active, State};
use crate::station::{merged_jobs, spec_live_jobs};
use crate::sysinfo::SysInfo;

verus! {

/// What the consumer must do after applying an event: commands to hand to
/// the network worker, and whether the active vessel's position and track
/// must be recomputed.
pub struct Effects {
    pub commands: Vec<Command>,
    pub refresh_position: bool,
}

/// All state the consumer loop owns.
pub struct UiState {
    pub state: State,
    pub settings: Settings,
    /// The log pane's bounded ring.
    pub logs: LogRing,
    pub show_logs: bool,
    pub shutdown: bool,
    /// Seconds of dashboard lifetime, one per clock event.
    pub ticks: u64,
    /// Clock events since the last job-list refresh was requested.
    pub ticks_since_job_update: u64,
    /// The observation id of the capture currently shown, zero when none.
    pub waterfall_obs_id: u64,
    /// The frequency axis of the current capture, milli-Hz.
    pub waterfall_frequencies: Vec<i64>,
    /// The retained waterfall rows, oldest first.
    pub waterfall_data: Vec<(i64, Vec<u32>)>,
}

/// How many log lines the pane retains.
pub const LOG_CAPACITY: usize = 100;

/// What one key does to the whole state. A key that is not bound leaves
/// everything unchanged.
pub open spec fn input_applied(a: UiState, b: UiState, input: InputEvent) -> bool {
    if input == InputEvent::Ctrl('c') || input == InputEvent::Char('q') {
        b == (UiState { shutdown: true, ..a })
    } else if input == InputEvent::Char('f') {
        b == (UiState {
            settings: Settings {
                ui: UiConfig { sat_footprint: !a.settings.ui.sat_footprint, ..a.settings.ui },
                ..a.settings
            },
            ..a
        })
    } else if input == InputEvent::Char('l') {
        b == (UiState { show_logs: !a.show_logs, ..a })
    } else if input == InputEvent::Char('\t') {
        b == (UiState {
            state: State {
                active_station: spec_next_active(a.state.stations@, a.state.active_station),
                ..a.state
            },
            ..a
        })
    } else if input == InputEvent::Ctrl('\t') {
        b == (UiState {
            state: State {
                active_station: spec_prev_active(a.state.stations@, a.state.active_station),
                ..a.state
            },
            ..a
        })
    } else if input == InputEvent::Char('+') {
        b == (UiState {
            settings: Settings {
                waterfall_zoom_milli: if a.settings.waterfall_zoom_milli < 10_000 {
                    (a.settings.waterfall_zoom_milli + 500) as u32
                } else {
                    a.settings.waterfall_zoom_milli
                },
                ..a.settings
            },
            ..a
        })
    } else if input == InputEvent::Char('-') {
        b == (UiState {
            settings: Settings {
                waterfall_zoom_milli: if a.settings.waterfall_zoom_milli > 1_000 {
                    (a.settings.waterfall_zoom_milli - 500) as u32
                } else {
                    a.settings.waterfall_zoom_milli
                },
                ..a.settings
            },
            ..a
        })
    } else {
        b == a
    }
}

/// A fetched batch has been merged into the station with its id; every
/// other station and the rest of the state are untouched.
pub open spec fn jobs_merged_into(
    a: State,
    b: State,
    id: u64,
    pairs: Seq<(network::Job, network::Observation)>,
) -> bool {
    &&& b.active_station == a.active_station
    &&& b.rotator_position == a.rotator_position
    &&& b.stations@.len() == a.stations@.len()
    &&& (!has_station_id(a.stations@, id) ==> b.stations@ == a.stations@)
    &&& (forall|i: int|
        0 <= i < a.stations@.len() && (#[trigger] a.stations@[i]).info.id != id
            ==> b.stations@[i] == a.stations@[i])
    &&& (forall|i: int|
        0 <= i < a.stations@.len() && (#[trigger] a.stations@[i]).info.id == id ==> {
            &&& b.stations@[i].info == a.stations@[i].info
            &&& b.stations@[i].sys_info == a.stations@[i].sys_info
            &&& merged_jobs(
                a.stations@[i].jobs@,
                pairs,
                a.stations@[i].spec_location(),
                b.stations@[i].jobs@,
            )
        })
}

/// Every station's queue has been swept of jobs not ending after `now`.
pub open spec fn swept_at(a: State, b: State, now: i64) -> bool {
    &&& b.active_station == a.active_station
    &&& b.rotator_position == a.rotator_position
    &&& b.stations@.len() == a.stations@.len()
    &&& (forall|i: int|
        0 <= i < b.stations@.len() ==> {
            &&& (#[trigger] b.stations@[i]).info == a.stations@[i].info
            &&& b.stations@[i].sys_info == a.stations@[i].sys_info
            &&& b.stations@[i].jobs@ == spec_live_jobs(a.stations@[i].jobs@, now)
        })
}

/// The metrics snapshot has been stored on every station named in `ids`.
pub open spec fn sys_info_applied(a: State, b: State, ids: Seq<u64>, info: SysInfo) -> bool {
    &&& b.active_station == a.active_station
    &&& b.rotator_position == a.rotator_position
    &&& b.stations@.len() == a.stations@.len()
    &&& (forall|i: int|
        0 <= i < b.stations@.len() ==> {
            &&& (#[trigger] b.stations@[i]).info == a.stations@[i].info
            &&& b.stations@[i].jobs == a.stations@[i].jobs
            &&& b.stations@[i].sys_info == (if ids.contains(a.stations@[i].info.id) {
                info
            } else {
                a.stations@[i].sys_info
            })
        })
}

/// One new line has gone into the log ring, evicting the oldest on
/// overflow.
pub open spec fn log_pushed(a: LogRing, b: LogRing, entry: (i64, u8, String)) -> bool {
    &&& b.capacity == a.capacity
    &&& (a.entries@.len() < a.capacity ==> b.entries@ == a.entries@.push(entry))
    &&& (a.entries@.len() == a.capacity ==> b.entries@ == a.entries@.skip(1).push(entry))
}

impl UiState {
    /// Queues sorted and unique, the cursor on a present station (or still
    /// unset), and the log ring within capacity.
    pub open spec fn wf(self) -> bool {
        self.state.wf() && self.logs.wf()
    }

    /// The consumer's state at startup, before the initial job fetch.
    pub fn new(settings: Settings, state: State) -> (u: UiState)
        requires
            state.wf(),
        ensures
            u.wf(),
            u.state == state,
            u.settings == settings,
            u.logs.entries@.len() == 0,
            u.logs.capacity == LOG_CAPACITY,
            u.show_logs == false,
            u.shutdown == false,
            u.ticks == 0,
            u.ticks_since_job_update == 0,
            u.waterfall_obs_id == 0,
            u.waterfall_frequencies@.len() == 0,
            u.waterfall_data@.len() == 0,
    {
        UiState {
            state,
            settings,
            logs: LogRing::new(LOG_CAPACITY),
            show_logs: false,
            shutdown: false,
            ticks: 0,
            ticks_since_job_update: 0,
            waterfall_obs_id: 0,
            waterfall_frequencies: Vec::new(),
            waterfall_data: Vec::new(),
        }
    }

    /// Ask the network worker for a fresh job list of every station, in id
    /// order, and restart the refresh countdown.
    pub fn request_all_jobs(&mut self) -> (commands: Vec<Command>)
        ensures
            commands@.len() == old(self).state.stations@.len(),
            forall|i: int|
                0 <= i < commands@.len() ==> commands@[i] == Command::GetJobs(
                    (#[trigger] old(self).state.stations@[i]).info.id,
                ),
            *final(self) == (UiState { ticks_since_job_update: 0, ..*old(self) }),
    {
        let mut commands: Vec<Command> = Vec::new();
        let n = self.state.stations.len();
        let mut i: usize = 0;
        while i < n
            invariant
                0 <= i <= n == self.state.stations@.len(),
                *self == (UiState { ticks_since_job_update: old(self).ticks_since_job_update, ..*old(self) }),
                commands@.len() == i,
                forall|k: int|
                    0 <= k < i ==> commands@[k] == Command::GetJobs(
                        (#[trigger] self.state.stations@[k]).info.id,
                    ),
            decreases n - i,
        {
            let id = self.state.stations[i].id();
            commands.push(Command::GetJobs(id));
            i = i + 1;
        }
        self.ticks_since_job_update = 0;
        commands
    }

    /// Apply one key press.
    pub fn handle_input(&mut self, input: InputEvent)
        requires
            old(self).wf(),
        ensures
            final(self).wf(),
            input_applied(*old(self), *final(self), input),
    {
        match input {
            InputEvent::Ctrl(c) => {
                if c == 'c' {
                    self.shutdown = true;
                } else if c == '\t' {
                    self.state.prev_station();
                    proof {
                        assert(*self == (UiState {
                            state: State {
                                active_station: spec_prev_active(
                                    old(self).state.stations@,
                                    old(self).state.active_station,
                                ),
                                ..old(self).state
                            },
                            ..*old(self)
                        }));
                    }
                }
            },
            InputEvent::Char(c) => {
                if c == 'q' {
                    self.shutdown = true;
                } else if c == 'f' {
                    self.settings.ui.sat_footprint = !self.settings.ui.sat_footprint;
                } else if c == 'l' {
                    self.show_logs = !self.show_logs;
                } else if c == '\t' {
                    self.state.next_station();
                    proof {
                        assert(*self == (UiState {
                            state: State {
                                active_station: spec_next_active(
                                    old(self).state.stations@,
                                    old(self).state.active_station,
                                ),
                                ..old(self).state
                            },
                            ..*old(self)
                        }));
                    }
                } else if c == '+' {
                    if self.settings.waterfall_zoom_milli < 10_000 {
                        self.settings.waterfall_zoom_milli = self.settings.waterfall_zoom_milli
                            + 500;
                    }
                } else if c == '-' {
                    if self.settings.waterfall_zoom_milli > 1_000 {
                        self.settings.waterfall_zoom_milli = self.settings.waterfall_zoom_milli
                            - 500;
                    }
                }
            },
            InputEvent::Other => {},
        }
    }

    /// Apply one clock event: count it, ask for fresh job lists on the
    /// refresh cadence, report whether the active vessel's position is due
    /// (every fifth tick), and sweep finished jobs (every sixtieth tick).
    pub fn handle_tick(&mut self, now: i64) -> (fx: Effects)
        requires
            old(self).wf(),
            old(self).ticks < u64::MAX,
            old(self).ticks_since_job_update < u64::MAX,
        ensures
            final(self).wf(),
            final(self).ticks == old(self).ticks + 1,
            fx.refresh_position == ((old(self).ticks + 1) % 5 == 0),
            final(self).settings == old(self).settings,
            final(self).logs == old(self).logs,
            final(self).show_logs == old(self).show_logs,
            final(self).shutdown == old(self).shutdown,
            final(self).waterfall_obs_id == old(self).waterfall_obs_id,
            final(self).waterfall_frequencies == old(self).waterfall_frequencies,
            final(self).waterfall_data == old(self).waterfall_data,
            old(self).ticks_since_job_update + 1 >= old(self).settings.job_update_interval ==> {
                &&& final(self).ticks_since_job_update == 0
                &&& fx.commands@.len() == old(self).state.stations@.len()
                &&& forall|i: int|
                    0 <= i < fx.commands@.len() ==> fx.commands@[i] == Command::GetJobs(
                        (#[trigger] old(self).state.stations@[i]).info.id,
                    )
            },
            old(self).ticks_since_job_update + 1 < old(self).settings.job_update_interval ==> {
                &&& final(self).ticks_since_job_update == old(self).ticks_since_job_update + 1
                &&& fx.commands@.len() == 0
            },
            (old(self).ticks + 1) % 60 == 0 ==> swept_at(old(self).state, final(self).state, now),
            (old(self).ticks + 1) % 60 != 0 ==> final(self).state == old(self).state,
    {
        self.ticks_since_job_update = self.ticks_since_job_update + 1;
        let commands: Vec<Command> = if self.ticks_since_job_update
            >= self.settings.job_update_interval {
            self.request_all_jobs()
        } else {
            Vec::new()
        };
        self.ticks = self.ticks + 1;
        let refresh_position = self.ticks % 5 == 0;
        if self.ticks % 60 == 0 {
            crate::state::sweep_finished_jobs(&mut self.state, now);
        }
        Effects { commands, refresh_position }
    }

    /// Apply one event from the bus. This is the single place every
    /// producer's message reaches the state.
    pub fn handle_event(&mut self, event: Event, now: i64) -> (fx: Effects)
        requires
            old(self).wf(),
            event is Tick ==> old(self).ticks < u64::MAX && old(self).ticks_since_job_update
                < u64::MAX,
        ensures
            final(self).wf(),
            event matches Event::Input(input) ==> input_applied(
                *old(self),
                *final(self),
                input,
            ) && fx.commands@.len() == 0 && !fx.refresh_position,
            event matches Event::Log(entry) ==> {
                &&& log_pushed(old(self).logs, final(self).logs, (now, entry.0, entry.1))
                &&& *final(self) == (UiState { logs: final(self).logs, ..*old(self) })
                &&& fx.commands@.len() == 0
                &&& !fx.refresh_position
            },
            event matches Event::CommandResponse(data) ==> (data matches Data::Jobs(id, pairs)
                ==> {
                &&& jobs_merged_into(old(self).state, final(self).state, id, pairs@)
                &&& *final(self) == (UiState { state: final(self).state, ..*old(self) })
                &&& fx.commands@.len() == 0
                &&& fx.refresh_position == (id == old(self).state.active_station)
            }),
            event is Resize ==> *final(self) == *old(self) && fx.commands@.len() == 0
                && !fx.refresh_position,
            event matches Event::RotatorPosition(az, el) ==> {
                &&& *final(self) == (UiState {
                    state: State { rotator_position: Some((az, el)), ..old(self).state },
                    ..*old(self)
                })
                &&& fx.commands@.len() == 0
                &&& !fx.refresh_position
            },
            event matches Event::SystemInfo(ids, info) ==> {
                &&& sys_info_applied(old(self).state, final(self).state, ids@, info)
                &&& *final(self) == (UiState { state: final(self).state, ..*old(self) })
                &&& fx.commands@.len() == 0
                &&& !fx.refresh_position
            },
            event is Tick ==> {
                &&& final(self).ticks == old(self).ticks + 1
                &&& fx.refresh_position == ((old(self).ticks + 1) % 5 == 0)
                &&& ((old(self).ticks + 1) % 60 == 0 ==> swept_at(
                    old(self).state,
                    final(self).state,
                    now,
                ))
                &&& ((old(self).ticks + 1) % 60 != 0 ==> final(self).state == old(self).state)
                &&& (old(self).ticks_since_job_update + 1
                    >= old(self).settings.job_update_interval ==> {
                    &&& final(self).ticks_since_job_update == 0
                    &&& fx.commands@.len() == old(self).state.stations@.len()
                    &&& forall|i: int|
                        0 <= i < fx.commands@.len() ==> fx.commands@[i] == Command::GetJobs(
                            (#[trigger] old(self).state.stations@[i]).info.id,
                        )
                })
                &&& (old(self).ticks_since_job_update + 1
                    < old(self).settings.job_update_interval ==> {
                    &&& final(self).ticks_since_job_update == old(self).ticks_since_job_update
                        + 1
                    &&& fx.commands@.len() == 0
                })
            },
            event matches Event::WaterfallCreated(obs, freqs) ==> {
                &&& *final(self) == (UiState {
                    waterfall_obs_id: obs,
                    waterfall_frequencies: final(self).waterfall_frequencies,
                    ..*old(self)
                })
                &&& final(self).waterfall_frequencies == freqs
                &&& fx.commands@.len() == 0
                &&& !fx.refresh_position
            },
            event matches Event::WaterfallData(t, bins) ==> {
                &&& final(self).waterfall_data@ == old(self).waterfall_data@.push((t, bins))
                &&& *final(self) == (UiState {
                    waterfall_data: final(self).waterfall_data,
                    ..*old(self)
                })
                &&& fx.commands@.len() == 0
                &&& !fx.refresh_position
            },
            event matches Event::WaterfallClosed(_) ==> {
                &&& final(self).waterfall_data@.len() == 0
                &&& final(self).waterfall_frequencies@.len() == 0
                &&& final(self).waterfall_obs_id == 0
                &&& *final(self) == (UiState {
                    waterfall_obs_id: 0,
                    waterfall_frequencies: final(self).waterfall_frequencies,
                    waterfall_data: final(self).waterfall_data,
                    ..*old(self)
                })
                &&& fx.commands@.len() == 0
                &&& !fx.refresh_position
            },
            event is Shutdown ==> *final(self) == (UiState { shutdown: true, ..*old(self) })
                && fx.commands@.len() == 0 && !fx.refresh_position,
    {
        match event {
            Event::Input(input) => {
                self.handle_input(input);
                Effects { commands: Vec::new(), refresh_position: false }
            },
            Event::Log(entry) => {
                let (level, message) = entry;
                self.logs.push((now, level, message));
                Effects { commands: Vec::new(), refresh_position: false }
            },
            Event::CommandResponse(data) => {
                match data {
                    Data::Jobs(id, pairs) => {
                        let refresh = id == self.state.active_station;
                        self.state.update_jobs(id, pairs);
                        Effects { commands: Vec::new(), refresh_position: refresh }
                    },
                }
            },
            Event::Resize => Effects { commands: Vec::new(), refresh_position: false },
            Event::RotatorPosition(az, el) => {
                self.state.rotator_position = Some((az, el));
                Effects { commands: Vec::new(), refresh_position: false }
            },
            Event::SystemInfo(ids, info) => {
                crate::state::apply_sys_info(&mut self.state, &ids, info);
                Effects { commands: Vec::new(), refresh_position: false }
            },
            Event::Tick => self.handle_tick(now),
            Event::WaterfallCreated(obs, freqs) => {
                self.waterfall_obs_id = obs;
                self.waterfall_frequencies = freqs;
                Effects { commands: Vec::new(), refresh_position: false }
            },
            Event::WaterfallData(t, bins) => {
                self.waterfall_data.push((t, bins));
                Effects { commands: Vec::new(), refresh_position: false }
            },
            Event::WaterfallClosed(_) => {
                self.waterfall_data = Vec::new();
                self.waterfall_frequencies = Vec::new();
                self.waterfall_obs_id = 0;
                Effects { commands: Vec::new(), refresh_position: false }
            },
            Event::Shutdown => {
                self.shutdown = true;
                Effects { commands: Vec::new(), refresh_position: false }
            },
        }
    }
}

} // verus!
