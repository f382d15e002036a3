//! The aggregate dashboard state: the stations in id order, the active-
//! station cursor, and the last known rotator reading. The cursor always
//! lands on a present station, and cycling wraps at either end.

use vstd::prelude::*;

use crate::network;
use crate::station::{merged_jobs, Station};
use crate::vessel::SatState;

verus! {

/// The station list is strictly increasing by id: id order, no duplicates.
pub open spec fn stations_ordered(s: Seq<Station>) -> bool {
    forall|i: int, j: int| 0 <= i < j < s.len() ==> s[i].info.id < s[j].info.id
}

/// Whether a station with this id is present.
pub open spec fn has_station_id(s: Seq<Station>, id: u64) -> bool {
    exists|i: int| 0 <= i < s.len() && s[i].info.id == id
}

/// The index of the station with this id.
pub open spec fn station_index(s: Seq<Station>, id: u64) -> int {
    choose|i: int| 0 <= i < s.len() && s[i].info.id == id
}

/// The whole dashboard state.
pub struct State {
    /// The id of the station the dashboard currently shows; zero until the
    /// first station is added.
    pub active_station: u64,
    /// The monitored stations, in ascending id order.
    pub stations: Vec<Station>,
    /// The last known rotator reading: (azimuth, elevation) in
    /// milli-degrees.
    pub rotator_position: Option<(i64, i64)>,
}

/// The id the cursor moves to on one forward step: with more than one
/// station, the next id in order, wrapping to the first; otherwise
/// unchanged.
pub open spec fn spec_next_active(s: Seq<Station>, active: u64) -> u64 {
    if s.len() <= 1 || !has_station_id(s, active) {
        active
    } else {
        let i = station_index(s, active);
        if i + 1 < s.len() {
            s[i + 1].info.id
        } else {
            s[0].info.id
        }
    }
}

/// The id the cursor moves to on one backward step.
pub open spec fn spec_prev_active(s: Seq<Station>, active: u64) -> u64 {
    if s.len() <= 1 || !has_station_id(s, active) {
        active
    } else {
        let i = station_index(s, active);
        if i > 0 {
            s[i - 1].info.id
        } else {
            s[s.len() - 1].info.id
        }
    }
}

/// The cursor after `n` forward steps.
pub open spec fn spec_next_active_n(s: Seq<Station>, active: u64, n: nat) -> u64
    decreases n,
{
    if n == 0 {
        active
    } else {
        spec_next_active(s, spec_next_active_n(s, active, (n - 1) as nat))
    }
}

impl State {
    /// Every queue well-formed, stations in id order, and the cursor either
    /// still zero or on a present station.
    pub open spec fn wf(self) -> bool {
        &&& stations_ordered(self.stations@)
        &&& forall|i: int| 0 <= i < self.stations@.len() ==> (#[trigger] self.stations@[i]).wf()
        &&& self.active_station != 0 ==> has_station_id(self.stations@, self.active_station)
    }

    /// An empty state: no stations, cursor unset, no rotator reading.
    pub fn new() -> (s: State)
        ensures
            s.active_station == 0,
            s.stations@.len() == 0,
            s.rotator_position is None,
            s.wf(),
    {
        State { active_station: 0, stations: Vec::new(), rotator_position: None }
    }

    /// The index of the station with this id, if present.
    fn find_station(&self, id: u64) -> (r: Option<usize>)
        ensures
            match r {
                Some(i) => 0 <= i < self.stations@.len() && self.stations@[i as int].info.id
                    == id,
                None => !has_station_id(self.stations@, id),
            },
    {
        let mut i: usize = 0;
        while i < self.stations.len()
            invariant
                0 <= i <= self.stations@.len(),
                forall|j: int| 0 <= j < i ==> self.stations@[j].info.id != id,
            decreases self.stations@.len() - i,
        {
            if self.stations[i].id() == id {
                return Some(i);
            }
            i = i + 1;
        }
        None
    }

    /// Add a station, keeping the list in id order; a station with the same
    /// id is replaced, as the id is the unique key.
    pub fn add_station(&mut self, station: Station)
        requires
            old(self).wf(),
            station.wf(),
        ensures
            final(self).wf(),
            final(self).active_station == old(self).active_station,
            final(self).rotator_position == old(self).rotator_position,
            has_station_id(final(self).stations@, station.info.id),
            forall|id: u64|
                #[trigger] has_station_id(final(self).stations@, id) <==> (has_station_id(
                    old(self).stations@,
                    id,
                ) || id == station.info.id),
            forall|i: int|
                0 <= i < final(self).stations@.len() ==> (#[trigger] final(self).stations@[i] == station || old(self).stations@.contains(
                    final(self).stations@[i],
                )),
            forall|i: int|
                0 <= i < final(self).stations@.len()
                    && (#[trigger] final(self).stations@[i]).info.id == station.info.id
                    ==> final(self).stations@[i] == station,
    {
        let id = station.id();
        let n = self.stations.len();
        let mut pos: usize = 0;
        while pos < n && self.stations[pos].id() < id
            invariant
                0 <= pos <= n == self.stations@.len(),
                forall|j: int| 0 <= j < pos ==> self.stations@[j].info.id < id,
                self.wf(),
                id == station.info.id,
            decreases n - pos,
        {
            pos = pos + 1;
        }
        let ghost before = self.stations@;
        if pos < n {
            let same = self.stations[pos].id() == id;
            if same {
                self.stations[pos] = station;
                proof {
                    let qnew = self.stations@;
                    assert(qnew =~= before.update(pos as int, station));
                    assert forall|id2: u64| #[trigger] has_station_id(qnew, id2) <==> (
                    has_station_id(before, id2) || id2 == id) by {
                        if has_station_id(qnew, id2) {
                            let i = choose|i: int| 0 <= i < qnew.len() && qnew[i].info.id == id2;
                            if i != pos {
                                assert(before[i].info.id == id2);
                            }
                        }
                        if has_station_id(before, id2) {
                            let i = choose|i: int|
                                0 <= i < before.len() && before[i].info.id == id2;
                            if i != pos {
                                assert(qnew[i].info.id == id2);
                            } else {
                                assert(qnew[pos as int].info.id == id);
                            }
                        }
                        if id2 == id {
                            assert(qnew[pos as int].info.id == id2);
                        }
                    }
                    assert forall|i: int| 0 <= i < qnew.len() implies (#[trigger] qnew[i]
                        == station || before.contains(qnew[i])) by {
                        if i != pos {
                            assert(qnew[i] == before[i]);
                        }
                    }
                    assert forall|i: int|
                        0 <= i < qnew.len() && (#[trigger] qnew[i]).info.id
                            == id implies qnew[i] == station by {
                        if i != pos {
                            assert(qnew[i] == before[i]);
                            assert(before[i].info.id != before[pos as int].info.id);
                        }
                    }
                }
                return ;
            }
        }
        self.stations.insert(pos, station);
        proof {
            let qnew = self.stations@;
            before.insert_ensures(pos as int, station);
            assert forall|i: int, j: int| 0 <= i < j < qnew.len() implies qnew[i].info.id
                < qnew[j].info.id by {
                let p = pos as int;
                if i < p && j < p {
                } else if i < p && j == p {
                } else if i < p && j > p {
                    assert(qnew[j] == before[j - 1]);
                } else if i == p && j > p {
                    assert(qnew[j] == before[j - 1]);
                } else {
                    assert(qnew[i] == before[i - 1] && qnew[j] == before[j - 1]);
                }
            }
            assert forall|id2: u64| #[trigger] has_station_id(qnew, id2) <==> (has_station_id(
                before,
                id2,
            ) || id2 == id) by {
                if has_station_id(qnew, id2) {
                    let i = choose|i: int| 0 <= i < qnew.len() && qnew[i].info.id == id2;
                    if i < pos {
                        assert(before[i].info.id == id2);
                    } else if i > pos {
                        assert(before[i - 1].info.id == id2);
                    }
                }
                if has_station_id(before, id2) {
                    let i = choose|i: int| 0 <= i < before.len() && before[i].info.id == id2;
                    if i < pos {
                        assert(qnew[i].info.id == id2);
                    } else {
                        assert(qnew[i + 1].info.id == id2);
                    }
                }
                if id2 == id {
                    assert(qnew[pos as int].info.id == id2);
                }
            }
            assert forall|i: int| 0 <= i < qnew.len() implies (#[trigger] qnew[i] == station
                || before.contains(qnew[i])) by {
                if i < pos {
                    assert(qnew[i] == before[i]);
                } else if i > pos {
                    assert(qnew[i] == before[i - 1]);
                }
            }
            assert forall|i: int| 0 <= i < qnew.len() implies (#[trigger] qnew[i]).wf() by {
                if i < pos {
                    assert(qnew[i] == before[i]);
                } else if i > pos {
                    assert(qnew[i] == before[i - 1]);
                }
            }
            assert forall|i: int|
                0 <= i < qnew.len() && (#[trigger] qnew[i]).info.id == id implies qnew[i]
                == station by {
                assert(qnew[pos as int] == station);
                if i < pos {
                    assert(qnew[i].info.id < qnew[pos as int].info.id);
                } else if i > pos {
                    assert(qnew[pos as int].info.id < qnew[i].info.id);
                }
            }
        }
    }

    /// The station the cursor points at.
    pub fn get_active_station(&self) -> (r: &Station)
        requires
            self.wf(),
            has_station_id(self.stations@, self.active_station),
        ensures
            self.stations@.contains(*r),
            r.info.id == self.active_station,
    {
        let i = match self.find_station(self.active_station) {
            Some(i) => i,
            None => {
                proof {
                    assert(false);
                }
                0
            },
        };
        let r = &self.stations[i];
        proof {
            assert(self.stations@.contains(self.stations@[i as int]));
        }
        r
    }

    /// The station the cursor points at, borrowed for mutation. The borrow
    /// replaces that one entry; the caller is responsible for keeping the
    /// station well-formed.
    pub fn get_active_station_mut(&mut self) -> (r: &mut Station)
        requires
            old(self).wf(),
            has_station_id(old(self).stations@, old(self).active_station),
        ensures
            *r == old(self).stations@[station_index(
                old(self).stations@,
                old(self).active_station,
            )],
            final(self).active_station == old(self).active_station,
            final(self).rotator_position == old(self).rotator_position,
            final(self).stations@ == old(self).stations@.update(
                station_index(old(self).stations@, old(self).active_station),
                *final(r),
            ),
    {
        let i = match self.find_station(self.active_station) {
            Some(i) => i,
            None => {
                proof {
                    assert(false);
                }
                0
            },
        };
        proof {
            lemma_station_index_agrees(self.stations@, self.active_station, i as int);
        }
        &mut self.stations[i]
    }

    /// Merge a freshly fetched batch into the station with this id; an id
    /// with no station is ignored.
    pub fn update_jobs(
        &mut self,
        id: u64,
        jobs: Vec<(network::Job, network::Observation)>,
    )
        requires
            old(self).wf(),
        ensures
            final(self).wf(),
            final(self).active_station == old(self).active_station,
            final(self).rotator_position == old(self).rotator_position,
            final(self).stations@.len() == old(self).stations@.len(),
            !has_station_id(old(self).stations@, id) ==> final(self).stations@ == old(self).stations@,
            forall|i: int|
                0 <= i < old(self).stations@.len() && (#[trigger] old(self).stations@[i]).info.id
                    != id ==> final(self).stations@[i] == old(self).stations@[i],
            forall|i: int|
                0 <= i < old(self).stations@.len() && (#[trigger] old(self).stations@[i]).info.id
                    == id ==> {
                    &&& final(self).stations@[i].info == old(self).stations@[i].info
                    &&& final(self).stations@[i].sys_info == old(self).stations@[i].sys_info
                    &&& merged_jobs(
                        old(self).stations@[i].jobs@,
                        jobs@,
                        old(self).stations@[i].spec_location(),
                        final(self).stations@[i].jobs@,
                    )
                },
    {
        let found = self.find_station(id);
        match found {
            Some(i) => {
                let ghost before = self.stations@;
                let station = &mut self.stations[i];
                proof {
                    assert(old(self).stations@[i as int].wf());
                }
                station.update_jobs(jobs);
                proof {
                    let qnew = self.stations@;
                    assert(qnew =~= before.update(i as int, qnew[i as int]));
                    assert forall|a: int| 0 <= a < qnew.len() implies (#[trigger] qnew[a]).wf() by {
                        if a != i {
                            assert(qnew[a] == before[a]);
                        }
                    }
                    assert forall|a: int, b: int| 0 <= a < b < qnew.len() implies qnew[a].info.id
                        < qnew[b].info.id by {
                        assert(qnew[a].info.id == before[a].info.id);
                        assert(qnew[b].info.id == before[b].info.id);
                    }
                    assert forall|id2: u64| has_station_id(before, id2) implies #[trigger]
                    has_station_id(qnew, id2) by {
                        let a = choose|a: int| 0 <= a < before.len() && before[a].info.id == id2;
                        assert(qnew[a].info.id == id2);
                    }
                }
            },
            None => {},
        }
    }

    /// Store a freshly propagated sample for the active station's lead job;
    /// returns whether its ground track must be recomputed, or `None` where
    /// the active station has no jobs.
    pub fn update_vessel_position(&mut self, fresh: SatState) -> (track_stale: Option<bool>)
        requires
            old(self).wf(),
            has_station_id(old(self).stations@, old(self).active_station),
        ensures
            final(self).wf(),
            final(self).active_station == old(self).active_station,
            final(self).rotator_position == old(self).rotator_position,
            final(self).stations@.len() == old(self).stations@.len(),
            track_stale is Some <==> old(self).stations@[station_index(
                old(self).stations@,
                old(self).active_station,
            )].jobs@.len() > 0,
            track_stale is None ==> final(self).stations@ == old(self).stations@,
            track_stale is Some ==> {
                let i = station_index(old(self).stations@, old(self).active_station);
                &&& old(self).stations@[i].jobs@.len() > 0
                &&& final(self).stations@ =~= old(self).stations@.update(
                    i,
                    final(self).stations@[i],
                )
                &&& final(self).stations@[i].info == old(self).stations@[i].info
                &&& final(self).stations@[i].jobs@.len() == old(self).stations@[i].jobs@.len()
                &&& final(self).stations@[i].jobs@[0].vessel.sat == Some(fresh)
                &&& final(self).stations@[i].jobs@[0].vessel.ground_track == old(self).stations@[i].jobs@[0].vessel.ground_track
                &&& track_stale == Some(
                    old(self).stations@[i].jobs@[0].vessel.spec_track_stale(fresh),
                )
                &&& forall|k: int|
                    1 <= k < final(self).stations@[i].jobs@.len() ==> final(self).stations@[i].jobs@[k] == old(self).stations@[i].jobs@[k]
            },
    {
        let i = match self.find_station(self.active_station) {
            Some(i) => i,
            None => {
                proof {
                    assert(false);
                }
                0
            },
        };
        proof {
            let gi = station_index(old(self).stations@, old(self).active_station);
            assert(old(self).stations@[gi].info.id == old(self).active_station);
            assert(gi == i as int) by {
                if gi != i as int {
                    assert(old(self).stations@[gi].info.id != old(self).stations@[
                        i as int
                    ].info.id);
                }
            }
        }
        let ghost before = self.stations@;
        let station = &mut self.stations[i];
        if station.jobs.len() == 0 {
            return None;
        }
        let ghost jobs_before = station.jobs@;
        let job = &mut station.jobs[0];
        let stale = job.update_position(fresh);
        proof {
            let qnew = self.stations@;
            assert(station_index(before, old(self).active_station) == i as int);
            assert(qnew =~= before.update(i as int, qnew[i as int]));
            assert(qnew[i as int].jobs@ =~= jobs_before.update(
                0,
                qnew[i as int].jobs@[0],
            ));
            assert forall|a: int| 0 <= a < qnew.len() implies (#[trigger] qnew[a]).wf() by {
                if a != i {
                    assert(qnew[a] == before[a]);
                } else {
                    let jn = qnew[a].jobs@;
                    let jb = before[a].jobs@;
                    assert(jn[0].job == jb[0].job);
                    assert forall|x: int, y: int| 0 <= x < y < jn.len() implies jn[x].job.start
                        <= jn[y].job.start && jn[x].job.id != jn[y].job.id by {
                        assert(jn[x].job == jb[x].job && jn[y].job == jb[y].job);
                    }
                }
            }
            assert forall|a: int, b: int| 0 <= a < b < qnew.len() implies qnew[a].info.id
                < qnew[b].info.id by {
                assert(qnew[a].info.id == before[a].info.id);
                assert(qnew[b].info.id == before[b].info.id);
            }
            assert forall|id2: u64| has_station_id(before, id2) implies #[trigger]
            has_station_id(qnew, id2) by {
                let a = choose|a: int| 0 <= a < before.len() && before[a].info.id == id2;
                assert(qnew[a].info.id == id2);
            }
        }
        Some(stale)
    }

    /// Install a freshly computed ground track on the active station's lead
    /// job's vessel; with no job on the active station the track is
    /// discarded.
    pub fn set_active_ground_track(&mut self, points: Vec<(i64, i64)>)
        requires
            old(self).wf(),
            has_station_id(old(self).stations@, old(self).active_station),
        ensures
            final(self).wf(),
            final(self).active_station == old(self).active_station,
            final(self).rotator_position == old(self).rotator_position,
            final(self).stations@.len() == old(self).stations@.len(),
            ({
                let i = station_index(old(self).stations@, old(self).active_station);
                if old(self).stations@[i].jobs@.len() == 0 {
                    final(self).stations@ == old(self).stations@
                } else {
                    &&& final(self).stations@ =~= old(self).stations@.update(
                        i,
                        final(self).stations@[i],
                    )
                    &&& final(self).stations@[i].info == old(self).stations@[i].info
                    &&& final(self).stations@[i].jobs@.len() == old(self).stations@[i].jobs@.len()
                    &&& final(self).stations@[i].jobs@[0].vessel.ground_track == points
                    &&& final(self).stations@[i].jobs@[0].vessel.sat
                        == old(self).stations@[i].jobs@[0].vessel.sat
                    &&& forall|k: int|
                        1 <= k < final(self).stations@[i].jobs@.len()
                            ==> final(self).stations@[i].jobs@[k]
                            == old(self).stations@[i].jobs@[k]
                }
            }),
    {
        let i = match self.find_station(self.active_station) {
            Some(i) => i,
            None => {
                proof {
                    assert(false);
                }
                0
            },
        };
        proof {
            let gi = station_index(old(self).stations@, old(self).active_station);
            assert(old(self).stations@[gi].info.id == old(self).active_station);
            assert(gi == i as int) by {
                if gi != i as int {
                    assert(old(self).stations@[gi].info.id != old(self).stations@[
                        i as int
                    ].info.id);
                }
            }
        }
        let ghost before = self.stations@;
        let station = &mut self.stations[i];
        if station.jobs.len() == 0 {
            return ;
        }
        let ghost jobs_before = station.jobs@;
        let job = &mut station.jobs[0];
        job.vessel.set_ground_track(points);
        proof {
            let qnew = self.stations@;
            assert(station_index(before, old(self).active_station) == i as int);
            assert(qnew =~= before.update(i as int, qnew[i as int]));
            assert(qnew[i as int].jobs@ =~= jobs_before.update(0, qnew[i as int].jobs@[0]));
            assert forall|a: int| 0 <= a < qnew.len() implies (#[trigger] qnew[a]).wf() by {
                if a != i {
                    assert(qnew[a] == before[a]);
                } else {
                    let jn = qnew[a].jobs@;
                    let jb = before[a].jobs@;
                    assert(jn[0].job == jb[0].job);
                    assert forall|x: int, y: int| 0 <= x < y < jn.len() implies jn[x].job.start
                        <= jn[y].job.start && jn[x].job.id != jn[y].job.id by {
                        assert(jn[x].job == jb[x].job && jn[y].job == jb[y].job);
                    }
                }
            }
            assert forall|a: int, b: int| 0 <= a < b < qnew.len() implies qnew[a].info.id
                < qnew[b].info.id by {
                assert(qnew[a].info.id == before[a].info.id);
                assert(qnew[b].info.id == before[b].info.id);
            }
            assert forall|id2: u64| has_station_id(before, id2) implies #[trigger]
            has_station_id(qnew, id2) by {
                let a = choose|a: int| 0 <= a < before.len() && before[a].info.id == id2;
                assert(qnew[a].info.id == id2);
            }
        }
    }

    /// Move the cursor to the next station in id order, wrapping past the
    /// last back to the first; with a single station this is a no-op.
    pub fn next_station(&mut self)
        requires
            old(self).wf(),
        ensures
            final(self).wf(),
            final(self).stations == old(self).stations,
            final(self).rotator_position == old(self).rotator_position,
            final(self).active_station == spec_next_active(
                old(self).stations@,
                old(self).active_station,
            ),
    {
        if self.stations.len() <= 1 {
            return ;
        }
        let found = self.find_station(self.active_station);
        match found {
            Some(i) => {
                proof {
                    lemma_station_index_agrees(self.stations@, self.active_station, i as int);
                }
                let next = if i + 1 < self.stations.len() {
                    self.stations[i + 1].id()
                } else {
                    self.stations[0].id()
                };
                self.active_station = next;
                proof {
                    assert(has_station_id(self.stations@, next)) by {
                        let s = self.stations@;
                        if i as int + 1 < s.len() {
                            assert(s[i as int + 1].info.id == next);
                        } else {
                            assert(s[0].info.id == next);
                        }
                    }
                }
            },
            None => {},
        }
    }

    /// Move the cursor to the previous station in id order, wrapping past
    /// the first back to the last; with a single station this is a no-op.
    pub fn prev_station(&mut self)
        requires
            old(self).wf(),
        ensures
            final(self).wf(),
            final(self).stations == old(self).stations,
            final(self).rotator_position == old(self).rotator_position,
            final(self).active_station == spec_prev_active(
                old(self).stations@,
                old(self).active_station,
            ),
    {
        if self.stations.len() <= 1 {
            return ;
        }
        let found = self.find_station(self.active_station);
        match found {
            Some(i) => {
                proof {
                    lemma_station_index_agrees(self.stations@, self.active_station, i as int);
                }
                let prev = if i > 0 {
                    self.stations[i - 1].id()
                } else {
                    self.stations[self.stations.len() - 1].id()
                };
                self.active_station = prev;
                proof {
                    assert(has_station_id(self.stations@, prev)) by {
                        let s = self.stations@;
                        if i > 0 {
                            assert(s[i as int - 1].info.id == prev);
                        } else {
                            assert(s[s.len() - 1].info.id == prev);
                        }
                    }
                }
            },
            None => {},
        }
    }
}

/// With ids strictly increasing, any index holding the id is the index
/// `station_index` denotes.
proof fn lemma_station_index_agrees(s: Seq<Station>, id: u64, i: int)
    requires
        stations_ordered(s),
        0 <= i < s.len(),
        s[i].info.id == id,
    ensures
        station_index(s, id) == i,
{
    assert(has_station_id(s, id));
    let j = station_index(s, id);
    if j != i {
        assert(s[j].info.id != s[i].info.id);
    }
}

/// Cursor wraparound: with the cursor on a present station, stepping
/// forward as many times as there are stations returns it to where it
/// began; with a single station one step is already a no-op.
pub proof fn lemma_cursor_wraparound(s: Seq<Station>, active: u64)
    requires
        stations_ordered(s),
        has_station_id(s, active),
    ensures
        spec_next_active_n(s, active, s.len()) == active,
        s.len() == 1 ==> spec_next_active(s, active) == active,
{
    let n = s.len();
    assert(spec_next_active_n(s, active, 0) == active);
    if n <= 1 {
        assert(spec_next_active_n(s, active, 1) == spec_next_active(s, active));
    } else {
        let i0 = station_index(s, active);
        lemma_station_index_agrees(s, active, i0);
        lemma_cursor_steps(s, active, n);
    }
}

/// After `k` forward steps the cursor sits `k` places past its start,
/// wrapped past the end of the list.
proof fn lemma_cursor_steps(s: Seq<Station>, active: u64, k: nat)
    requires
        stations_ordered(s),
        has_station_id(s, active),
        s.len() > 1,
        k <= s.len(),
    ensures
        ({
            let i0 = station_index(s, active);
            let idx = if i0 + k < s.len() {
                i0 + k
            } else {
                i0 + k - s.len()
            };
            spec_next_active_n(s, active, k) == s[idx].info.id
        }),
    decreases k,
{
    let n = s.len() as int;
    let i0 = station_index(s, active);
    lemma_station_index_agrees(s, active, i0);
    if k > 0 {
        lemma_cursor_steps(s, active, (k - 1) as nat);
        let prev = spec_next_active_n(s, active, (k - 1) as nat);
        let ip = if i0 + k - 1 < n {
            i0 + k - 1
        } else {
            i0 + k - 1 - n
        };
        assert(0 <= ip < n);
        assert(s[ip].info.id == prev);
        assert(has_station_id(s, prev));
        lemma_station_index_agrees(s, prev, ip);
        assert(spec_next_active_n(s, active, k) == spec_next_active(s, prev));
        let idx = if i0 + k < n {
            i0 + k
        } else {
            i0 + k - n
        };
        if ip + 1 < n {
            assert(spec_next_active(s, prev) == s[ip + 1].info.id);
            assert(idx == ip + 1);
        } else {
            assert(spec_next_active(s, prev) == s[0].info.id);
            assert(idx == 0);
        }
    }
}

/// Sweep every station's queue: drop each job whose end is not strictly in
/// the future.
pub fn sweep_finished_jobs(state: &mut State, now: i64)
    requires
        old(state).wf(),
    ensures
        final(state).wf(),
        final(state).active_station == old(state).active_station,
        final(state).rotator_position == old(state).rotator_position,
        final(state).stations@.len() == old(state).stations@.len(),
        forall|i: int|
            0 <= i < final(state).stations@.len() ==> {
                &&& (#[trigger] final(state).stations@[i]).info == old(state).stations@[i].info
                &&& final(state).stations@[i].sys_info == old(state).stations@[i].sys_info
                &&& final(state).stations@[i].jobs@ == crate::station::spec_live_jobs(
                    old(state).stations@[i].jobs@,
                    now,
                )
            },
{
    let n = state.stations.len();
    let mut i: usize = 0;
    while i < n
        invariant
            0 <= i <= n == state.stations@.len(),
            n == old(state).stations@.len(),
            state.active_station == old(state).active_station,
            state.rotator_position == old(state).rotator_position,
            state.wf(),
            forall|a: int|
                i <= a < n ==> #[trigger] state.stations@[a] == old(state).stations@[a],
            forall|a: int|
                0 <= a < i ==> {
                    &&& (#[trigger] state.stations@[a]).info == old(state).stations@[a].info
                    &&& state.stations@[a].sys_info == old(state).stations@[a].sys_info
                    &&& state.stations@[a].jobs@ == crate::station::spec_live_jobs(
                        old(state).stations@[a].jobs@,
                        now,
                    )
                },
        decreases n - i,
    {
        let ghost before = state.stations@;
        let station = &mut state.stations[i];
        station.remove_finished_jobs(now);
        proof {
            let qnew = state.stations@;
            assert(qnew =~= before.update(i as int, qnew[i as int]));
            assert forall|a: int| 0 <= a < qnew.len() implies (#[trigger] qnew[a]).wf() by {
                if a != i {
                    assert(qnew[a] == before[a]);
                }
            }
            assert forall|a: int, b: int| 0 <= a < b < qnew.len() implies qnew[a].info.id
                < qnew[b].info.id by {
                assert(qnew[a].info.id == before[a].info.id);
                assert(qnew[b].info.id == before[b].info.id);
            }
            assert forall|id2: u64| has_station_id(before, id2) implies #[trigger]
            has_station_id(qnew, id2) by {
                let a = choose|a: int| 0 <= a < before.len() && before[a].info.id == id2;
                assert(qnew[a].info.id == id2);
            }
        }
        i = i + 1;
    }
}

/// Overwrite the metrics snapshot of every station named in `ids`.
pub fn apply_sys_info(state: &mut State, ids: &Vec<u64>, info: crate::sysinfo::SysInfo)
    requires
        old(state).wf(),
    ensures
        final(state).wf(),
        final(state).active_station == old(state).active_station,
        final(state).rotator_position == old(state).rotator_position,
        final(state).stations@.len() == old(state).stations@.len(),
        forall|i: int|
            0 <= i < final(state).stations@.len() ==> {
                &&& (#[trigger] final(state).stations@[i]).info == old(state).stations@[i].info
                &&& final(state).stations@[i].jobs == old(state).stations@[i].jobs
                &&& final(state).stations@[i].sys_info == (if ids@.contains(
                    old(state).stations@[i].info.id,
                ) {
                    info
                } else {
                    old(state).stations@[i].sys_info
                })
            },
{
    let n = state.stations.len();
    let mut i: usize = 0;
    while i < n
        invariant
            0 <= i <= n == state.stations@.len(),
            n == old(state).stations@.len(),
            state.active_station == old(state).active_station,
            state.rotator_position == old(state).rotator_position,
            state.wf(),
            forall|a: int|
                i <= a < n ==> #[trigger] state.stations@[a] == old(state).stations@[a],
            forall|a: int|
                0 <= a < i ==> {
                    &&& (#[trigger] state.stations@[a]).info == old(state).stations@[a].info
                    &&& state.stations@[a].jobs == old(state).stations@[a].jobs
                    &&& state.stations@[a].sys_info == (if ids@.contains(
                        old(state).stations@[a].info.id,
                    ) {
                        info
                    } else {
                        old(state).stations@[a].sys_info
                    })
                },
        decreases n - i,
    {
        let ghost before = state.stations@;
        let mut named = false;
        let sid = state.stations[i].id();
        let mut k: usize = 0;
        while k < ids.len()
            invariant
                0 <= k <= ids@.len(),
                named == exists|m: int| 0 <= m < k && ids@[m] == sid,
            decreases ids@.len() - k,
        {
            if ids[k] == sid {
                named = true;
            }
            k = k + 1;
        }
        proof {
            assert(named == ids@.contains(sid));
        }
        if named {
            let station = &mut state.stations[i];
            station.update_sys_info(info);
            proof {
                let qnew = state.stations@;
                assert(qnew =~= before.update(i as int, qnew[i as int]));
                assert forall|a: int| 0 <= a < qnew.len() implies (#[trigger] qnew[a]).wf() by {
                    if a != i {
                        assert(qnew[a] == before[a]);
                    } else {
                        assert(qnew[a].jobs == before[a].jobs);
                    }
                }
                assert forall|a: int, b: int| 0 <= a < b < qnew.len() implies qnew[a].info.id
                    < qnew[b].info.id by {
                    assert(qnew[a].info.id == before[a].info.id);
                    assert(qnew[b].info.id == before[b].info.id);
                }
                assert forall|id2: u64| has_station_id(before, id2) implies #[trigger]
                has_station_id(qnew, id2) by {
                    let a = choose|a: int| 0 <= a < before.len() && before[a].info.id == id2;
                    assert(qnew[a].info.id == id2);
                }
            }
        }
        i = i + 1;
    }
}

} // verus!
