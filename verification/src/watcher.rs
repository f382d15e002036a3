//! The waterfall watcher's decisions: which file paths are capture files,
//! which observation id a path encodes, and the per-session state machine
//! driven by create/modify/close notifications. The filesystem watch itself
//! and all file reading run outside the library and hand plain bytes in.

use vstd::prelude::*;

use crate::event::Event;
use crate::waterfall::{
    frequency_axis, parse_header, spec_freq_bin, spec_parse_header, header_fields,
    records_beyond, record_size, row_matches, WaterfallError, WaterfallSession,
};

verus! {

/// The marker every capture file name carries before the observation id:
/// the bytes of "receiving_waterfall_".
pub open spec fn capture_marker() -> Seq<u8> {
    seq![
        114u8, 101u8, 99u8, 101u8, 105u8, 118u8, 105u8, 110u8, 103u8, 95u8, 119u8, 97u8, 116u8,
        101u8, 114u8, 102u8, 97u8, 108u8, 108u8, 95u8,
    ]
}

/// The bytes of ".dat", which must follow the id somewhere in the name.
pub open spec fn dat_marker() -> Seq<u8> {
    seq![46u8, 100u8, 97u8, 116u8]
}

/// Whether the bytes of `pat` occur in `b` starting at `i`.
pub open spec fn seq_at(b: Seq<u8>, pat: Seq<u8>, i: int) -> bool {
    &&& 0 <= i
    &&& i + pat.len() <= b.len()
    &&& forall|j: int| 0 <= j < pat.len() ==> b[i + j] == pat[j]
}

/// Whether `d` is an ASCII decimal digit.
pub open spec fn is_digit(d: u8) -> bool {
    48 <= d <= 57
}

/// Length of the run of decimal digits in `b` starting at `p`.
pub open spec fn digit_run(b: Seq<u8>, p: int) -> int
    decreases b.len() - p when 0 <= p <= b.len()
{
    if p < 0 || p >= b.len() {
        0
    } else if is_digit(b[p]) {
        1 + digit_run(b, p + 1)
    } else {
        0
    }
}

/// Value of the `l` digits of `b` starting at `p`, read as a decimal
/// number, most significant first.
pub open spec fn digits_value(b: Seq<u8>, p: int, l: int) -> int
    decreases l,
{
    if l <= 0 {
        0
    } else {
        digits_value(b, p, l - 1) * 10 + (b[p + l - 1] - 48)
    }
}

/// Whether a capture-file match begins at position `i` of the path: a
/// directory separator somewhere before, the marker at `i`, followed by
/// one to nineteen decimal digits, an underscore, and ".dat" somewhere after.
pub open spec fn capture_match_at(b: Seq<u8>, i: int) -> bool {
    let run = digit_run(b, i + 20);
    &&& seq_at(b, capture_marker(), i)
    &&& exists|m: int| 0 <= m < i && b[m] == 47
    &&& 1 <= run <= 19
    &&& i + 20 + run < b.len()
    &&& b[i + 20 + run] == 95
    &&& exists|p: int| i + 21 + run <= p && seq_at(b, dat_marker(), p)
}

/// The id encoded at the first matching position of the path.
pub open spec fn spec_capture_id(b: Seq<u8>, i: int) -> int {
    digits_value(b, i + 20, digit_run(b, i + 20))
}

pub proof fn lemma_digit_run_bounds(b: Seq<u8>, p: int)
    requires
        0 <= p <= b.len(),
    ensures
        0 <= digit_run(b, p) <= b.len() - p,
        forall|j: int| p <= j < p + digit_run(b, p) ==> is_digit(b[j]),
        p + digit_run(b, p) < b.len() ==> !is_digit(b[p + digit_run(b, p)]),
    decreases b.len() - p,
{
    if p < b.len() && is_digit(b[p]) {
        lemma_digit_run_bounds(b, p + 1);
    }
}

/// A digit scan that stops at `q` found exactly the digit run.
pub proof fn lemma_digit_run_unique(b: Seq<u8>, p: int, q: int)
    requires
        0 <= p <= q <= b.len(),
        forall|j: int| p <= j < q ==> is_digit(b[j]),
        q < b.len() ==> !is_digit(b[q]),
    ensures
        digit_run(b, p) == q - p,
    decreases q - p,
{
    if p < q {
        lemma_digit_run_unique(b, p + 1, q);
    }
}

/// Ten to the `l`.
pub open spec fn pow10(l: int) -> int
    decreases l,
{
    if l <= 0 {
        1
    } else {
        10 * pow10(l - 1)
    }
}

/// A run of `l` digits denotes a value below ten to the `l`.
pub proof fn lemma_digits_value_bound(b: Seq<u8>, p: int, l: int)
    requires
        0 <= p,
        p + l <= b.len(),
        forall|j: int| p <= j < p + l ==> is_digit(b[j]),
    ensures
        0 <= digits_value(b, p, l) < pow10(l),
    decreases l,
{
    if l > 0 {
        lemma_digits_value_bound(b, p, l - 1);
    }
}

/// Extract the observation id from a capture-file path: the decimal number
/// after the first full match of the naming pattern. A path that matches
/// nowhere — including one whose digit run is too long to be an id — yields
/// nothing.
pub fn match_capture_path(path: &[u8]) -> (r: Option<u64>)
    ensures
        r is Some <==> exists|i: int| capture_match_at(path@, i),
        match r {
            Some(id) => exists|i: int|
                {
                    &&& #[trigger] capture_match_at(path@, i)
                    &&& forall|m: int| 0 <= m < i ==> !capture_match_at(path@, m)
                    &&& id == spec_capture_id(path@, i)
                },
            None => true,
        },
{
    let n: usize = path.len();
    let mut i: usize = 0;
    let mut seen_slash = false;
    if n < 25 {
        proof {
            assert forall|k: int| !capture_match_at(path@, k) by {
                if capture_match_at(path@, k) {
                    let run = digit_run(path@, k + 20);
                    assert(path@.len() > k + 20 + run);
                    assert(k >= 1);
                }
            }
        }
        return None;
    }
    while i <= n - 25
        invariant
            path@.len() == n,
            n >= 25,
            0 <= i,
            i <= n,
            seen_slash == exists|m: int| 0 <= m < i && path@[m] == 47,
            forall|m: int| 0 <= m < i ==> !capture_match_at(path@, m),
        decreases n - i,
    {
        let mut is_match = seen_slash;
        if is_match {
            let mut j: usize = 0;
            let marker: [u8; 20] = [
                114u8, 101u8, 99u8, 101u8, 105u8, 118u8, 105u8, 110u8, 103u8, 95u8, 119u8, 97u8,
                116u8, 101u8, 114u8, 102u8, 97u8, 108u8, 108u8, 95u8,
            ];
            while j < 20
                invariant
                    0 <= j <= 20,
                    i + 25 <= n == path@.len(),
                    marker@ =~= capture_marker(),
                    is_match == forall|t: int| 0 <= t < j ==> path@[i + t] == capture_marker()[t],
                decreases 20 - j,
            {
                if path[i + j] != marker[j] {
                    is_match = false;
                    proof {
                        assert(path@[i + j] != capture_marker()[j as int]);
                    }
                    j = 20;
                } else {
                    proof {
                        if forall|t: int| 0 <= t < j ==> path@[i + t] == capture_marker()[t] {
                            assert forall|t: int|
                                0 <= t < j + 1 implies path@[i + t] == capture_marker()[t] by {
                                if t == j {
                                    assert(path@[i + t] == capture_marker()[t]);
                                }
                            }
                        }
                    }
                    j = j + 1;
                }
            }
        }
        if is_match {
            // marker found at i with a slash before it: measure the digits
            let q0: usize = i + 20;
            let mut q: usize = q0;
            while q < n && 48 <= path[q] && path[q] <= 57
                invariant
                    q0 <= q <= n == path@.len(),
                    forall|t: int| q0 <= t < q ==> is_digit(path@[t]),
                decreases n - q,
            {
                q = q + 1;
            }
            proof {
                lemma_digit_run_unique(path@, q0 as int, q as int);
            }
            let run = q - q0;
            if 1 <= run && run <= 19 && q < n && path[q] == 95 {
                // a full match needs ".dat" after the underscore
                let mut p: usize = q + 1;
                let mut found_dat = false;
                while p <= n - 4 && !found_dat
                    invariant
                        q + 1 <= p <= n == path@.len(),
                        n >= 25,
                        found_dat ==> p >= q + 1 && seq_at(path@, dat_marker(), p as int),
                        !found_dat ==> forall|t: int|
                            q + 1 <= t < p ==> !seq_at(path@, dat_marker(), t),
                    decreases n - p + (if found_dat { 0int } else { 1int }),
                {
                    if path[p] == 46 && path[p + 1] == 100 && path[p + 2] == 97 && path[p + 3]
                        == 116 {
                        found_dat = true;
                        proof {
                            assert forall|t: int|
                                0 <= t < dat_marker().len() implies path@[p + t]
                                == dat_marker()[t] by {
                                if t == 0 {
                                } else if t == 1 {
                                } else if t == 2 {
                                } else {
                                    assert(t == 3);
                                }
                            }
                        }
                    } else {
                        proof {
                            assert(!seq_at(path@, dat_marker(), p as int));
                        }
                        p = p + 1;
                    }
                }
                proof {
                    if !found_dat {
                        assert forall|t: int| !(q + 1 <= t && seq_at(path@, dat_marker(), t)) by {
                            if q + 1 <= t && seq_at(path@, dat_marker(), t) {
                                assert(t + 4 <= n);
                            }
                        }
                    }
                }
                if found_dat {
                    // parse the id
                    let mut acc: u64 = 0;
                    let mut d: usize = 0;
                    proof {
                        lemma_digit_run_bounds(path@, q0 as int);
                        lemma_digits_value_bound(path@, q0 as int, run as int);
                        reveal_with_fuel(pow10, 21);
                        assert(pow10(19) == 10_000_000_000_000_000_000);
                    }
                    while d < run
                        invariant
                            0 <= d <= run <= 19,
                            q0 + run <= n == path@.len(),
                            forall|t: int| q0 <= t < q0 + run ==> is_digit(path@[t]),
                            acc == digits_value(path@, q0 as int, d as int),
                            acc < pow10(d as int),
                            pow10(19) == 10_000_000_000_000_000_000,
                        decreases run - d,
                    {
                        proof {
                            lemma_pow10_le(d as int + 1, 19);
                        }
                        acc = acc * 10 + ((path[q0 + d] - 48) as u64);
                        d = d + 1;
                    }
                    proof {
                        assert(capture_match_at(path@, i as int));
                    }
                    return Some(acc);
                } else {
                    proof {
                        assert(!capture_match_at(path@, i as int));
                    }
                }
            } else {
                proof {
                    if capture_match_at(path@, i as int) {
                        let r = digit_run(path@, i as int + 20);
                        assert(r == run);
                    }
                }
            }
        } else {
            proof {
                assert(!capture_match_at(path@, i as int));
            }
        }
        if path[i] == 47 {
            seen_slash = true;
        }
        proof {
            if path@[i as int] == 47 {
                assert(exists|m: int| 0 <= m < i + 1 && path@[m] == 47) by {
                    assert(path@[i as int] == 47);
                }
            }
        }
        i = i + 1;
    }
    proof {
        assert forall|k: int| !capture_match_at(path@, k) by {
            if capture_match_at(path@, k) {
                let run = digit_run(path@, k + 20);
                assert(k + 20 + run < n);
                assert(run >= 1);
                assert(k + 25 <= n || k >= i);
                if k >= i {
                    assert(k + 25 > n);
                    let p = choose|p: int| k + 21 + run <= p && seq_at(path@, dat_marker(), p);
                    assert(p + 4 <= n);
                    assert(k + 21 + run + 4 <= n);
                }
            }
        }
    }
    None
}

/// Powers of ten are positive.
pub proof fn lemma_pow10_pos(l: int)
    ensures
        pow10(l) >= 1,
    decreases l,
{
    if l > 0 {
        lemma_pow10_pos(l - 1);
    }
}

/// Monotonicity of powers of ten.
pub proof fn lemma_pow10_le(a: int, b: int)
    requires
        a <= b,
    ensures
        pow10(a) <= pow10(b),
        pow10(a) >= 1,
    decreases b,
{
    lemma_pow10_pos(a);
    if a < b && b > 0 {
        lemma_pow10_le(a, b - 1);
        lemma_pow10_pos(b - 1);
    }
}

/// Where a tracked capture stands: no file, a file whose header has not
/// fully landed yet, or a streaming session.
pub enum CaptureState {
    Absent,
    AwaitingHeader(u64),
    Streaming(WaterfallSession),
}

/// The watcher's per-session state machine. Only one capture is tracked at
/// a time: a second file created while one is open is ignored until the
/// first is explicitly closed.
pub struct CaptureTracker {
    pub state: CaptureState,
}

impl CaptureTracker {
    /// A streaming session's cursor never points into the header.
    pub open spec fn wf(self) -> bool {
        match self.state {
            CaptureState::Streaming(session) => session.wf(),
            _ => true,
        }
    }

    /// A tracker with no capture.
    pub fn new() -> (t: CaptureTracker)
        ensures
            t.state is Absent,
            t.wf(),
    {
        CaptureTracker { state: CaptureState::Absent }
    }

    /// A capture file appeared: start waiting for its header, unless a
    /// capture is already tracked.
    pub fn on_created(&mut self, observation_id: u64)
        requires
            old(self).wf(),
        ensures
            final(self).wf(),
            old(self).state is Absent ==> final(self).state == CaptureState::AwaitingHeader(
                observation_id,
            ),
            !(old(self).state is Absent) ==> final(self).state == old(self).state,
    {
        match self.state {
            CaptureState::Absent => {
                self.state = CaptureState::AwaitingHeader(observation_id);
            },
            _ => {},
        }
    }

    /// The header did not land in time: abandon the awaited capture.
    pub fn on_header_timeout(&mut self)
        requires
            old(self).wf(),
        ensures
            final(self).wf(),
            old(self).state is AwaitingHeader ==> final(self).state is Absent,
            !(old(self).state is AwaitingHeader) ==> final(self).state == old(self).state,
    {
        match self.state {
            CaptureState::AwaitingHeader(_) => {
                self.state = CaptureState::Absent;
            },
            _ => {},
        }
    }

    /// The awaited header has fully landed: parse it. On success the
    /// tracker starts streaming and hands back the creation event with the
    /// derived frequency axis; a parse failure abandons this capture only.
    /// Outside the awaiting state nothing happens.
    pub fn on_header(&mut self, bytes: &[u8]) -> (r: Result<Option<Event>, WaterfallError>)
        requires
            old(self).wf(),
        ensures
            final(self).wf(),
            !(old(self).state is AwaitingHeader) ==> {
                &&& final(self).state == old(self).state
                &&& r == Ok::<Option<Event>, WaterfallError>(None)
            },
            old(self).state matches CaptureState::AwaitingHeader(obs) ==> match r {
                Ok(emitted) => {
                    &&& spec_parse_header(bytes@) is Ok
                    &&& final(self).state matches CaptureState::Streaming(session)
                    &&& session.observation_id == obs
                    &&& session.cursor == 52
                    &&& Ok::<_, WaterfallError>(header_fields(session.header))
                        == spec_parse_header(bytes@)
                    &&& emitted matches Some(ev)
                    &&& ev matches Event::WaterfallCreated(eobs, axis)
                    &&& eobs == obs
                    &&& axis@.len() == session.header.fft_size
                    &&& (session.header.fft_size >= 2 ==> forall|k: int|
                        0 <= k < axis@.len() ==> axis@[k] == spec_freq_bin(
                            session.header.sample_rate,
                            session.header.fft_size,
                            k,
                        ))
                },
                Err(e) => {
                    &&& spec_parse_header(bytes@) == Err::<
                        (Seq<u8>, i64, int, int, int, int, int),
                        _,
                    >(e)
                    &&& final(self).state is Absent
                },
            },
    {
        let obs = match &self.state {
            CaptureState::AwaitingHeader(obs) => *obs,
            _ => {
                return Ok(None);
            },
        };
        match parse_header(bytes) {
            Ok(header) => {
                let axis = frequency_axis(header.sample_rate, header.fft_size);
                let session = WaterfallSession::new(obs, header);
                self.state = CaptureState::Streaming(session);
                Ok(Some(Event::WaterfallCreated(obs, axis)))
            },
            Err(e) => {
                self.state = CaptureState::Absent;
                Err(e)
            },
        }
    }

    /// The capture file grew: consume every whole record beyond the cursor
    /// and hand back one data event per record, in file order. Outside the
    /// streaming state nothing happens.
    pub fn on_data(&mut self, file: &[u8]) -> (rows: Vec<(i64, Vec<u32>)>)
        requires
            old(self).wf(),
        ensures
            final(self).wf(),
            !(old(self).state is Streaming) ==> {
                &&& final(self).state == old(self).state
                &&& rows@.len() == 0
            },
            old(self).state matches CaptureState::Streaming(session) ==> {
                &&& final(self).state matches CaptureState::Streaming(after)
                &&& after.observation_id == session.observation_id
                &&& after.header == session.header
                &&& rows@.len() == records_beyond(file@, session.cursor, session.header.fft_size)
                &&& after.cursor == session.cursor + rows@.len() * record_size(
                    session.header.fft_size,
                )
                &&& forall|k: int|
                    0 <= k < rows@.len() ==> #[trigger] row_matches(
                        rows@[k],
                        file@,
                        session.cursor + k * record_size(session.header.fft_size),
                        session.header.fft_size,
                    )
            },
    {
        match &mut self.state {
            CaptureState::Streaming(session) => session.advance(file),
            _ => Vec::new(),
        }
    }

    /// The capture file was closed: discard the tracked state and hand back
    /// the closing event.
    pub fn on_closed(&mut self, observation_id: u64) -> (ev: Event)
        ensures
            final(self).state is Absent,
            final(self).wf(),
            ev == Event::WaterfallClosed(observation_id),
    {
        self.state = CaptureState::Absent;
        Event::WaterfallClosed(observation_id)
    }
}

} // verus!
