//! The waterfall capture wire format: a fixed 52-byte header followed by a
//! stream of fixed-size data records, read from a still-growing byte buffer.
//! Partial records are never consumed; the cursor only advances by whole
//! records.

use vstd::prelude::*;

use crate::bytes::{
    be_u32_at, be_u32_bytes, le_i64_at, le_u32_at, push_be_u32, read_be_u32, read_le_i64,
    read_le_u32,
};
use crate::timefmt::{parse_rfc3339_seconds, rfc3339_instant};

verus! {

/// Total size of the fixed header: a 32-byte timestamp field and five
/// four-byte big-endian fields.
pub const HEADER_SIZE: usize = 52;

/// Size of the NUL-padded timestamp field at the start of the header.
pub const TIMESTAMP_FIELD_SIZE: usize = 32;

/// Why a header failed to parse.
#[derive(Clone, Copy, Debug, PartialEq, Eq, Structural)]
pub enum WaterfallError {
    /// Fewer bytes than the fixed header size were available.
    TruncatedHeader,
    /// The timestamp field does not hold an RFC 3339 date and time.
    InvalidTimestamp,
}

/// The parsed fixed header of a capture file.
pub struct WaterfallHeader {
    /// The timestamp field, trimmed of its NUL padding: the start of the
    /// capture as RFC 3339 text.
    pub timestamp: Vec<u8>,
    /// The start of the capture in whole seconds since the UNIX epoch.
    pub timestamp_secs: i64,
    /// Number of power bins per data record.
    pub fft_size: u32,
    /// Sample rate in Hz; the frequency axis spans one sample rate, centered
    /// on zero.
    pub sample_rate: u32,
    /// Rows-per-block hint; stored, not otherwise used.
    pub nfft_per_row: u32,
    /// IEEE-754 bit pattern of the center frequency, kept as raw bits.
    pub center_freq_bits: u32,
    /// Tag describing how the data records are encoded.
    pub endianness: u32,
}

/// Length of the prefix of `b` before its first NUL byte (the whole of `b`
/// where it has none).
pub open spec fn trim_len(b: Seq<u8>) -> int
    decreases b.len(),
{
    if b.len() == 0 {
        0
    } else if b[0] == 0 {
        0
    } else {
        1 + trim_len(b.skip(1))
    }
}

/// The prefix of `b` before its first NUL byte.
pub open spec fn nul_trimmed(b: Seq<u8>) -> Seq<u8> {
    b.take(trim_len(b))
}

/// The first NUL position is the only index that an exec scan can stop at.
pub proof fn lemma_trim_len_unique(b: Seq<u8>, k: int)
    requires
        0 <= k <= b.len(),
        forall|j: int| 0 <= j < k ==> b[j] != 0,
        k < b.len() ==> b[k] == 0,
    ensures
        k == trim_len(b),
    decreases b.len(),
{
    if b.len() != 0 && b[0] != 0 {
        lemma_trim_len_unique(b.skip(1), k - 1);
    }
}

/// The timestamp text of a header buffer: the 32-byte field, trimmed of NUL
/// padding.
pub open spec fn header_timestamp_field(b: Seq<u8>) -> Seq<u8>
    recommends
        b.len() >= 52,
{
    nul_trimmed(b.take(32))
}

/// What parsing a header buffer yields: the trimmed timestamp text, its
/// instant in seconds, and the five big-endian fields, or the reason the
/// buffer is rejected.
pub open spec fn spec_parse_header(b: Seq<u8>) -> Result<
    (Seq<u8>, i64, int, int, int, int, int),
    WaterfallError,
> {
    if b.len() < 52 {
        Err(WaterfallError::TruncatedHeader)
    } else {
        match rfc3339_instant(header_timestamp_field(b)) {
            Some(secs) => Ok(
                (
                    header_timestamp_field(b),
                    secs,
                    be_u32_at(b, 32),
                    be_u32_at(b, 36),
                    be_u32_at(b, 40),
                    be_u32_at(b, 44),
                    be_u32_at(b, 48),
                ),
            ),
            None => Err(WaterfallError::InvalidTimestamp),
        }
    }
}

/// The view of a parsed header, for comparing against `spec_parse_header`.
pub open spec fn header_fields(h: WaterfallHeader) -> (Seq<u8>, i64, int, int, int, int, int) {
    (
        h.timestamp@,
        h.timestamp_secs,
        h.fft_size as int,
        h.sample_rate as int,
        h.nfft_per_row as int,
        h.center_freq_bits as int,
        h.endianness as int,
    )
}

/// Parse the fixed header at the start of `b`.
///
/// The buffer is rejected exactly when it is shorter than the header size or
/// when its timestamp field, trimmed of NUL padding, is not RFC 3339 text.
pub fn parse_header(b: &[u8]) -> (r: Result<WaterfallHeader, WaterfallError>)
    ensures
        match r {
            Ok(h) => spec_parse_header(b@) == Ok::<_, WaterfallError>(header_fields(h)),
            Err(e) => spec_parse_header(b@) == Err::<(Seq<u8>, i64, int, int, int, int, int), _>(e),
        },
{
    let n: usize = b.len();
    if n < HEADER_SIZE {
        return Err(WaterfallError::TruncatedHeader);
    }
    let mut end: usize = 0;
    while end < TIMESTAMP_FIELD_SIZE && b[end] != 0
        invariant
            0 <= end <= TIMESTAMP_FIELD_SIZE,
            b@.len() >= 52,
            forall|j: int| 0 <= j < end ==> b@[j] != 0,
        decreases TIMESTAMP_FIELD_SIZE - end,
    {
        end = end + 1;
    }
    proof {
        lemma_trim_len_unique(b@.take(32), end as int);
        assert(b@.take(32).take(end as int) =~= b@.subrange(0, end as int));
    }
    let trimmed: &[u8] = &b[0..end];
    assert(trimmed@ == header_timestamp_field(b@));
    let secs = match parse_rfc3339_seconds(trimmed) {
        Some(secs) => secs,
        None => {
            return Err(WaterfallError::InvalidTimestamp);
        },
    };
    let mut timestamp: Vec<u8> = Vec::new();
    let mut i: usize = 0;
    while i < end
        invariant
            0 <= i <= end <= 32,
            b@.len() >= 52,
            timestamp@ =~= b@.subrange(0, i as int),
        decreases end - i,
    {
        timestamp.push(b[i]);
        i = i + 1;
    }
    assert(timestamp@ =~= header_timestamp_field(b@));
    Ok(WaterfallHeader {
        timestamp,
        timestamp_secs: secs,
        fft_size: read_be_u32(b, 32),
        sample_rate: read_be_u32(b, 36),
        nfft_per_row: read_be_u32(b, 40),
        center_freq_bits: read_be_u32(b, 44),
        endianness: read_be_u32(b, 48),
    })
}

/// A sequence of `n` NUL bytes.
pub open spec fn nul_padding(n: int) -> Seq<u8> {
    Seq::new(n as nat, |i: int| 0u8)
}

/// The 52 header bytes laid down for the given field values: the timestamp
/// text NUL-padded to 32 bytes, followed by the five fields in big-endian
/// order.
pub open spec fn spec_encode_header(
    ts: Seq<u8>,
    fft_size: u32,
    sample_rate: u32,
    nfft_per_row: u32,
    center_freq_bits: u32,
    endianness: u32,
) -> Seq<u8>
    recommends
        ts.len() <= 32,
{
    ts + nul_padding(32 - ts.len()) + be_u32_bytes(fft_size) + be_u32_bytes(sample_rate)
        + be_u32_bytes(nfft_per_row) + be_u32_bytes(center_freq_bits) + be_u32_bytes(endianness)
}

/// Lay down a header buffer for the given field values.
pub fn encode_header(
    ts: &[u8],
    fft_size: u32,
    sample_rate: u32,
    nfft_per_row: u32,
    center_freq_bits: u32,
    endianness: u32,
) -> (out: Vec<u8>)
    requires
        ts@.len() <= 32,
    ensures
        out@ == spec_encode_header(
            ts@,
            fft_size,
            sample_rate,
            nfft_per_row,
            center_freq_bits,
            endianness,
        ),
        out@.len() == 52,
{
    let n: usize = ts.len();
    let mut out: Vec<u8> = Vec::new();
    let mut i: usize = 0;
    while i < n
        invariant
            0 <= i <= n == ts@.len() <= 32,
            out@ =~= ts@.subrange(0, i as int),
        decreases n - i,
    {
        out.push(ts[i]);
        i = i + 1;
    }
    while i < TIMESTAMP_FIELD_SIZE
        invariant
            n == ts@.len() <= 32,
            n <= i <= 32,
            out@ =~= ts@ + nul_padding(i - n),
        decreases TIMESTAMP_FIELD_SIZE - i,
    {
        out.push(0);
        proof {
            assert(out@ =~= ts@ + nul_padding(i + 1 - n));
        }
        i = i + 1;
    }
    push_be_u32(&mut out, fft_size);
    push_be_u32(&mut out, sample_rate);
    push_be_u32(&mut out, nfft_per_row);
    push_be_u32(&mut out, center_freq_bits);
    push_be_u32(&mut out, endianness);
    proof {
        assert(out@ =~= spec_encode_header(
            ts@,
            fft_size,
            sample_rate,
            nfft_per_row,
            center_freq_bits,
            endianness,
        ));
    }
    out
}

/// A NUL-free timestamp survives the padding: trimming recovers exactly it.
pub proof fn lemma_trim_of_padded(ts: Seq<u8>)
    requires
        ts.len() <= 32,
        forall|i: int| 0 <= i < ts.len() ==> ts[i] != 0,
    ensures
        nul_trimmed(ts + nul_padding(32 - ts.len())) == ts,
{
    let padded = ts + nul_padding(32 - ts.len());
    lemma_trim_len_unique(padded, ts.len() as int);
    assert(padded.take(ts.len() as int) =~= ts);
}

/// Header round trip: a buffer laid down from a known field tuple parses back
/// to exactly that tuple, as long as the timestamp text is NUL-free RFC 3339.
pub proof fn lemma_header_roundtrip(
    ts: Seq<u8>,
    fft_size: u32,
    sample_rate: u32,
    nfft_per_row: u32,
    center_freq_bits: u32,
    endianness: u32,
)
    requires
        ts.len() <= 32,
        forall|i: int| 0 <= i < ts.len() ==> ts[i] != 0,
        rfc3339_instant(ts) is Some,
    ensures
        spec_parse_header(
            spec_encode_header(ts, fft_size, sample_rate, nfft_per_row, center_freq_bits, endianness),
        ) == Ok::<_, WaterfallError>(
            (
                ts,
                rfc3339_instant(ts)->Some_0,
                fft_size as int,
                sample_rate as int,
                nfft_per_row as int,
                center_freq_bits as int,
                endianness as int,
            ),
        ),
{
    let enc = spec_encode_header(ts, fft_size, sample_rate, nfft_per_row, center_freq_bits, endianness);
    assert(enc.len() == 52);
    assert(enc.take(32) =~= ts + nul_padding(32 - ts.len()));
    lemma_trim_of_padded(ts);
    assert(header_timestamp_field(enc) == ts);
    assert(enc.subrange(32, 36) =~= be_u32_bytes(fft_size));
    assert(enc.subrange(36, 40) =~= be_u32_bytes(sample_rate));
    assert(enc.subrange(40, 44) =~= be_u32_bytes(nfft_per_row));
    assert(enc.subrange(44, 48) =~= be_u32_bytes(center_freq_bits));
    assert(enc.subrange(48, 52) =~= be_u32_bytes(endianness));
    lemma_be_u32_fields(enc, 32, fft_size);
    lemma_be_u32_fields(enc, 36, sample_rate);
    lemma_be_u32_fields(enc, 40, nfft_per_row);
    lemma_be_u32_fields(enc, 44, center_freq_bits);
    lemma_be_u32_fields(enc, 48, endianness);
}

/// Reading four big-endian bytes recovers the value they were laid down from.
proof fn lemma_be_u32_fields(b: Seq<u8>, off: int, x: u32)
    requires
        0 <= off,
        off + 4 <= b.len(),
        b.subrange(off, off + 4) =~= be_u32_bytes(x),
    ensures
        be_u32_at(b, off) == x,
{
    assert(b[off] == be_u32_bytes(x)[0]);
    assert(b[off + 1] == be_u32_bytes(x)[1]);
    assert(b[off + 2] == be_u32_bytes(x)[2]);
    assert(b[off + 3] == be_u32_bytes(x)[3]);
}


/// Size in bytes of one data record: an eight-byte timestamp and `fft_size`
/// four-byte power bins.
pub open spec fn record_size(fft_size: u32) -> int {
    8 + 4 * fft_size
}

/// The record laid down at `off` in `b`: its little-endian timestamp and the
/// bit patterns of its `fft_size` little-endian power bins.
pub open spec fn spec_record_at(b: Seq<u8>, off: int, fft_size: u32) -> (i64, Seq<u32>)
    recommends
        0 <= off,
        off + record_size(fft_size) <= b.len(),
{
    (
        le_i64_at(b, off) as i64,
        Seq::new(fft_size as nat, |i: int| le_u32_at(b, off + 8 + 4 * i) as u32),
    )
}

/// Whether `row` is exactly the record laid down at `off` in `b`.
pub open spec fn row_matches(row: (i64, Vec<u32>), b: Seq<u8>, off: int, fft_size: u32) -> bool {
    row.0 == spec_record_at(b, off, fft_size).0 && row.1@ == spec_record_at(b, off, fft_size).1
}

/// How many whole records the buffer `b` holds beyond the cursor.
pub open spec fn records_beyond(b: Seq<u8>, cursor: u64, fft_size: u32) -> int {
    if b.len() >= cursor {
        (b.len() - cursor) / record_size(fft_size)
    } else {
        0
    }
}

/// One tracked capture: the parsed header and a byte cursor into the
/// still-growing source file. The cursor starts right after the header and
/// only ever advances by whole records.
pub struct WaterfallSession {
    /// The observation id encoded in the capture file's name.
    pub observation_id: u64,
    /// The parsed fixed header.
    pub header: WaterfallHeader,
    /// How many bytes of the file have been consumed.
    pub cursor: u64,
}

impl WaterfallSession {
    /// The cursor never points into the header.
    pub open spec fn wf(self) -> bool {
        self.cursor >= 52
    }

    /// Open a session over a file whose header has just been parsed.
    pub fn new(observation_id: u64, header: WaterfallHeader) -> (s: WaterfallSession)
        ensures
            s.observation_id == observation_id,
            s.header == header,
            s.cursor == 52,
            s.wf(),
    {
        WaterfallSession { observation_id, header, cursor: 52 as u64 }
    }

    /// Consume every whole record the file now holds beyond the cursor and
    /// return them in file order; a trailing partial record is left unread.
    ///
    /// `file` is the capture file's content read from its start.
    pub fn advance(&mut self, file: &[u8]) -> (rows: Vec<(i64, Vec<u32>)>)
        requires
            old(self).wf(),
        ensures
            final(self).observation_id == old(self).observation_id,
            final(self).header == old(self).header,
            final(self).wf(),
            rows@.len() == records_beyond(file@, old(self).cursor, old(self).header.fft_size),
            final(self).cursor == old(self).cursor + rows@.len() * record_size(
                old(self).header.fft_size,
            ),
            forall|i: int|
                0 <= i < rows@.len() ==> #[trigger] row_matches(
                    rows@[i],
                    file@,
                    old(self).cursor + i * record_size(old(self).header.fft_size),
                    old(self).header.fft_size,
                ),
    {
        let fft: u32 = self.header.fft_size;
        let flen: usize = file.len();
        let flen64: u64 = flen as u64;
        let rec: u64 = 8 + 4 * (fft as u64);
        let start: u64 = self.cursor;
        let ghost grec: int = record_size(fft);
        let mut cursor: u64 = self.cursor;
        let mut rows: Vec<(i64, Vec<u32>)> = Vec::new();
        proof {
            assert(rows@.len() == 0);
            assert(rows@.len() * grec == 0) by (nonlinear_arith)
                requires
                    rows@.len() == 0,
            ;
        }
        while cursor <= flen64 && flen64 - cursor >= rec
            invariant
                rec == grec,
                8 <= rec,
                start == old(self).cursor,
                cursor == start + rows@.len() * grec,
                rows@.len() * grec <= if flen as int >= start as int {
                    flen - start
                } else {
                    0
                },
                flen == file@.len(),
                flen64 == flen,
                fft == old(self).header.fft_size,
                grec == record_size(fft),
                forall|i: int|
                    0 <= i < rows@.len() ==> #[trigger] row_matches(
                        rows@[i],
                        file@,
                        start + i * grec,
                        fft,
                    ),
            decreases flen64 - cursor,
        {
            let off: usize = cursor as usize;
            proof {
                assert(off as int == cursor as int);
                assert(off + grec <= flen);
            }
            let seconds: i64 = read_le_i64(file, off);
            let mut bins: Vec<u32> = Vec::new();
            let mut j: usize = 0;
            let fft_us: usize = fft as usize;
            while j < fft_us
                invariant
                    0 <= j <= fft_us,
                    fft_us == fft,
                    off + 8 + 4 * (fft as int) <= flen,
                    flen == file@.len(),
                    bins@.len() == j,
                    forall|k: int|
                        0 <= k < j ==> #[trigger] bins@[k] == le_u32_at(
                            file@,
                            off + 8 + 4 * k,
                        ) as u32,
                decreases fft_us - j,
            {
                bins.push(read_le_u32(file, off + 8 + 4 * j));
                j = j + 1;
            }
            let ghost rows0 = rows@;
            rows.push((seconds, bins));
            cursor = cursor + rec;
            proof {
                let k = rows0.len() as int;
                assert(off as int == start + k * grec);
                assert((k + 1) * grec == k * grec + grec) by (nonlinear_arith);
                assert forall|i: int| 0 <= i < rows@.len() implies #[trigger] row_matches(
                    rows@[i],
                    file@,
                    start + i * grec,
                    fft,
                ) by {
                    if i < k {
                        assert(row_matches(rows0[i], file@, start + i * grec, fft));
                        assert(rows@[i] == rows0[i]);
                    } else {
                        let at = spec_record_at(file@, start + i * grec, fft);
                        assert(rows@[i] == (seconds, bins));
                        assert(bins@ =~= at.1);
                        assert(seconds == at.0);
                    }
                }
            }
        }
        proof {
            let k = rows@.len() as int;
            let avail: int = if flen as int >= start as int {
                flen - start
            } else {
                0
            };
            if flen as int >= start as int {
                assert(avail - k * grec < grec);
            } else {
                assert(k * grec <= 0);
                assert(k * grec >= 0) by (nonlinear_arith)
                    requires
                        k >= 0,
                        grec > 0,
                ;
                assert(k == 0) by (nonlinear_arith)
                    requires
                        k >= 0,
                        grec > 0,
                        k * grec == 0,
                ;
            }
            assert(avail / grec == k) by (nonlinear_arith)
                requires
                    grec > 0,
                    k >= 0,
                    k * grec <= avail,
                    avail - k * grec < grec,
            ;
        }
        self.cursor = cursor;
        rows
    }
}


/// Frequency of bin `i` of the derived axis, in milli-Hz: the bins are
/// linearly spaced from one half sample rate below zero to one half above.
pub open spec fn spec_freq_bin(sample_rate: u32, fft_size: u32, i: int) -> int
    recommends
        fft_size >= 2,
        0 <= i < fft_size,
{
    (i * sample_rate * 1000) / (fft_size - 1) - 500 * sample_rate
}

/// The frequency axis for a capture: `fft_size` bins in milli-Hz, linearly
/// spaced across the sample rate and centered on zero. With a single bin the
/// axis holds only the lower edge.
pub fn frequency_axis(sample_rate: u32, fft_size: u32) -> (axis: Vec<i64>)
    ensures
        axis@.len() == fft_size,
        fft_size == 1 ==> axis@[0] == -500 * sample_rate,
        fft_size >= 2 ==> forall|i: int|
            0 <= i < fft_size ==> axis@[i] == spec_freq_bin(sample_rate, fft_size, i),
        fft_size >= 2 ==> axis@[0] == -500 * sample_rate,
        fft_size >= 2 ==> axis@[fft_size - 1] == 500 * sample_rate,
{
    let mut axis: Vec<i64> = Vec::new();
    if fft_size == 0 {
        return axis;
    }
    let rate: i64 = sample_rate as i64;
    let base: i64 = 500 * rate;
    if fft_size == 1 {
        axis.push(-base);
        return axis;
    }
    let denom: i128 = (fft_size - 1) as i128;
    let mut i: u32 = 0;
    while i < fft_size
        invariant
            0 <= i <= fft_size,
            fft_size >= 2,
            rate == sample_rate,
            base == 500 * rate,
            denom == fft_size - 1,
            axis@.len() == i,
            forall|k: int|
                0 <= k < i ==> axis@[k] == spec_freq_bin(sample_rate, fft_size, k),
        decreases fft_size - i,
    {
        proof {
            assert(0 <= (i as int) * (rate as int) <= 0xFFFF_FFFFint * 0xFFFF_FFFF)
                by (nonlinear_arith)
                requires
                    0 <= i as int <= 0xFFFF_FFFF,
                    0 <= rate as int <= 0xFFFF_FFFF,
            ;
        }
        let num: i128 = (i as i128) * (rate as i128) * 1000;
        proof {
            let q = (i as int * sample_rate * 1000) / (fft_size - 1);
            assert((fft_size - 1) as int * sample_rate * 1000 == (sample_rate as int * 1000) * (
            fft_size - 1)) by (nonlinear_arith);
            assert(i as int * sample_rate * 1000 <= (fft_size - 1) as int * sample_rate * 1000)
                by (nonlinear_arith)
                requires
                    0 <= i as int <= fft_size - 1,
                    sample_rate >= 0,
            ;
            vstd::arithmetic::div_mod::lemma_div_pos_is_pos(i as int * sample_rate * 1000, fft_size - 1);
            vstd::arithmetic::div_mod::lemma_div_is_ordered(
                i as int * sample_rate * 1000,
                (fft_size - 1) as int * sample_rate * 1000,
                fft_size - 1,
            );
            vstd::arithmetic::div_mod::lemma_div_by_multiple(
                sample_rate as int * 1000,
                fft_size - 1,
            );
            assert(0 <= q <= sample_rate * 1000);
        }
        let v: i64 = ((num / denom) - (base as i128)) as i64;
        axis.push(v);
        i = i + 1;
    }
    proof {
        assert(axis@[0] == spec_freq_bin(sample_rate, fft_size, 0));
        assert((0int * sample_rate * 1000) / (fft_size - 1) == 0) by {
            vstd::arithmetic::div_mod::lemma_div_of0(fft_size - 1);
            assert(0int * sample_rate * 1000 == 0) by (nonlinear_arith);
        }
        let last = fft_size - 1;
        assert(axis@[last] == spec_freq_bin(sample_rate, fft_size, last));
        assert(((fft_size - 1) * sample_rate * 1000) / (fft_size - 1) == sample_rate * 1000) by {
            vstd::arithmetic::div_mod::lemma_div_by_multiple(
                sample_rate as int * 1000,
                fft_size - 1,
            );
            assert((fft_size - 1) * sample_rate * 1000 == (sample_rate as int * 1000) * (fft_size
                - 1)) by (nonlinear_arith);
        }
    }
    axis
}


/// Parse the NUL-padded timestamp field of a header: the text before the
/// first NUL byte read as an RFC 3339 date and time, in whole seconds since
/// the UNIX epoch.
pub fn parse_timestamp(buf: &[u8]) -> (r: Result<i64, WaterfallError>)
    ensures
        match r {
            Ok(secs) => rfc3339_instant(nul_trimmed(buf@)) == Some(secs),
            Err(e) => e == WaterfallError::InvalidTimestamp && rfc3339_instant(
                nul_trimmed(buf@),
            ) is None,
        },
{
    let n: usize = buf.len();
    let mut end: usize = 0;
    while end < n && buf[end] != 0
        invariant
            0 <= end <= n == buf@.len(),
            forall|j: int| 0 <= j < end ==> buf@[j] != 0,
        decreases n - end,
    {
        end = end + 1;
    }
    proof {
        lemma_trim_len_unique(buf@, end as int);
        assert(buf@.take(end as int) =~= buf@.subrange(0, end as int));
    }
    let trimmed: &[u8] = &buf[0..end];
    match parse_rfc3339_seconds(trimmed) {
        Some(secs) => Ok(secs),
        None => Err(WaterfallError::InvalidTimestamp),
    }
}

} // verus!

