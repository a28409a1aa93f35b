//! The layout of a JFIF stream, stated over its bytes.
use vstd::prelude::*;

use crate::error::JfifError;
use crate::segment::{
    SegmentView,
    DacParam, DhtView, DqtView, FrameComponent, FrameView, JfifView, KindView, ScanComponent,
    ScanView,
};

verus! {

/// The 16-bit value of two bytes, most significant first.
pub open spec fn be16(hi: u8, lo: u8) -> u16 {
    (hi as int * 256 + lo as int) as u16
}

/// The high half of a byte.
pub open spec fn high_nibble(b: u8) -> u8 {
    (b / 16) as u8
}

/// The low half of a byte.
pub open spec fn low_nibble(b: u8) -> u8 {
    (b % 16) as u8
}

/// Looks for a marker from index `i` on: skips bytes up to an `FF`, then any
/// run of `FF` fill bytes; the byte after the run is the marker code.
/// `in_ff` says whether an `FF` has been seen. Gives the code and the index
/// after it. A stream that ends before any `FF` ends cleanly; one that ends
/// inside the run of `FF` ends inside a segment.
pub open spec fn marker_from(d: Seq<u8>, i: int, in_ff: bool) -> Result<(u8, int), JfifError>
    decreases d.len() - i,
{
    if i < 0 || i >= d.len() {
        if in_ff {
            Err(JfifError::UnexpectedEof)
        } else {
            Err(JfifError::EndOfStream)
        }
    } else if d[i] == 0xFF {
        marker_from(d, i + 1, true)
    } else if in_ff {
        Ok((d[i], i + 1))
    } else {
        marker_from(d, i + 1, false)
    }
}

/// `n` bytes of `FF`.
pub open spec fn fill(n: nat) -> Seq<u8> {
    Seq::new(n, |k: int| 0xFFu8)
}

/// Reads entropy-coded bytes from index `i` on, appending to `acc`, up to the
/// next marker. `run` counts the `FF` bytes just read. A run of `FF` followed
/// by `00` is stuffing and is kept whole, `00` included; a run followed by any
/// other byte is a marker. Gives the bytes, the marker code and the index
/// after it.
pub open spec fn entropy_from(d: Seq<u8>, i: int, run: nat, acc: Seq<u8>) -> Result<
    (Seq<u8>, u8, int),
    JfifError,
>
    decreases d.len() - i,
{
    if i < 0 || i >= d.len() {
        Err(JfifError::UnexpectedEof)
    } else if d[i] == 0xFF {
        entropy_from(d, i + 1, run + 1, acc)
    } else if run == 0 {
        entropy_from(d, i + 1, 0, acc.push(d[i]))
    } else if d[i] == 0 {
        entropy_from(d, i + 1, 0, acc + fill(run) + seq![0u8])
    } else {
        Ok((acc, d[i], i + 1))
    }
}

/// The entropy-coded bytes from index `i` up to the next marker.
pub open spec fn entropy(d: Seq<u8>, i: int) -> Result<(Seq<u8>, u8, int), JfifError> {
    entropy_from(d, i, 0, Seq::empty())
}

/// The quantization table at offset `o` of a payload.
pub open spec fn dqt_at(q: Seq<u8>, o: int) -> DqtView {
    DqtView {
        precision: high_nibble(q[o]),
        dest: low_nibble(q[o]),
        values: q.subrange(o + 1, o + 65),
    }
}

/// The quantization tables of a payload: one per whole 65 bytes; a shorter
/// remainder is dropped.
pub open spec fn dqt_tables(q: Seq<u8>) -> Seq<DqtView> {
    Seq::new(q.len() / 65, |k: int| dqt_at(q, 65 * k))
}

/// The sum of a sequence of counts.
pub open spec fn sum_counts(s: Seq<u8>) -> int
    decreases s.len(),
{
    if s.len() == 0 {
        0
    } else {
        sum_counts(s.drop_last()) + s.last()
    }
}

/// A sum of counts is never negative.
pub proof fn lemma_sum_counts_nonneg(s: Seq<u8>)
    ensures
        sum_counts(s) >= 0,
    decreases s.len(),
{
    if s.len() > 0 {
        lemma_sum_counts_nonneg(s.drop_last());
    }
}

/// The Huffman tables of a payload. A table is a class and destination byte,
/// 16 code-length counts, and as many values as the counts add up to. Tables
/// are read while more than 17 bytes remain; a rest of 17 bytes or less is
/// dropped. `None` when a table's values run past the payload.
pub open spec fn dht_tables(q: Seq<u8>) -> Option<Seq<DhtView>>
    decreases q.len(),
{
    if q.len() <= 17 {
        Some(Seq::empty())
    } else {
        let n = sum_counts(q.subrange(1, 17));
        if 17 + n > q.len() {
            None
        } else {
            let t = DhtView {
                class: high_nibble(q[0]),
                dest: low_nibble(q[0]),
                code_lengths: q.subrange(1, 17),
                values: q.subrange(17, 17 + n),
            };
            proof {
                lemma_sum_counts_nonneg(q.subrange(1, 17));
            }
            match dht_tables(q.subrange(17 + n, q.len() as int)) {
                Some(rest) => Some(seq![t] + rest),
                None => None,
            }
        }
    }
}

/// The conditioning entries of a payload: one per whole 2 bytes.
pub open spec fn dac_params(q: Seq<u8>) -> Seq<DacParam> {
    Seq::new(
        q.len() / 2,
        |k: int|
            DacParam {
                class: high_nibble(q[2 * k]),
                dest: low_nibble(q[2 * k]),
                value: q[2 * k + 1],
            },
    )
}

/// The frame header of a payload; `None` when the payload is shorter than
/// the 6 fixed bytes and 3 bytes for each component. Bytes past the
/// components are ignored.
pub open spec fn frame_of(sof: u8, q: Seq<u8>) -> Option<FrameView> {
    if q.len() < 6 || q.len() < 6 + 3 * q[5] {
        None
    } else {
        Some(
            FrameView {
                sof,
                precision: q[0],
                dimension_y: be16(q[1], q[2]),
                dimension_x: be16(q[3], q[4]),
                components: Seq::new(
                    q[5] as nat,
                    |k: int|
                        FrameComponent {
                            id: q[6 + 3 * k],
                            horizontal_sampling_factor: high_nibble(q[7 + 3 * k]),
                            vertical_sampling_factor: low_nibble(q[7 + 3 * k]),
                            quantization_table: q[8 + 3 * k],
                        },
                ),
            },
        )
    }
}

/// Whether a payload is long enough for the scan header it announces: a count
/// byte, 2 bytes for each component and 3 closing bytes.
pub open spec fn scan_header_fits(q: Seq<u8>) -> bool {
    q.len() >= 1 && q.len() >= 1 + 2 * q[0] + 3
}

/// The scan header of a payload that fits, with the entropy-coded `data`.
pub open spec fn scan_of(q: Seq<u8>, data: Seq<u8>) -> ScanView {
    let n = q[0] as int;
    ScanView {
        components: Seq::new(
            n as nat,
            |k: int|
                ScanComponent {
                    id: q[1 + 2 * k],
                    dc_table: high_nibble(q[2 + 2 * k]),
                    ac_table: low_nibble(q[2 + 2 * k]),
                },
        ),
        selection_start: q[1 + 2 * n],
        selection_end: q[2 + 2 * n],
        approximation_low: high_nibble(q[3 + 2 * n]),
        approximation_high: low_nibble(q[3 + 2 * n]),
        data,
    }
}

/// The bytes `JFIF` and a zero.
pub open spec fn jfif_tag() -> Seq<u8> {
    seq![0x4Au8, 0x46u8, 0x49u8, 0x46u8, 0x00u8]
}

/// The JFIF header of an APP0 payload of 14 bytes or more.
pub open spec fn jfif_of(q: Seq<u8>) -> JfifView {
    JfifView {
        major: q[5],
        minor: q[6],
        unit: q[7],
        x_density: be16(q[8], q[9]),
        y_density: be16(q[10], q[11]),
        x_thumbnail: q[12],
        y_thumbnail: q[13],
        thumbnail: if q[12] > 0 && q[13] > 0 && q.len() > 14 {
            Some(q.subrange(14, q.len() as int))
        } else {
            None
        },
    }
}

/// The record of an application segment `nr`: a JFIF header where `nr` is 0
/// and the payload starts with the JFIF tag and holds 14 bytes or more, the
/// raw payload otherwise.
pub open spec fn app_of(nr: u8, q: Seq<u8>) -> KindView {
    if nr == 0 && q.len() >= 14 && q.subrange(0, 5) == jfif_tag() {
        KindView::App0Jfif(jfif_of(q))
    } else {
        KindView::App { nr, data: q }
    }
}

/// Whether a marker code starts a frame header.
pub open spec fn is_sof(m: u8) -> bool {
    0xC0 <= m <= 0xCF && m != 0xC4 && m != 0xC8 && m != 0xCC
}

/// Whether a marker code is a restart marker.
pub open spec fn is_rst(m: u8) -> bool {
    0xD0 <= m <= 0xD7
}

/// Whether a marker code is followed by a length field.
pub open spec fn has_length(m: u8) -> bool {
    m != 0x00 && m != 0xD9 && !is_rst(m)
}

/// The record of a length-prefixed segment with marker `m`, declared length
/// `len` and payload `q` that ends at index `e`: the record, the length
/// reported with it, the index after it and the marker that ended any
/// entropy-coded data.
pub open spec fn body_of(d: Seq<u8>, m: u8, len: int, q: Seq<u8>, e: int) -> Result<
    (KindView, int, Option<u8>),
    JfifError,
> {
    if 0xE0 <= m <= 0xEF {
        Ok((app_of((m - 0xE0) as u8, q), e, None))
    } else if m == 0xDB {
        Ok((KindView::Dqt(dqt_tables(q)), e, None))
    } else if m == 0xC4 {
        match dht_tables(q) {
            Some(t) => Ok((KindView::Dht(t), e, None)),
            None => Err(JfifError::InvalidDhtSegmentLength(len as usize)),
        }
    } else if m == 0xCC {
        Ok((KindView::Dac(dac_params(q)), e, None))
    } else if is_sof(m) {
        match frame_of(m, q) {
            Some(f) => Ok((KindView::Frame(f), e, None)),
            None => Err(JfifError::InvalidFrameSegmentLength(len as usize)),
        }
    } else if m == 0xDA {
        if !scan_header_fits(q) {
            Err(JfifError::InvalidScanHeaderLength(len as usize))
        } else {
            match entropy(d, e) {
                Ok((data, next, after)) => Ok((KindView::Scan(scan_of(q, data)), after, Some(next))),
                Err(x) => Err(x),
            }
        }
    } else if m == 0xDD {
        if q.len() < 2 {
            Err(JfifError::InvalidDriLength(len as usize))
        } else {
            Ok((KindView::Dri(be16(q[0], q[1])), e, None))
        }
    } else if m == 0xFE {
        Ok((KindView::Comment(q), e, None))
    } else {
        Ok((KindView::Unknown { marker: m, data: q }, e, None))
    }
}

/// The segment that marker `m` starts, its payload beginning at index `p`:
/// the record, the length reported with it, the index after it and the
/// marker that ended any entropy-coded data.
pub open spec fn segment_after(d: Seq<u8>, m: u8, p: int) -> Result<
    (KindView, int, int, Option<u8>),
    JfifError,
> {
    if m == 0x00 {
        Err(JfifError::InvalidMarker(0))
    } else if m == 0xD9 {
        Ok((KindView::Eoi, 0, p, None))
    } else if is_rst(m) {
        match entropy(d, p) {
            Ok((data, next, after)) => Ok(
                (KindView::Rst { nr: (m - 0xD0) as u8, data }, 0, after, Some(next)),
            ),
            Err(x) => Err(x),
        }
    } else if p + 2 > d.len() {
        Err(JfifError::UnexpectedEof)
    } else {
        let len = be16(d[p], d[p + 1]) as int;
        if len <= 2 {
            Err(JfifError::InvalidMarkerLength(len as usize))
        } else if p + len > d.len() {
            Err(JfifError::UnexpectedEof)
        } else {
            match body_of(d, m, len, d.subrange(p + 2, p + len), p + len) {
                Ok((k, after, next)) => Ok((k, len - 2, after, next)),
                Err(x) => Err(x),
            }
        }
    }
}

/// The marker that starts the next segment and the index after it: the
/// pending one, if any, or the next one found from `pos` on.
pub open spec fn next_marker(d: Seq<u8>, pos: int, pending: Option<u8>) -> Result<(u8, int), JfifError> {
    match pending {
        Some(m) => Ok((m, pos)),
        None => marker_from(d, pos, false),
    }
}

/// The next segment of stream `d` read from index `pos`, with `pending` the
/// marker that ended the previous segment's entropy-coded data, if any:
/// the record, its position and length, the index after it, and the marker
/// now pending.
pub open spec fn decode_next(d: Seq<u8>, pos: int, pending: Option<u8>) -> Result<
    (KindView, int, int, int, Option<u8>),
    JfifError,
> {
    match next_marker(d, pos, pending) {
        Err(x) => Err(x),
        Ok((m, p)) => match segment_after(d, m, p) {
            Err(x) => Err(x),
            Ok((k, len, after, next)) => Ok((k, p, len, after, next)),
        },
    }
}

/// A marker found from index `i` ends after it, within the stream, and at
/// least two bytes on where no `FF` had been seen.
pub proof fn lemma_marker_progress(d: Seq<u8>, i: int, in_ff: bool)
    ensures
        marker_from(d, i, in_ff) matches Ok((m, n)) ==> i < n <= d.len() && (!in_ff ==> n >= i
            + 2),
    decreases d.len() - i,
{
    if 0 <= i < d.len() {
        lemma_marker_progress(d, i + 1, false);
        lemma_marker_progress(d, i + 1, true);
    }
}

/// Entropy-coded data read from index `i` ends after it, within the stream.
pub proof fn lemma_entropy_progress(d: Seq<u8>, i: int, run: nat, acc: Seq<u8>)
    ensures
        entropy_from(d, i, run, acc) matches Ok((b, m, n)) ==> i < n <= d.len(),
    decreases d.len() - i,
{
    if 0 <= i < d.len() {
        if d[i] == 0xFF {
            lemma_entropy_progress(d, i + 1, run + 1, acc);
        } else if run == 0 {
            lemma_entropy_progress(d, i + 1, 0, acc.push(d[i]));
        } else if d[i] == 0 {
            lemma_entropy_progress(d, i + 1, 0, acc + fill(run) + seq![0u8]);
        }
    }
}

/// Where the next segment stands against the index it is read from: its
/// position is that index when a marker is pending and two bytes on at least
/// otherwise; it ends at or after its position, and after it when it leaves
/// a marker pending; and every segment but end of image ends after the
/// index it is read from.
pub proof fn lemma_decode_next_bounds(d: Seq<u8>, pos: int, pending: Option<u8>)
    requires
        0 <= pos <= d.len(),
    ensures
        decode_next(d, pos, pending) matches Ok((k, p, len, after, next)) ==> {
            &&& pos <= p <= after <= d.len()
            &&& (pending is Some ==> p == pos)
            &&& (pending is None ==> p >= pos + 2)
            &&& (next is Some ==> after > p)
            &&& (!(k is Eoi) ==> after > pos)
        },
{
    lemma_marker_progress(d, pos, false);
    if let Ok((m, p)) = next_marker(d, pos, pending) {
        lemma_entropy_progress(d, p, 0, Seq::empty());
        if p + 2 <= d.len() {
            lemma_entropy_progress(d, p + be16(d[p], d[p + 1]), 0, Seq::empty());
        }
    }
}

/// How reading stream `d` to its end from index `pos` with marker `pending`
/// turns out: success at an end-of-image segment or where the stream ends
/// cleanly between segments, else the first error.
pub open spec fn outcome_from(d: Seq<u8>, pos: int, pending: Option<u8>) -> Result<(), JfifError>
    decreases d.len() - pos,
{
    if pos < 0 || pos > d.len() {
        Err(JfifError::UnexpectedEof)
    } else {
        match decode_next(d, pos, pending) {
            Err(JfifError::EndOfStream) => Ok(()),
            Err(e) => Err(e),
            Ok((k, p, len, after, next)) => {
                if k is Eoi {
                    Ok(())
                } else {
                    proof {
                        lemma_decode_next_bounds(d, pos, pending);
                    }
                    outcome_from(d, after, next)
                }
            },
        }
    }
}

/// The records of the segments read from stream `d` from index `pos` with
/// marker `pending`, in stream order: up to and including an end-of-image
/// segment, up to the clean end of the stream, or up to the first error,
/// which adds no record.
pub open spec fn segments_from(d: Seq<u8>, pos: int, pending: Option<u8>) -> Seq<SegmentView>
    decreases d.len() - pos,
{
    if pos < 0 || pos > d.len() {
        Seq::empty()
    } else {
        match decode_next(d, pos, pending) {
            Err(e) => Seq::empty(),
            Ok((k, p, len, after, next)) => {
                let s = SegmentView { kind: k, position: p, length: len };
                if k is Eoi {
                    seq![s]
                } else {
                    proof {
                        lemma_decode_next_bounds(d, pos, pending);
                    }
                    seq![s] + segments_from(d, after, next)
                }
            },
        }
    }
}

} // verus!
