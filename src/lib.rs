//! Reads the marker segments of a JPEG/JFIF byte stream without decoding
//! the image data.
//!
//! A [`Reader`] walks the stream one segment at a time and hands back a typed
//! record for each; [`read`] drives a reader to the end and passes every
//! record to a [`Handler`]. [`TextFormat`] and [`JsonFormat`] are handlers
//! that render the records as lines of text and as a JSON document.
//!
//! The layout of a stream is stated over its bytes in [`format`]; the
//! reader's contracts say that it decodes exactly that layout.

use vstd::prelude::*;

use format::{lemma_decode_next_bounds, outcome_from, segments_from};

mod error;
pub mod format;
mod handler;
mod json_format;
mod laws;
mod reader;
mod segment;
mod text;

pub use error::JfifError;
pub use handler::{record, Handler};
pub use json_format::{JsonFormat, JsonNode};
pub use laws::{
    lemma_dht_segment, lemma_dht_single_table, lemma_positions_increase, lemma_short_length_refused,
};
pub use reader::{starts_with_soi, Reader};
pub use segment::{
    App0Jfif, Dac, DacParam, Dht, DhtView, Dqt, DqtView, Frame, FrameComponent, FrameView,
    JfifView, KindView, Rst, Scan, ScanComponent, ScanView, Segment, SegmentKind, SegmentView,
    sof_name,
};
pub use text::{dec, escaped, escaped_all, get_marker_string, hex, hex_digit, prefix, TextFormat};

verus! {

/// How reading stream `d` to its end turns out: `JfifMarkerNotFound` unless
/// it begins with `FF D8`; else success at an end-of-image segment or where
/// the stream ends cleanly between segments, or the first error.
pub open spec fn stream_outcome(d: Seq<u8>) -> Result<(), JfifError> {
    if starts_with_soi(d) {
        outcome_from(d, 2, None)
    } else {
        Err(JfifError::JfifMarkerNotFound)
    }
}

/// The records of the segments of stream `d`, in stream order: none unless
/// it begins with `FF D8`; else up to and including an end-of-image segment,
/// up to the clean end of the stream, or up to the first error.
pub open spec fn segments(d: Seq<u8>) -> Seq<SegmentView> {
    if starts_with_soi(d) {
        segments_from(d, 2, None)
    } else {
        Seq::empty()
    }
}

/// Reads a JFIF stream and calls `handler` once for each segment, in stream
/// order, up to an end-of-image segment, the clean end of the stream, or the
/// first error.
pub fn read<H: Handler>(input: Vec<u8>, handler: &mut H) -> (r: Result<(), JfifError>)
    ensures
        r == stream_outcome(input@),
        final(handler).received() == old(handler).received() + segments(input@),
{
    let ghost d = input@;
    let mut reader = match Reader::new(input) {
        Ok(reader) => reader,
        Err(e) => {
            assert(old(handler).received() + segments(d) =~= old(handler).received());
            return Err(e);
        },
    };
    loop
        invariant
            reader.wf(),
            reader.bytes() == d,
            d == input@,
            starts_with_soi(d),
            stream_outcome(d) == outcome_from(d, reader.pos(), reader.pending()),
            old(handler).received() + segments(d) == handler.received() + segments_from(
                d,
                reader.pos(),
                reader.pending(),
            ),
        decreases d.len() - reader.pos(),
    {
        proof {
            lemma_decode_next_bounds(d, reader.pos(), reader.pending());
        }
        let ghost pos = reader.pos();
        let ghost pending = reader.pending();
        let ghost before = handler.received();
        let segment = match reader.next_segment() {
            Ok(segment) => segment,
            Err(JfifError::EndOfStream) => {
                assert(before + segments_from(d, pos, pending) =~= before);
                return Ok(());
            },
            Err(e) => {
                assert(before + segments_from(d, pos, pending) =~= before);
                return Err(e);
            },
        };
        let ghost v = segment@;
        let ghost rest = segments_from(d, reader.pos(), reader.pending());
        let position = segment.position;
        let length = segment.length;
        match segment.kind {
            SegmentKind::Eoi => {
                handler.handle_eoi(position, length);
                assert(handler.received() =~= before + segments_from(d, pos, pending));
                return Ok(());
            },
            SegmentKind::App { nr, data } => handler.handle_app(position, length, nr, data.as_slice()),
            SegmentKind::App0Jfif(jfif) => handler.handle_app0_jfif(position, length, &jfif),
            SegmentKind::Dqt(tables) => handler.handle_dqt(position, length, tables.as_slice()),
            SegmentKind::Dht(tables) => handler.handle_dht(position, length, tables.as_slice()),
            SegmentKind::Dac(dac) => handler.handle_dac(position, length, &dac),
            SegmentKind::Frame(frame) => handler.handle_frame(position, length, &frame),
            SegmentKind::Scan(scan) => handler.handle_scan(position, length, &scan),
            SegmentKind::Dri(restart) => handler.handle_dri(position, length, restart),
            SegmentKind::Rst(rst) => handler.handle_rst(position, length, &rst),
            SegmentKind::Comment(data) => handler.handle_comment(position, length, data.as_slice()),
            SegmentKind::Unknown { marker, data } => handler.handle_unknown(
                position,
                length,
                marker,
                data.as_slice(),
            ),
        }
        assert(handler.received() == before.push(v));
        assert(before + (seq![v] + rest) =~= handler.received() + rest);
    }
}

} // verus!
