use vstd::prelude::*;

verus! {

/// The ways in which reading a JFIF stream can fail.
#[derive(Debug, Clone, Copy, PartialEq, Eq, Structural)]
pub enum JfifError {
    /// The stream does not begin with the start-of-image marker `FF D8`.
    JfifMarkerNotFound,
    /// A marker code of `00` stands where a marker was expected.
    InvalidMarker(u8),
    /// A segment declares a length of 2 or less; the value is the declared length.
    InvalidMarkerLength(usize),
    /// A Huffman table runs past the end of its segment; the value is the declared length.
    InvalidDhtSegmentLength(usize),
    /// A quantization-table segment does not fit its layout. The reader drops a
    /// trailing remainder instead of failing, so it does not produce this.
    InvalidDqtSegmentLength(usize),
    /// A frame header is shorter than its components need; the value is the declared length.
    InvalidFrameSegmentLength(usize),
    /// A restart-interval segment has no room for its value; the value is the declared length.
    InvalidDriLength(usize),
    /// A scan header is shorter than its components need; the value is the declared length.
    InvalidScanHeaderLength(usize),
    /// The stream ends inside a segment.
    UnexpectedEof,
    /// The stream ends where the next marker was to be looked for.
    EndOfStream,
}

} // verus!
