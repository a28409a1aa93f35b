//! The segment reader.
use vstd::prelude::*;

use crate::error::JfifError;
use crate::format::{
    app_of, be16, dac_params, decode_next, dht_tables, dqt_at, dqt_tables, entropy, entropy_from,
    fill, frame_of, high_nibble, jfif_tag, low_nibble, marker_from, scan_header_fits, scan_of,
    sum_counts,
};
use crate::segment::{
    dht_views, dqt_views, App0Jfif, Dac, DacParam, Dht, DhtView, Dqt, Frame, FrameComponent, Rst,
    Scan, ScanComponent, Segment, SegmentKind, SegmentView,
};

verus! {

/// Whether a stream begins with the start-of-image marker `FF D8`.
pub open spec fn starts_with_soi(d: Seq<u8>) -> bool {
    d.len() >= 2 && d[0] == 0xFF && d[1] == 0xD8
}

/// The bytes of `v` from index `from` up to `to`.
fn copy_range(v: &Vec<u8>, from: usize, to: usize) -> (r: Vec<u8>)
    requires
        from <= to <= v.len(),
    ensures
        r@ == v@.subrange(from as int, to as int),
{
    let mut r: Vec<u8> = Vec::new();
    let mut i: usize = from;
    while i < to
        invariant
            from <= i <= to <= v.len(),
            r@ == v@.subrange(from as int, i as int),
        decreases to - i,
    {
        r.push(v[i]);
        i = i + 1;
        assert(r@ =~= v@.subrange(from as int, i as int));
    }
    r
}

/// A reader for JFIF streams. It owns the stream's bytes, a cursor into
/// them, and at most one marker code that ended entropy-coded data and was
/// not yet handed out.
pub struct Reader {
    data: Vec<u8>,
    pos: usize,
    current_marker: Option<u8>,
}

impl Reader {
    /// The bytes of the stream.
    pub closed spec fn bytes(&self) -> Seq<u8> {
        self.data@
    }

    /// The index of the next byte to read.
    pub closed spec fn pos(&self) -> int {
        self.pos as int
    }

    /// The marker code read at the end of entropy-coded data and not yet used.
    pub closed spec fn pending(&self) -> Option<u8> {
        self.current_marker
    }

    /// The cursor lies within the stream.
    pub open spec fn wf(&self) -> bool {
        0 <= self.pos() <= self.bytes().len()
    }

    /// Creates a reader over a stream, which must begin with `FF D8`.
    pub fn new(data: Vec<u8>) -> (r: Result<Reader, JfifError>)
        ensures
            r is Ok <==> starts_with_soi(data@),
            r matches Ok(rd) ==> {
                &&& rd.wf()
                &&& rd.bytes() == data@
                &&& rd.pos() == 2
                &&& rd.pending() is None
            },
            r matches Err(e) ==> e == JfifError::JfifMarkerNotFound,
    {
        if data.len() < 2 || data[0] != 0xFF || data[1] != 0xD8 {
            return Err(JfifError::JfifMarkerNotFound);
        }
        Ok(Reader { data, pos: 2, current_marker: None })
    }

    /// The offset of the next byte to read.
    pub fn position(&self) -> (r: usize)
        ensures
            r == self.pos(),
    {
        self.pos
    }

    /// Reads the next segment, as `decode_next` states: the record, where
    /// it stands, and the state the reader is left in. After an error the
    /// reader is of no further use.
    pub fn next_segment(&mut self) -> (r: Result<Segment, JfifError>)
        requires
            old(self).wf(),
        ensures
            final(self).wf(),
            final(self).bytes() == old(self).bytes(),
            match decode_next(old(self).bytes(), old(self).pos(), old(self).pending()) {
                Ok((k, p, len, after, next)) => r matches Ok(s) && s@ == (SegmentView {
                    kind: k,
                    position: p,
                    length: len,
                }) && final(self).pos() == after && final(self).pending() == next,
                Err(e) => r matches Err(x) && x == e,
            },
    {
        let marker = match self.current_marker {
            Some(m) => {
                self.current_marker = None;
                m
            },
            None => match self.read_marker() {
                Ok(m) => m,
                Err(e) => {
                    return Err(e);
                },
            },
        };
        let position = self.pos;
        if marker == 0x00 {
            return Err(JfifError::InvalidMarker(0x00));
        }
        if marker == 0xD9 {
            return Ok(Segment { kind: SegmentKind::Eoi, position, length: 0 });
        }
        if 0xD0 <= marker && marker <= 0xD7 {
            return match self.read_rst(marker - 0xD0) {
                Ok(rst) => Ok(Segment { kind: SegmentKind::Rst(rst), position, length: 0 }),
                Err(e) => Err(e),
            };
        }
        let length = match self.read_length() {
            Ok(length) => length,
            Err(e) => {
                return Err(e);
            },
        };
        let kind = if 0xE0 <= marker && marker <= 0xEF {
            self.read_app_segment(marker - 0xE0, length)
        } else if marker == 0xDB {
            SegmentKind::Dqt(self.read_dqt(length))
        } else if marker == 0xC4 {
            match self.read_dht(length) {
                Ok(tables) => SegmentKind::Dht(tables),
                Err(e) => {
                    return Err(e);
                },
            }
        } else if marker == 0xCC {
            SegmentKind::Dac(self.read_dac(length))
        } else if 0xC0 <= marker && marker <= 0xCF && marker != 0xC8 {
            match self.read_frame(marker, length) {
                Ok(frame) => SegmentKind::Frame(frame),
                Err(e) => {
                    return Err(e);
                },
            }
        } else if marker == 0xDA {
            match self.read_scan(length) {
                Ok(scan) => SegmentKind::Scan(scan),
                Err(e) => {
                    return Err(e);
                },
            }
        } else if marker == 0xDD {
            match self.read_dri(length) {
                Ok(restart) => SegmentKind::Dri(restart),
                Err(e) => {
                    return Err(e);
                },
            }
        } else if marker == 0xFE {
            SegmentKind::Comment(self.read_to_vec(length))
        } else {
            SegmentKind::Unknown { marker, data: self.read_to_vec(length) }
        };
        Ok(Segment { kind, position, length })
    }

    fn read_u8(&mut self) -> (r: u8)
        requires
            old(self).pos < old(self).data.len(),
        ensures
            r == old(self).data@[old(self).pos as int],
            final(self).pos == old(self).pos + 1,
            final(self).data == old(self).data,
            final(self).current_marker == old(self).current_marker,
    {
        let b = self.data[self.pos];
        self.pos = self.pos + 1;
        b
    }

    fn read_u4_tuple(&mut self) -> (r: (u8, u8))
        requires
            old(self).pos < old(self).data.len(),
        ensures
            r.0 == high_nibble(old(self).data@[old(self).pos as int]),
            r.1 == low_nibble(old(self).data@[old(self).pos as int]),
            final(self).pos == old(self).pos + 1,
            final(self).data == old(self).data,
            final(self).current_marker == old(self).current_marker,
    {
        let v = self.read_u8();
        (v / 16, v % 16)
    }

    fn read_u16(&mut self) -> (r: u16)
        requires
            old(self).pos + 2 <= old(self).data.len(),
        ensures
            r == be16(
                old(self).data@[old(self).pos as int],
                old(self).data@[old(self).pos + 1],
            ),
            final(self).pos == old(self).pos + 2,
            final(self).data == old(self).data,
            final(self).current_marker == old(self).current_marker,
    {
        let hi = self.read_u8();
        let lo = self.read_u8();
        hi as u16 * 256 + lo as u16
    }

    fn read_to_vec(&mut self, length: usize) -> (r: Vec<u8>)
        requires
            old(self).pos + length <= old(self).data.len(),
        ensures
            r@ == old(self).data@.subrange(old(self).pos as int, old(self).pos + length),
            final(self).pos == old(self).pos + length,
            final(self).data == old(self).data,
            final(self).current_marker == old(self).current_marker,
    {
        let r = copy_range(&self.data, self.pos, self.pos + length);
        self.pos = self.pos + length;
        r
    }

    fn skip(&mut self, length: usize)
        requires
            old(self).pos + length <= old(self).data.len(),
        ensures
            final(self).pos == old(self).pos + length,
            final(self).data == old(self).data,
            final(self).current_marker == old(self).current_marker,
    {
        self.pos = self.pos + length;
    }

    /// Looks for the next marker as `marker_from` states.
    fn read_marker(&mut self) -> (r: Result<u8, JfifError>)
        requires
            old(self).wf(),
        ensures
            final(self).wf(),
            final(self).data == old(self).data,
            final(self).current_marker == old(self).current_marker,
            match marker_from(old(self).data@, old(self).pos as int, false) {
                Ok((m, n)) => r == Ok::<u8, JfifError>(m) && final(self).pos == n,
                Err(e) => r == Err::<u8, JfifError>(e),
            },
    {
        let mut in_ff = false;
        loop
            invariant
                self.wf(),
                self.data == old(self).data,
                self.current_marker == old(self).current_marker,
                marker_from(self.data@, old(self).pos as int, false) == marker_from(
                    self.data@,
                    self.pos as int,
                    in_ff,
                ),
            decreases self.data.len() - self.pos,
        {
            if self.pos >= self.data.len() {
                if in_ff {
                    return Err(JfifError::UnexpectedEof);
                } else {
                    return Err(JfifError::EndOfStream);
                }
            }
            let b = self.read_u8();
            if b == 0xFF {
                in_ff = true;
            } else if in_ff {
                return Ok(b);
            }
        }
    }

    /// Reads entropy-coded bytes up to the next marker as `entropy` states,
    /// and keeps that marker for the next segment.
    fn read_scan_data(&mut self) -> (r: Result<Vec<u8>, JfifError>)
        requires
            old(self).wf(),
        ensures
            final(self).wf(),
            final(self).data == old(self).data,
            match entropy(old(self).data@, old(self).pos as int) {
                Ok((bytes, m, n)) => r matches Ok(v) && v@ == bytes && final(self).pos == n
                    && final(self).current_marker == Some(m),
                Err(e) => r matches Err(x) && x == e,
            },
    {
        let ghost d = self.data@;
        let ghost start = self.pos as int;
        let mut data: Vec<u8> = Vec::new();
        let mut ff_count: usize = 0;
        loop
            invariant
                self.wf(),
                self.data@ == d,
                self.data == old(self).data,
                start == old(self).pos,
                start <= self.pos,
                ff_count <= self.pos - start,
                entropy(d, start) == entropy_from(d, self.pos as int, ff_count as nat, data@),
            decreases self.data.len() - self.pos,
        {
            if self.pos >= self.data.len() {
                return Err(JfifError::UnexpectedEof);
            }
            let byte = self.read_u8();
            if byte == 0xFF {
                ff_count = ff_count + 1;
            } else if ff_count == 0 {
                data.push(byte);
            } else if byte == 0x00 {
                let ghost before = data@;
                let mut k: usize = 0;
                while k < ff_count
                    invariant
                        k <= ff_count,
                        data@ == before + fill(k as nat),
                    decreases ff_count - k,
                {
                    data.push(0xFF);
                    k = k + 1;
                    assert(data@ =~= before + fill(k as nat));
                }
                data.push(byte);
                assert(data@ =~= before + fill(ff_count as nat) + seq![0u8]);
                ff_count = 0;
            } else {
                self.current_marker = Some(byte);
                return Ok(data);
            }
        }
    }

    /// Reads a length field. Gives the number of payload bytes it declares,
    /// less the field itself, once it is known that the stream holds them.
    fn read_length(&mut self) -> (r: Result<usize, JfifError>)
        requires
            old(self).wf(),
        ensures
            final(self).wf(),
            final(self).data == old(self).data,
            final(self).current_marker == old(self).current_marker,
            ({
                let d = old(self).data@;
                let p = old(self).pos as int;
                if p + 2 > d.len() {
                    r == Err::<usize, JfifError>(JfifError::UnexpectedEof)
                } else {
                    let len = be16(d[p], d[p + 1]) as int;
                    if len <= 2 {
                        r == Err::<usize, JfifError>(JfifError::InvalidMarkerLength(len as usize))
                    } else if p + len > d.len() {
                        r == Err::<usize, JfifError>(JfifError::UnexpectedEof)
                    } else {
                        r == Ok::<usize, JfifError>((len - 2) as usize) && final(self).pos == p + 2
                    }
                }
            }),
    {
        if self.data.len() - self.pos < 2 {
            return Err(JfifError::UnexpectedEof);
        }
        let length = self.read_u16() as usize;
        if length <= 2 {
            return Err(JfifError::InvalidMarkerLength(length));
        }
        if self.data.len() - self.pos < length - 2 {
            return Err(JfifError::UnexpectedEof);
        }
        Ok(length - 2)
    }

    /// Reads an application segment's payload of `length` bytes.
    fn read_app_segment(&mut self, nr: u8, length: usize) -> (r: SegmentKind)
        requires
            old(self).pos + length <= old(self).data.len(),
        ensures
            r@ == app_of(
                nr,
                old(self).data@.subrange(old(self).pos as int, old(self).pos + length),
            ),
            final(self).pos == old(self).pos + length,
            final(self).data == old(self).data,
            final(self).current_marker == old(self).current_marker,
    {
        let data = self.read_to_vec(length);
        if nr == 0 && data.len() >= 14 && data[0] == 0x4A && data[1] == 0x46 && data[2] == 0x49
            && data[3] == 0x46 && data[4] == 0x00 {
            assert(data@.subrange(0, 5) =~= jfif_tag());
            let major = data[5];
            let minor = data[6];
            let unit = data[7];
            let x_density = data[8] as u16 * 256 + data[9] as u16;
            let y_density = data[10] as u16 * 256 + data[11] as u16;
            let x_thumbnail = data[12];
            let y_thumbnail = data[13];
            let thumbnail = if x_thumbnail > 0 && y_thumbnail > 0 && data.len() > 14 {
                Some(copy_range(&data, 14, data.len()))
            } else {
                None
            };
            return SegmentKind::App0Jfif(
                App0Jfif {
                    major,
                    minor,
                    unit,
                    x_density,
                    y_density,
                    x_thumbnail,
                    y_thumbnail,
                    thumbnail,
                },
            );
        }
        proof {
            if nr == 0 && data@.len() >= 14 && data@.subrange(0, 5) == jfif_tag() {
                assert(data@[0] == data@.subrange(0, 5)[0]);
                assert(data@[1] == data@.subrange(0, 5)[1]);
                assert(data@[2] == data@.subrange(0, 5)[2]);
                assert(data@[3] == data@.subrange(0, 5)[3]);
                assert(data@[4] == data@.subrange(0, 5)[4]);
            }
        }
        SegmentKind::App { nr, data }
    }

    /// Reads a quantization-table payload of `length` bytes.
    fn read_dqt(&mut self, length: usize) -> (r: Vec<Dqt>)
        requires
            old(self).pos + length <= old(self).data.len(),
        ensures
            dqt_views(r@) == dqt_tables(
                old(self).data@.subrange(old(self).pos as int, old(self).pos + length),
            ),
            final(self).pos == old(self).pos + length,
            final(self).data == old(self).data,
            final(self).current_marker == old(self).current_marker,
    {
        let ghost start = self.pos as int;
        let ghost q = self.data@.subrange(start, start + length);
        let mut tables: Vec<Dqt> = Vec::new();
        let mut remaining: usize = length;
        while remaining >= 65
            invariant
                remaining <= length,
                start == old(self).pos,
                start + length <= self.data.len(),
                self.pos == start + (length - remaining),
                self.data == old(self).data,
                self.current_marker == old(self).current_marker,
                q == self.data@.subrange(start, start + length),
                length - remaining == 65 * tables@.len(),
                forall|j: int| 0 <= j < tables@.len() ==> #[trigger] tables@[j]@ == dqt_at(q, 65 * j),
            decreases remaining,
        {
            let ghost k = tables@.len() as int;
            let (precision, dest) = self.read_u4_tuple();
            let mut values = [0u8; 64];
            let mut i: usize = 0;
            while i < 64
                invariant
                    i <= 64,
                    self.pos == start + 65 * k + 1 + i,
                    start + 65 * k + 65 <= self.data.len(),
                    self.data == old(self).data,
                    self.current_marker == old(self).current_marker,
                    forall|j: int| 0 <= j < i ==> values@[j] == #[trigger] self.data@[start + 65 * k + 1 + j],
                decreases 64 - i,
            {
                let b = self.read_u8();
                values[i] = b;
                i = i + 1;
            }
            assert(65 * k + 65 <= length);
            assert forall|j: int| 0 <= j < 64 implies values@[j] == q.subrange(
                65 * k + 1,
                65 * k + 65,
            )[j] by {
                assert(values@[j] == self.data@[start + 65 * k + 1 + j]);
            }
            assert(values@ =~= q.subrange(65 * k + 1, 65 * k + 65));
            tables.push(Dqt { precision, dest, values: Box::new(values) });
            remaining = remaining - 65;
        }
        self.skip(remaining);
        proof {
            let n = tables@.len() as int;
            assert(q.len() / 65 == n) by (nonlinear_arith)
                requires
                    q.len() == 65 * n + remaining,
                    remaining < 65,
                    0 <= remaining,
            ;
            assert(dqt_views(tables@) =~= dqt_tables(q));
        }
        tables
    }

    /// Reads a conditioning payload of `length` bytes.
    fn read_dac(&mut self, length: usize) -> (r: Dac)
        requires
            old(self).pos + length <= old(self).data.len(),
        ensures
            r.params@ == dac_params(
                old(self).data@.subrange(old(self).pos as int, old(self).pos + length),
            ),
            final(self).pos == old(self).pos + length,
            final(self).data == old(self).data,
            final(self).current_marker == old(self).current_marker,
    {
        let ghost start = self.pos as int;
        let ghost q = self.data@.subrange(start, start + length);
        let mut params: Vec<DacParam> = Vec::new();
        let mut remaining: usize = length;
        while remaining >= 2
            invariant
                remaining <= length,
                start == old(self).pos,
                start + length <= self.data.len(),
                self.pos == start + (length - remaining),
                self.data == old(self).data,
                self.current_marker == old(self).current_marker,
                q == self.data@.subrange(start, start + length),
                length - remaining == 2 * params@.len(),
                forall|j: int|
                    0 <= j < params@.len() ==> #[trigger] params@[j] == (DacParam {
                        class: high_nibble(q[2 * j]),
                        dest: low_nibble(q[2 * j]),
                        value: q[2 * j + 1],
                    }),
            decreases remaining,
        {
            let (class, dest) = self.read_u4_tuple();
            let value = self.read_u8();
            params.push(DacParam { class, dest, value });
            remaining = remaining - 2;
        }
        self.skip(remaining);
        proof {
            let n = params@.len() as int;
            assert(q.len() / 2 == n) by (nonlinear_arith)
                requires
                    q.len() == 2 * n + remaining,
                    remaining < 2,
                    0 <= remaining,
            ;
            assert(params@ =~= dac_params(q));
        }
        Dac { params }
    }

    /// Reads a restart-interval payload of `length` bytes.
    fn read_dri(&mut self, length: usize) -> (r: Result<u16, JfifError>)
        requires
            old(self).pos + length <= old(self).data.len(),
            length + 2 <= usize::MAX,
        ensures
            final(self).wf(),
            ({
                let q = old(self).data@.subrange(old(self).pos as int, old(self).pos + length);
                if q.len() < 2 {
                    r == Err::<u16, JfifError>(JfifError::InvalidDriLength((length + 2) as usize))
                } else {
                    r == Ok::<u16, JfifError>(be16(q[0], q[1])) && final(self).pos == old(self).pos
                        + length
                }
            }),
            final(self).data == old(self).data,
            final(self).current_marker == old(self).current_marker,
    {
        if length < 2 {
            return Err(JfifError::InvalidDriLength(length + 2));
        }
        let restart = self.read_u16();
        self.skip(length - 2);
        Ok(restart)
    }


    /// Reads the 16 code-length counts of a Huffman table and adds them up.
    fn read_counts(&mut self) -> (r: ([u8; 16], usize))
        requires
            old(self).pos + 16 <= old(self).data.len(),
        ensures
            r.0@ == old(self).data@.subrange(old(self).pos as int, old(self).pos + 16),
            r.1 == sum_counts(r.0@),
            final(self).pos == old(self).pos + 16,
            final(self).data == old(self).data,
            final(self).current_marker == old(self).current_marker,
    {
        let ghost start = self.pos as int;
        let ghost d = self.data@;
        let mut counts = [0u8; 16];
        let mut total: usize = 0;
        let mut i: usize = 0;
        while i < 16
            invariant
                i <= 16,
                start == old(self).pos,
                d == old(self).data@,
                start + 16 <= d.len(),
                self.pos == start + i,
                self.data == old(self).data,
                self.current_marker == old(self).current_marker,
                forall|j: int| 0 <= j < i ==> counts@[j] == #[trigger] d[start + j],
                total == sum_counts(d.subrange(start, start + i)),
                total <= 255 * i,
            decreases 16 - i,
        {
            let b = self.read_u8();
            counts[i] = b;
            assert(d.subrange(start, start + i + 1).drop_last() =~= d.subrange(start, start + i));
            total = total + b as usize;
            i = i + 1;
        }
        assert forall|j: int| 0 <= j < 16 implies counts@[j] == d.subrange(start, start + 16)[j] by {
            assert(counts@[j] == d[start + j]);
        }
        assert(counts@ =~= d.subrange(start, start + 16));
        (counts, total)
    }

    /// Reads a Huffman-table payload of `length` bytes.
    fn read_dht(&mut self, length: usize) -> (r: Result<Vec<Dht>, JfifError>)
        requires
            old(self).pos + length <= old(self).data.len(),
            length + 2 <= usize::MAX,
        ensures
            final(self).wf(),
            final(self).data == old(self).data,
            final(self).current_marker == old(self).current_marker,
            match dht_tables(old(self).data@.subrange(old(self).pos as int, old(self).pos + length)) {
                Some(t) => r matches Ok(v) && dht_views(v@) == t && final(self).pos == old(self).pos
                    + length,
                None => r matches Err(e) && e == JfifError::InvalidDhtSegmentLength(
                    (length + 2) as usize,
                ),
            },
    {
        let ghost start = self.pos as int;
        let ghost q = self.data@.subrange(start, start + length);
        let mut tables: Vec<Dht> = Vec::new();
        let mut remaining: usize = length;
        proof {
            assert(q.subrange(0, length as int) =~= q);
            assert(dht_views(tables@) =~= Seq::<DhtView>::empty());
            if let Some(rest) = dht_tables(q) {
                assert(dht_views(tables@) + rest =~= rest);
            }
        }
        while remaining > 17
            invariant
                remaining <= length,
                length + 2 <= usize::MAX,
                start == old(self).pos,
                start + length <= self.data.len(),
                self.pos == start + (length - remaining),
                self.data == old(self).data,
                self.current_marker == old(self).current_marker,
                q == self.data@.subrange(start, start + length),
                dht_tables(q) == match dht_tables(q.subrange(length - remaining, length as int)) {
                    Some(rest) => Some(dht_views(tables@) + rest),
                    None => None::<Seq<DhtView>>,
                },
            decreases remaining,
        {
            let ghost off = (length - remaining) as int;
            let ghost t = q.subrange(off, length as int);
            let (class, dest) = self.read_u4_tuple();
            let (code_lengths, num_codes) = self.read_counts();
            assert(code_lengths@ =~= t.subrange(1, 17));
            if num_codes > remaining - 17 {
                return Err(JfifError::InvalidDhtSegmentLength(length + 2));
            }
            let values = self.read_to_vec(num_codes);
            assert(values@ =~= t.subrange(17, 17 + num_codes));
            let ghost before = tables@;
            tables.push(Dht { class, dest, code_lengths, values });
            assert(t.subrange(17 + num_codes, t.len() as int) =~= q.subrange(
                off + 17 + num_codes,
                length as int,
            ));
            assert(dht_views(tables@) =~= dht_views(before) + seq![tables@.last()@]);
            remaining = remaining - 17 - num_codes;
            proof {
                match dht_tables(q.subrange(length - remaining, length as int)) {
                    Some(rest) => {
                        assert(dht_views(tables@) + rest =~= dht_views(before) + (seq![
                            tables@.last()@,
                        ] + rest));
                    },
                    None => {},
                }
            }
        }
        self.skip(remaining);
        proof {
            assert(dht_views(tables@) + Seq::<DhtView>::empty() =~= dht_views(tables@));
        }
        Ok(tables)
    }

    /// Reads a frame-header payload of `length` bytes.
    fn read_frame(&mut self, sof: u8, length: usize) -> (r: Result<Frame, JfifError>)
        requires
            old(self).pos + length <= old(self).data.len(),
            length + 2 <= usize::MAX,
        ensures
            final(self).wf(),
            final(self).data == old(self).data,
            final(self).current_marker == old(self).current_marker,
            match frame_of(sof, old(self).data@.subrange(old(self).pos as int, old(self).pos + length)) {
                Some(f) => r matches Ok(x) && x@ == f && final(self).pos == old(self).pos + length,
                None => r matches Err(e) && e == JfifError::InvalidFrameSegmentLength(
                    (length + 2) as usize,
                ),
            },
    {
        let ghost start = self.pos as int;
        let ghost q = self.data@.subrange(start, start + length);
        if length < 6 {
            return Err(JfifError::InvalidFrameSegmentLength(length + 2));
        }
        let precision = self.read_u8();
        let dimension_y = self.read_u16();
        let dimension_x = self.read_u16();
        let num_components = self.read_u8();
        if length - 6 < num_components as usize * 3 {
            return Err(JfifError::InvalidFrameSegmentLength(length + 2));
        }
        let mut components: Vec<FrameComponent> = Vec::new();
        let mut k: u8 = 0;
        while k < num_components
            invariant
                k <= num_components,
                num_components == q[5],
                6 + 3 * num_components <= length,
                start == old(self).pos,
                start + length <= self.data.len(),
                self.pos == start + 6 + 3 * k,
                self.data == old(self).data,
                self.current_marker == old(self).current_marker,
                q == self.data@.subrange(start, start + length),
                components@.len() == k,
                forall|j: int|
                    0 <= j < k ==> #[trigger] components@[j] == (FrameComponent {
                        id: q[6 + 3 * j],
                        horizontal_sampling_factor: high_nibble(q[7 + 3 * j]),
                        vertical_sampling_factor: low_nibble(q[7 + 3 * j]),
                        quantization_table: q[8 + 3 * j],
                    }),
            decreases num_components - k,
        {
            let id = self.read_u8();
            let (horizontal_sampling_factor, vertical_sampling_factor) = self.read_u4_tuple();
            let quantization_table = self.read_u8();
            components.push(
                FrameComponent {
                    id,
                    horizontal_sampling_factor,
                    vertical_sampling_factor,
                    quantization_table,
                },
            );
            k = k + 1;
        }
        self.skip(length - 6 - num_components as usize * 3);
        let frame = Frame { sof, precision, dimension_y, dimension_x, components };
        proof {
            let f = frame_of(sof, q).unwrap();
            assert(frame@.components =~= f.components);
        }
        Ok(frame)
    }

    /// Reads a scan header of `length` bytes and the entropy-coded data after it.
    fn read_scan(&mut self, length: usize) -> (r: Result<Scan, JfifError>)
        requires
            old(self).wf(),
            old(self).pos + length <= old(self).data.len(),
            length + 2 <= usize::MAX,
        ensures
            final(self).wf(),
            final(self).data == old(self).data,
            ({
                let q = old(self).data@.subrange(old(self).pos as int, old(self).pos + length);
                if !scan_header_fits(q) {
                    r matches Err(e) && e == JfifError::InvalidScanHeaderLength((length + 2) as usize)
                } else {
                    match entropy(old(self).data@, old(self).pos + length) {
                        Ok((data, m, n)) => r matches Ok(s) && s@ == scan_of(q, data)
                            && final(self).pos == n && final(self).current_marker == Some(m),
                        Err(e) => r matches Err(x) && x == e,
                    }
                }
            }),
    {
        let ghost start = self.pos as int;
        let ghost q = self.data@.subrange(start, start + length);
        if length < 1 {
            return Err(JfifError::InvalidScanHeaderLength(length + 2));
        }
        let num_components = self.read_u8();
        if length - 1 < num_components as usize * 2 + 3 {
            return Err(JfifError::InvalidScanHeaderLength(length + 2));
        }
        let mut components: Vec<ScanComponent> = Vec::new();
        let mut k: u8 = 0;
        while k < num_components
            invariant
                k <= num_components,
                num_components == q[0],
                1 + 2 * num_components + 3 <= length,
                start == old(self).pos,
                start + length <= self.data.len(),
                self.pos == start + 1 + 2 * k,
                self.data == old(self).data,
                q == self.data@.subrange(start, start + length),
                components@.len() == k,
                forall|j: int|
                    0 <= j < k ==> #[trigger] components@[j] == (ScanComponent {
                        id: q[1 + 2 * j],
                        dc_table: high_nibble(q[2 + 2 * j]),
                        ac_table: low_nibble(q[2 + 2 * j]),
                    }),
            decreases num_components - k,
        {
            let id = self.read_u8();
            let (dc_table, ac_table) = self.read_u4_tuple();
            components.push(ScanComponent { id, dc_table, ac_table });
            k = k + 1;
        }
        let selection_start = self.read_u8();
        let selection_end = self.read_u8();
        let (approximation_low, approximation_high) = self.read_u4_tuple();
        self.skip(length - 1 - num_components as usize * 2 - 3);
        let data = match self.read_scan_data() {
            Ok(data) => data,
            Err(e) => {
                return Err(e);
            },
        };
        let scan = Scan {
            components,
            selection_start,
            selection_end,
            approximation_low,
            approximation_high,
            data,
        };
        proof {
            assert(scan@.components =~= scan_of(q, data@).components);
        }
        Ok(scan)
    }

    /// Reads the entropy-coded data after restart marker `nr`.
    fn read_rst(&mut self, nr: u8) -> (r: Result<Rst, JfifError>)
        requires
            old(self).wf(),
        ensures
            final(self).wf(),
            final(self).data == old(self).data,
            match entropy(old(self).data@, old(self).pos as int) {
                Ok((bytes, m, n)) => r matches Ok(x) && x.nr == nr && x.data@ == bytes
                    && final(self).pos == n && final(self).current_marker == Some(m),
                Err(e) => r matches Err(x) && x == e,
            },
    {
        match self.read_scan_data() {
            Ok(data) => Ok(Rst { nr, data }),
            Err(e) => Err(e),
        }
    }

}

} // verus!
