//! Properties of the stream layout that hold for every input.
use vstd::prelude::*;

use crate::error::JfifError;
use crate::format::{
    be16, decode_next, dht_tables, has_length, high_nibble, lemma_decode_next_bounds,
    low_nibble, next_marker, sum_counts,
};
use crate::segment::{DhtView, KindView};

verus! {

/// A segment whose marker takes a length field, and whose length field reads
/// 0, 1 or 2, is refused with `InvalidMarkerLength` carrying that value.
pub proof fn lemma_short_length_refused(d: Seq<u8>, pos: int, pending: Option<u8>)
    requires
        next_marker(d, pos, pending) matches Ok((m, p)) && has_length(m) && 0 <= p && p + 2
            <= d.len() && be16(d[p], d[p + 1]) <= 2,
    ensures
        ({
            let p = next_marker(d, pos, pending)->Ok_0.1;
            decode_next(d, pos, pending) == Err::<(KindView, int, int, int, Option<u8>), JfifError>(
                JfifError::InvalidMarkerLength(be16(d[p], d[p + 1]) as usize),
            )
        }),
{
}

/// Of two segments read one after the other, the second stands after the
/// first.
pub proof fn lemma_positions_increase(d: Seq<u8>, pos: int, pending: Option<u8>)
    requires
        0 <= pos <= d.len(),
        decode_next(d, pos, pending) is Ok,
    ensures
        ({
            let (k1, p1, len1, after1, next1) = decode_next(d, pos, pending)->Ok_0;
            decode_next(d, after1, next1) matches Ok((k2, p2, len2, after2, next2)) ==> p2 > p1
        }),
{
    lemma_decode_next_bounds(d, pos, pending);
    let (k1, p1, len1, after1, next1) = decode_next(d, pos, pending)->Ok_0;
    lemma_decode_next_bounds(d, after1, next1);
}

/// A Huffman-table payload made of one table (a class and destination byte,
/// 16 code-length counts and as many values as they add up to) and a rest of
/// 17 bytes or less holds that one table; the rest is dropped. Tables are
/// read only while more than 17 bytes remain, so a table with no values and
/// no rest after it is not read.
pub proof fn lemma_dht_single_table(head: Seq<u8>, values: Seq<u8>, rest: Seq<u8>)
    requires
        head.len() == 17,
        values.len() == sum_counts(head.subrange(1, 17)),
        rest.len() <= 17,
        values.len() + rest.len() > 0,
    ensures
        dht_tables(head + values + rest) == Some(
            seq![
                DhtView {
                    class: high_nibble(head[0]),
                    dest: low_nibble(head[0]),
                    code_lengths: head.subrange(1, 17),
                    values,
                },
            ],
        ),
{
    let q = head + values + rest;
    let n = values.len() as int;
    assert(q.subrange(1, 17) =~= head.subrange(1, 17));
    assert(q.subrange(17, 17 + n) =~= values);
    assert(q.subrange(17 + n, q.len() as int) =~= rest);
    assert(q[0] == head[0]);
    assert(dht_tables(rest) == Some(Seq::<DhtView>::empty()));
    let t = DhtView {
        class: high_nibble(head[0]),
        dest: low_nibble(head[0]),
        code_lengths: head.subrange(1, 17),
        values,
    };
    assert(seq![t] + Seq::<DhtView>::empty() =~= seq![t]);
}

/// A Huffman-table segment whose payload is one table and a rest of 17
/// bytes or less reads as that one table: the segment stands after its
/// marker, reports its declared length less 2, and is consumed whole. As
/// above, a table with no values and no rest after it is not read.
pub proof fn lemma_dht_segment(
    d: Seq<u8>,
    pos: int,
    pending: Option<u8>,
    head: Seq<u8>,
    values: Seq<u8>,
    rest: Seq<u8>,
)
    requires
        next_marker(d, pos, pending) matches Ok((m, p)) && m == 0xC4 && 0 <= p && p + 2 <= d.len(),
        head.len() == 17,
        values.len() == sum_counts(head.subrange(1, 17)),
        rest.len() <= 17,
        values.len() + rest.len() > 0,
        ({
            let p = next_marker(d, pos, pending)->Ok_0.1;
            let len = be16(d[p], d[p + 1]) as int;
            &&& len == 2 + head.len() + values.len() + rest.len()
            &&& p + len <= d.len()
            &&& d.subrange(p + 2, p + len) == head + values + rest
        }),
    ensures
        ({
            let p = next_marker(d, pos, pending)->Ok_0.1;
            let len = be16(d[p], d[p + 1]) as int;
            let t = DhtView {
                class: high_nibble(head[0]),
                dest: low_nibble(head[0]),
                code_lengths: head.subrange(1, 17),
                values,
            };
            decode_next(d, pos, pending) == Ok::<(KindView, int, int, int, Option<u8>), JfifError>(
                (KindView::Dht(seq![t]), p, len - 2, p + len, None),
            )
        }),
{
    lemma_dht_single_table(head, values, rest);
}

} // verus!
