use vstd::prelude::*;

use crate::segment::{
    dht_views, dqt_views, App0Jfif, Dac, Dht, Dqt, Frame, KindView, Rst, Scan, SegmentView,
};

verus! {

/// The record of a segment of kind `kind` at `position` with `length`.
pub open spec fn record(kind: KindView, position: usize, length: usize) -> SegmentView {
    SegmentView { kind, position: position as int, length: length as int }
}

/// Receives the segments of a stream, one call for each, in stream order.
/// Each call gives the segment's position and length as [`crate::Segment`]
/// holds them. `received` is the sequence of segment records handed over so
/// far; each call adds its own record at the end.
pub trait Handler {
    /// The segment records received so far, in the order of the calls.
    spec fn received(&self) -> Seq<SegmentView>;

    fn handle_app(&mut self, position: usize, length: usize, nr: u8, data: &[u8])
        ensures
            final(self).received() == old(self).received().push(
                record(KindView::App { nr, data: data@ }, position, length),
            ),
    ;

    fn handle_app0_jfif(&mut self, position: usize, length: usize, jfif: &App0Jfif)
        ensures
            final(self).received() == old(self).received().push(
                record(KindView::App0Jfif(jfif@), position, length),
            ),
    ;

    fn handle_dqt(&mut self, position: usize, length: usize, tables: &[Dqt])
        ensures
            final(self).received() == old(self).received().push(
                record(KindView::Dqt(dqt_views(tables@)), position, length),
            ),
    ;

    fn handle_dht(&mut self, position: usize, length: usize, tables: &[Dht])
        ensures
            final(self).received() == old(self).received().push(
                record(KindView::Dht(dht_views(tables@)), position, length),
            ),
    ;

    fn handle_dac(&mut self, position: usize, length: usize, dac: &Dac)
        ensures
            final(self).received() == old(self).received().push(
                record(KindView::Dac(dac.params@), position, length),
            ),
    ;

    fn handle_frame(&mut self, position: usize, length: usize, frame: &Frame)
        ensures
            final(self).received() == old(self).received().push(
                record(KindView::Frame(frame@), position, length),
            ),
    ;

    fn handle_scan(&mut self, position: usize, length: usize, scan: &Scan)
        ensures
            final(self).received() == old(self).received().push(
                record(KindView::Scan(scan@), position, length),
            ),
    ;

    fn handle_dri(&mut self, position: usize, length: usize, restart: u16)
        ensures
            final(self).received() == old(self).received().push(
                record(KindView::Dri(restart), position, length),
            ),
    ;

    fn handle_rst(&mut self, position: usize, length: usize, restart: &Rst)
        ensures
            final(self).received() == old(self).received().push(
                record(KindView::Rst { nr: restart.nr, data: restart.data@ }, position, length),
            ),
    ;

    fn handle_comment(&mut self, position: usize, length: usize, data: &[u8])
        ensures
            final(self).received() == old(self).received().push(
                record(KindView::Comment(data@), position, length),
            ),
    ;

    fn handle_unknown(&mut self, position: usize, length: usize, marker: u8, data: &[u8])
        ensures
            final(self).received() == old(self).received().push(
                record(KindView::Unknown { marker, data: data@ }, position, length),
            ),
    ;

    fn handle_eoi(&mut self, position: usize, length: usize)
        ensures
            final(self).received() == old(self).received().push(
                record(KindView::Eoi, position, length),
            ),
    ;
}

} // verus!
