use vstd::prelude::*;

verus! {

/// The JFIF header carried by an APP0 segment.
#[derive(Debug, Clone, PartialEq, Eq)]
pub struct App0Jfif {
    pub major: u8,
    pub minor: u8,
    /// Density unit: 0 pixel, 1 dots per inch, 2 dots per cm.
    pub unit: u8,
    pub x_density: u16,
    pub y_density: u16,
    pub x_thumbnail: u8,
    pub y_thumbnail: u8,
    /// The raw thumbnail pixels, when both thumbnail dimensions are nonzero
    /// and the segment holds bytes past its fixed header.
    pub thumbnail: Option<Vec<u8>>,
}

/// One quantization table.
#[derive(Debug, Clone, PartialEq, Eq)]
pub struct Dqt {
    pub precision: u8,
    pub dest: u8,
    pub values: Box<[u8; 64]>,
}

/// One Huffman table.
#[derive(Debug, Clone, PartialEq, Eq)]
pub struct Dht {
    pub class: u8,
    pub dest: u8,
    /// The number of codes of each length from 1 to 16.
    pub code_lengths: [u8; 16],
    /// The symbol values; as many as the code lengths add up to.
    pub values: Vec<u8>,
}

/// One arithmetic-coding conditioning entry.
#[derive(Debug, Clone, Copy, PartialEq, Eq, Structural)]
pub struct DacParam {
    pub class: u8,
    pub dest: u8,
    pub value: u8,
}

/// The entries of an arithmetic-coding conditioning segment.
#[derive(Debug, Clone, PartialEq, Eq)]
pub struct Dac {
    pub params: Vec<DacParam>,
}

/// One component of a scan header.
#[derive(Debug, Clone, Copy, PartialEq, Eq, Structural)]
pub struct ScanComponent {
    pub id: u8,
    pub dc_table: u8,
    pub ac_table: u8,
}

/// A scan header together with the entropy-coded bytes that follow it.
#[derive(Debug, Clone, PartialEq, Eq)]
pub struct Scan {
    pub components: Vec<ScanComponent>,
    pub selection_start: u8,
    pub selection_end: u8,
    pub approximation_low: u8,
    pub approximation_high: u8,
    /// The entropy-coded bytes up to the next marker, stuffing included.
    pub data: Vec<u8>,
}

/// A restart marker and the entropy-coded bytes that follow it.
#[derive(Debug, Clone, PartialEq, Eq)]
pub struct Rst {
    /// The restart number, 0 to 7.
    pub nr: u8,
    pub data: Vec<u8>,
}

/// One component of a frame header.
#[derive(Debug, Clone, Copy, PartialEq, Eq, Structural)]
pub struct FrameComponent {
    pub id: u8,
    pub horizontal_sampling_factor: u8,
    pub vertical_sampling_factor: u8,
    pub quantization_table: u8,
}

/// A frame header (start of frame).
#[derive(Debug, Clone, PartialEq, Eq)]
pub struct Frame {
    /// The marker code, which names the coding process.
    pub sof: u8,
    pub precision: u8,
    pub dimension_y: u16,
    pub dimension_x: u16,
    pub components: Vec<FrameComponent>,
}

/// The record of one segment.
#[derive(Debug, Clone, PartialEq, Eq)]
pub enum SegmentKind {
    Eoi,
    App { nr: u8, data: Vec<u8> },
    App0Jfif(App0Jfif),
    Dqt(Vec<Dqt>),
    Dht(Vec<Dht>),
    Dac(Dac),
    Frame(Frame),
    Scan(Scan),
    Dri(u16),
    Rst(Rst),
    Comment(Vec<u8>),
    Unknown { marker: u8, data: Vec<u8> },
}

/// A segment record with where it stands in the stream.
#[derive(Debug, Clone, PartialEq, Eq)]
pub struct Segment {
    pub kind: SegmentKind,
    /// The offset of the first byte after the marker code.
    pub position: usize,
    /// The number of bytes that the length field declares, less the field itself;
    /// 0 for a segment without a length field.
    pub length: usize,
}

/// What an [`App0Jfif`] holds, as plain values.
pub struct JfifView {
    pub major: u8,
    pub minor: u8,
    pub unit: u8,
    pub x_density: u16,
    pub y_density: u16,
    pub x_thumbnail: u8,
    pub y_thumbnail: u8,
    pub thumbnail: Option<Seq<u8>>,
}

/// What a [`Dqt`] holds, as plain values.
pub struct DqtView {
    pub precision: u8,
    pub dest: u8,
    pub values: Seq<u8>,
}

/// What a [`Dht`] holds, as plain values.
pub struct DhtView {
    pub class: u8,
    pub dest: u8,
    pub code_lengths: Seq<u8>,
    pub values: Seq<u8>,
}

/// What a [`Frame`] holds, as plain values.
pub struct FrameView {
    pub sof: u8,
    pub precision: u8,
    pub dimension_y: u16,
    pub dimension_x: u16,
    pub components: Seq<FrameComponent>,
}

/// What a [`Scan`] holds, as plain values.
pub struct ScanView {
    pub components: Seq<ScanComponent>,
    pub selection_start: u8,
    pub selection_end: u8,
    pub approximation_low: u8,
    pub approximation_high: u8,
    pub data: Seq<u8>,
}

/// What a [`SegmentKind`] holds, as plain values.
pub enum KindView {
    Eoi,
    App { nr: u8, data: Seq<u8> },
    App0Jfif(JfifView),
    Dqt(Seq<DqtView>),
    Dht(Seq<DhtView>),
    Dac(Seq<DacParam>),
    Frame(FrameView),
    Scan(ScanView),
    Dri(u16),
    Rst { nr: u8, data: Seq<u8> },
    Comment(Seq<u8>),
    Unknown { marker: u8, data: Seq<u8> },
}

/// What a [`Segment`] holds, as plain values.
pub struct SegmentView {
    pub kind: KindView,
    pub position: int,
    pub length: int,
}

/// The name of the coding process that a frame marker code selects.
pub open spec fn sof_name(sof: u8) -> &'static str {
    if sof == 0xC0 {
        "Baseline DCT"
    } else if sof == 0xC1 {
        "Extended sequential DCT"
    } else if sof == 0xC2 {
        "Progressive DCT"
    } else if sof == 0xC3 {
        "Lossless"
    } else if sof == 0xC5 {
        "Differential sequential DCT"
    } else if sof == 0xC6 {
        "Differential progressiveDCT"
    } else if sof == 0xC7 {
        "Differential lossless"
    } else if sof == 0xC9 {
        "Extended sequential DCT arithmetic"
    } else if sof == 0xCA {
        "Progressive DCT arithmetic"
    } else if sof == 0xCB {
        "Lossless arithmetic coding"
    } else if sof == 0xCD {
        "Differential sequential DCT arithmetic"
    } else if sof == 0xCE {
        "Differential progressive DCT arithmetic"
    } else if sof == 0xCF {
        "Differential lossless arithmetic"
    } else {
        "Unknown"
    }
}

impl Frame {
    /// The name of the frame's coding process.
    pub fn get_sof_name(&self) -> (r: &'static str)
        ensures
            r == sof_name(self.sof),
    {
        match self.sof {
            0xC0 => "Baseline DCT",
            0xC1 => "Extended sequential DCT",
            0xC2 => "Progressive DCT",
            0xC3 => "Lossless",
            0xC5 => "Differential sequential DCT",
            0xC6 => "Differential progressiveDCT",
            0xC7 => "Differential lossless",
            0xC9 => "Extended sequential DCT arithmetic",
            0xCA => "Progressive DCT arithmetic",
            0xCB => "Lossless arithmetic coding",
            0xCD => "Differential sequential DCT arithmetic",
            0xCE => "Differential progressive DCT arithmetic",
            0xCF => "Differential lossless arithmetic",
            _ => "Unknown",
        }
    }
}

/// The views of a sequence of quantization tables.
pub open spec fn dqt_views(s: Seq<Dqt>) -> Seq<DqtView> {
    s.map_values(|x: Dqt| x@)
}

/// The views of a sequence of Huffman tables.
pub open spec fn dht_views(s: Seq<Dht>) -> Seq<DhtView> {
    s.map_values(|x: Dht| x@)
}

impl View for App0Jfif {
    type V = JfifView;

    open spec fn view(&self) -> JfifView {
        JfifView {
            major: self.major,
            minor: self.minor,
            unit: self.unit,
            x_density: self.x_density,
            y_density: self.y_density,
            x_thumbnail: self.x_thumbnail,
            y_thumbnail: self.y_thumbnail,
            thumbnail: match self.thumbnail {
                Some(t) => Some(t@),
                None => None,
            },
        }
    }
}

impl View for Dqt {
    type V = DqtView;

    open spec fn view(&self) -> DqtView {
        DqtView { precision: self.precision, dest: self.dest, values: self.values@ }
    }
}

impl View for Dht {
    type V = DhtView;

    open spec fn view(&self) -> DhtView {
        DhtView {
            class: self.class,
            dest: self.dest,
            code_lengths: self.code_lengths@,
            values: self.values@,
        }
    }
}

impl View for Frame {
    type V = FrameView;

    open spec fn view(&self) -> FrameView {
        FrameView {
            sof: self.sof,
            precision: self.precision,
            dimension_y: self.dimension_y,
            dimension_x: self.dimension_x,
            components: self.components@,
        }
    }
}

impl View for Scan {
    type V = ScanView;

    open spec fn view(&self) -> ScanView {
        ScanView {
            components: self.components@,
            selection_start: self.selection_start,
            selection_end: self.selection_end,
            approximation_low: self.approximation_low,
            approximation_high: self.approximation_high,
            data: self.data@,
        }
    }
}

impl View for SegmentKind {
    type V = KindView;

    open spec fn view(&self) -> KindView {
        match self {
            SegmentKind::Eoi => KindView::Eoi,
            SegmentKind::App { nr, data } => KindView::App { nr: *nr, data: data@ },
            SegmentKind::App0Jfif(j) => KindView::App0Jfif(j@),
            SegmentKind::Dqt(t) => KindView::Dqt(dqt_views(t@)),
            SegmentKind::Dht(t) => KindView::Dht(dht_views(t@)),
            SegmentKind::Dac(d) => KindView::Dac(d.params@),
            SegmentKind::Frame(f) => KindView::Frame(f@),
            SegmentKind::Scan(s) => KindView::Scan(s@),
            SegmentKind::Dri(r) => KindView::Dri(*r),
            SegmentKind::Rst(r) => KindView::Rst { nr: r.nr, data: r.data@ },
            SegmentKind::Comment(c) => KindView::Comment(c@),
            SegmentKind::Unknown { marker, data } => KindView::Unknown {
                marker: *marker,
                data: data@,
            },
        }
    }
}

impl View for Segment {
    type V = SegmentView;

    open spec fn view(&self) -> SegmentView {
        SegmentView {
            kind: self.kind@,
            position: self.position as int,
            length: self.length as int,
        }
    }
}

} // verus!
