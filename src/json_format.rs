//! A JSON document of the segments: one object for each segment, in stream
//! order. The document is a plain tree of numbers, strings, arrays and
//! objects whose keys keep their order.
use vstd::prelude::*;
use vstd::utf8::{decode_utf8, valid_utf8};

use crate::handler::{record, Handler};
use crate::segment::{
    dht_views, dqt_views, sof_name, App0Jfif, Dac, DacParam, Dht, Dqt, Frame, FrameComponent,
    KindView, Rst, Scan, ScanComponent, SegmentView,
};
use crate::text::{
    dec, escaped_all, get_marker_string, hex, push_dec, push_hex, push_str, utf8_text,
};

verus! {

/// A JSON value.
#[derive(Debug)]
pub enum JsonNode {
    Number(u64),
    Text(String),
    Array(Vec<JsonNode>),
    Object(Vec<(String, JsonNode)>),
}

/// `n` is the number `v`.
pub open spec fn is_num(n: JsonNode, v: int) -> bool {
    n matches JsonNode::Number(x) && x as int == v
}

/// `n` is the string `s`.
pub open spec fn is_text(n: JsonNode, s: Seq<char>) -> bool {
    n matches JsonNode::Text(t) && t@ == s
}

/// `n` is an array of the numbers in `b`.
pub open spec fn is_bytes(n: JsonNode, b: Seq<u8>) -> bool {
    n matches JsonNode::Array(items) && items@.len() == b.len() && forall|i: int|
        0 <= i < b.len() ==> is_num(#[trigger] items@[i], b[i] as int)
}

/// The items of an array; empty for any other value.
pub open spec fn items_of(n: JsonNode) -> Seq<JsonNode> {
    match n {
        JsonNode::Array(items) => items@,
        _ => Seq::empty(),
    }
}

/// The fields of an object; empty for any other value.
pub open spec fn fields_of(n: JsonNode) -> Seq<(String, JsonNode)> {
    match n {
        JsonNode::Object(fields) => fields@,
        _ => Seq::empty(),
    }
}

/// `n` is an object with exactly these keys, in this order.
pub open spec fn has_keys(n: JsonNode, keys: Seq<Seq<char>>) -> bool {
    &&& n is Object
    &&& fields_of(n).len() == keys.len()
    &&& forall|i: int| 0 <= i < keys.len() ==> (#[trigger] fields_of(n)[i]).0@ == keys[i]
}

/// The value of the `i`-th field of an object.
pub open spec fn field(n: JsonNode, i: int) -> JsonNode {
    fields_of(n)[i].1
}

/// `n` starts with the position and marker fields that every segment object has.
pub open spec fn starts_segment(n: JsonNode, position: usize, marker: Seq<char>) -> bool {
    is_num(field(n, 0), position as int) && is_text(field(n, 1), marker)
}

/// The object of an application segment.
pub open spec fn app_json(n: JsonNode, verbose: bool, position: usize, nr: u8, data: Seq<u8>) -> bool {
    &&& has_keys(
        n,
        if verbose {
            seq!["position"@, "marker"@, "start"@, "data"@]
        } else {
            seq!["position"@, "marker"@, "start"@]
        },
    )
    &&& starts_segment(n, position, "App(0x"@ + hex(nr as nat) + ")"@)
    &&& is_text(
        field(n, 2),
        escaped_all(data.take(if data.len() < 20 { data.len() as int } else { 20 })),
    )
    &&& verbose ==> is_bytes(field(n, 3), data)
}

/// The name of a density unit.
pub open spec fn unit_name(unit: u8) -> Seq<char> {
    if unit == 0 {
        "pixel"@
    } else if unit == 1 {
        "dpi"@
    } else if unit == 2 {
        "dpcm"@
    } else {
        "unknown "@ + dec(unit as nat)
    }
}

/// The object of a JFIF header.
pub open spec fn jfif_json(n: JsonNode, verbose: bool, position: usize, j: App0Jfif) -> bool {
    let with_data = verbose && j.thumbnail is Some;
    let density = field(n, 2);
    let thumbnail = field(n, 3);
    &&& has_keys(n, seq!["position"@, "marker"@, "density"@, "thumbnail"@])
    &&& starts_segment(n, position, "App(0x0):JFIF"@)
    &&& has_keys(density, seq!["unit"@, "x"@, "y"@])
    &&& is_text(field(density, 0), unit_name(j.unit))
    &&& is_num(field(density, 1), j.x_density as int)
    &&& is_num(field(density, 2), j.y_density as int)
    &&& has_keys(
        thumbnail,
        if with_data {
            seq!["width"@, "height"@, "data"@]
        } else {
            seq!["width"@, "height"@]
        },
    )
    &&& is_num(field(thumbnail, 0), j.x_thumbnail as int)
    &&& is_num(field(thumbnail, 1), j.y_thumbnail as int)
    &&& with_data ==> is_bytes(field(thumbnail, 2), j.thumbnail->0@)
}

/// The object of one quantization table.
pub open spec fn dqt_table_json(n: JsonNode, verbose: bool, t: Dqt) -> bool {
    &&& has_keys(
        n,
        if verbose {
            seq!["dest"@, "precision"@, "data"@]
        } else {
            seq!["dest"@, "precision"@]
        },
    )
    &&& is_num(field(n, 0), t.dest as int)
    &&& is_num(field(n, 1), t.precision as int)
    &&& verbose ==> is_bytes(field(n, 2), t.values@)
}

/// The object of a quantization-table segment.
pub open spec fn dqt_json(n: JsonNode, verbose: bool, position: usize, tables: Seq<Dqt>) -> bool {
    let items = items_of(field(n, 2));
    &&& has_keys(n, seq!["position"@, "marker"@, "tables"@])
    &&& starts_segment(n, position, "DQT"@)
    &&& field(n, 2) is Array
    &&& items.len() == tables.len()
    &&& forall|i: int| 0 <= i < tables.len() ==> dqt_table_json(#[trigger] items[i], verbose, tables[i])
}

/// The object of one Huffman table.
pub open spec fn dht_table_json(n: JsonNode, verbose: bool, t: Dht) -> bool {
    &&& has_keys(
        n,
        if verbose {
            seq!["class"@, "dest"@, "code_lengths"@, "values"@]
        } else {
            seq!["class"@, "dest"@]
        },
    )
    &&& is_num(field(n, 0), t.class as int)
    &&& is_num(field(n, 1), t.dest as int)
    &&& verbose ==> is_bytes(field(n, 2), t.code_lengths@) && is_bytes(field(n, 3), t.values@)
}

/// The object of a Huffman-table segment.
pub open spec fn dht_json(n: JsonNode, verbose: bool, position: usize, tables: Seq<Dht>) -> bool {
    let items = items_of(field(n, 2));
    &&& has_keys(n, seq!["position"@, "marker"@, "tables"@])
    &&& starts_segment(n, position, "DHT"@)
    &&& field(n, 2) is Array
    &&& items.len() == tables.len()
    &&& forall|i: int| 0 <= i < tables.len() ==> dht_table_json(#[trigger] items[i], verbose, tables[i])
}

/// The object of one conditioning entry.
pub open spec fn dac_param_json(n: JsonNode, p: DacParam) -> bool {
    &&& has_keys(n, seq!["class"@, "dest"@, "param"@])
    &&& is_num(field(n, 0), p.class as int)
    &&& is_num(field(n, 1), p.dest as int)
    &&& is_num(field(n, 2), p.value as int)
}

/// The object of a conditioning segment.
pub open spec fn dac_json(n: JsonNode, position: usize, params: Seq<DacParam>) -> bool {
    let items = items_of(field(n, 2));
    &&& has_keys(n, seq!["position"@, "marker"@, "params"@])
    &&& starts_segment(n, position, "DAC"@)
    &&& field(n, 2) is Array
    &&& items.len() == params.len()
    &&& forall|i: int| 0 <= i < params.len() ==> dac_param_json(#[trigger] items[i], params[i])
}

/// The object of one frame component.
pub open spec fn frame_component_json(n: JsonNode, c: FrameComponent) -> bool {
    let sampling = field(n, 1);
    &&& has_keys(n, seq!["id"@, "sampling_facor"@, "quantization_table"@])
    &&& is_num(field(n, 0), c.id as int)
    &&& has_keys(sampling, seq!["horizontal"@, "vertical"@])
    &&& is_num(field(sampling, 0), c.horizontal_sampling_factor as int)
    &&& is_num(field(sampling, 1), c.vertical_sampling_factor as int)
    &&& is_num(field(n, 2), c.quantization_table as int)
}

/// The object of a frame header.
pub open spec fn frame_json(n: JsonNode, position: usize, f: Frame) -> bool {
    let dimension = field(n, 4);
    let items = items_of(field(n, 5));
    &&& has_keys(
        n,
        seq!["position"@, "marker"@, "type"@, "precision"@, "dimension"@, "components"@],
    )
    &&& starts_segment(n, position, "SOF"@)
    &&& is_text(field(n, 2), sof_name(f.sof)@)
    &&& is_num(field(n, 3), f.precision as int)
    &&& has_keys(dimension, seq!["width"@, "height"@])
    &&& is_num(field(dimension, 0), f.dimension_x as int)
    &&& is_num(field(dimension, 1), f.dimension_y as int)
    &&& field(n, 5) is Array
    &&& items.len() == f.components@.len()
    &&& forall|i: int|
        0 <= i < f.components@.len() ==> frame_component_json(#[trigger] items[i], f.components@[i])
}

/// The object of one scan component.
pub open spec fn scan_component_json(n: JsonNode, c: ScanComponent) -> bool {
    &&& has_keys(n, seq!["id"@, "dc_table"@, "ac_table"@])
    &&& is_num(field(n, 0), c.id as int)
    &&& is_num(field(n, 1), c.dc_table as int)
    &&& is_num(field(n, 2), c.ac_table as int)
}

/// The object of a scan.
pub open spec fn scan_json(n: JsonNode, verbose: bool, position: usize, s: Scan) -> bool {
    let items = items_of(field(n, 2));
    let selection = field(n, 3);
    let approximation = field(n, 4);
    &&& has_keys(
        n,
        if verbose {
            seq![
                "position"@,
                "marker"@,
                "components"@,
                "selection"@,
                "approximation"@,
                "size"@,
                "data"@,
            ]
        } else {
            seq!["position"@, "marker"@, "components"@, "selection"@, "approximation"@, "size"@]
        },
    )
    &&& starts_segment(n, position, "SOS"@)
    &&& field(n, 2) is Array
    &&& items.len() == s.components@.len()
    &&& forall|i: int|
        0 <= i < s.components@.len() ==> scan_component_json(#[trigger] items[i], s.components@[i])
    &&& has_keys(selection, seq!["start"@, "end"@])
    &&& is_num(field(selection, 0), s.selection_start as int)
    &&& is_num(field(selection, 1), s.selection_end as int)
    &&& has_keys(approximation, seq!["low"@, "high"@])
    &&& is_num(field(approximation, 0), s.approximation_low as int)
    &&& is_num(field(approximation, 1), s.approximation_high as int)
    &&& is_num(field(n, 5), s.data@.len() as int)
    &&& verbose ==> is_bytes(field(n, 6), s.data@)
}

/// The object of a restart-interval segment.
pub open spec fn dri_json(n: JsonNode, position: usize, restart: u16) -> bool {
    &&& has_keys(n, seq!["position"@, "marker"@, "restart"@])
    &&& starts_segment(n, position, "DRI"@)
    &&& is_num(field(n, 2), restart as int)
}

/// The object of a restart marker.
pub open spec fn rst_json(n: JsonNode, verbose: bool, position: usize, r: Rst) -> bool {
    &&& has_keys(
        n,
        if verbose {
            seq!["position"@, "marker"@, "size"@, "data"@]
        } else {
            seq!["position"@, "marker"@, "size"@]
        },
    )
    &&& starts_segment(n, position, "RST("@ + dec(r.nr as nat) + ")"@)
    &&& is_num(field(n, 2), r.data@.len() as int)
    &&& verbose ==> is_bytes(field(n, 3), r.data@)
}

/// The object of a comment: its text where it is valid UTF-8, its raw bytes
/// otherwise.
pub open spec fn comment_json(n: JsonNode, position: usize, data: Seq<u8>) -> bool {
    &&& has_keys(
        n,
        if valid_utf8(data) {
            seq!["position"@, "marker"@, "text"@]
        } else {
            seq!["position"@, "marker"@, "raw"@]
        },
    )
    &&& starts_segment(n, position, "COM"@)
    &&& if valid_utf8(data) {
        is_text(field(n, 2), decode_utf8(data))
    } else {
        is_bytes(field(n, 2), data)
    }
}

/// The object of a segment of unknown kind.
pub open spec fn unknown_json(n: JsonNode, verbose: bool, position: usize, marker: u8, data: Seq<u8>) -> bool {
    &&& has_keys(
        n,
        if verbose {
            seq!["position"@, "marker"@, "size"@, "data"@]
        } else {
            seq!["position"@, "marker"@, "size"@]
        },
    )
    &&& starts_segment(n, position, "Marker(0x"@ + hex(marker as nat) + ")"@)
    &&& is_num(field(n, 2), data.len() as int)
    &&& verbose ==> is_bytes(field(n, 3), data)
}

/// The object of the end of the image.
pub open spec fn eoi_json(n: JsonNode, position: usize) -> bool {
    &&& has_keys(n, seq!["position"@, "marker"@])
    &&& starts_segment(n, position, "EOI"@)
}

/// `after` is `before` with one more object at its end.
pub open spec fn one_more(after: Seq<JsonNode>, before: Seq<JsonNode>) -> bool {
    after.len() == before.len() + 1 && after.drop_last() == before
}

/// A string with the characters of `s`.
fn text_of(s: &str) -> (r: String)
    ensures
        r@ == s@,
{
    String::from_str(s)
}

/// An array of the numbers in `b`.
fn bytes_node(b: &[u8]) -> (r: JsonNode)
    ensures
        is_bytes(r, b@),
{
    let mut items: Vec<JsonNode> = Vec::new();
    let mut i: usize = 0;
    while i < b.len()
        invariant
            i <= b@.len(),
            items@.len() == i,
            forall|j: int| 0 <= j < i ==> is_num(#[trigger] items@[j], b@[j] as int),
        decreases b@.len() - i,
    {
        items.push(JsonNode::Number(b[i] as u64));
        i = i + 1;
    }
    JsonNode::Array(items)
}

/// Appends the field `key: value` to an object's fields.
fn push_field(fields: &mut Vec<(String, JsonNode)>, key: &str, value: JsonNode)
    ensures
        final(fields)@.len() == old(fields)@.len() + 1,
        forall|i: int| 0 <= i < old(fields)@.len() ==> #[trigger] final(fields)@[i] == old(fields)@[i],
        final(fields)@.last().0@ == key@,
        final(fields)@.last().1 == value,
{
    fields.push((text_of(key), value));
}

/// The first two fields of a segment object: its position and marker.
fn segment_fields(position: usize, marker: String) -> (r: Vec<(String, JsonNode)>)
    ensures
        r@.len() == 2,
        r@[0].0@ == "position"@,
        is_num(r@[0].1, position as int),
        r@[1].0@ == "marker"@,
        is_text(r@[1].1, marker@),
{
    let mut fields: Vec<(String, JsonNode)> = Vec::new();
    push_field(&mut fields, "position", JsonNode::Number(position as u64));
    push_field(&mut fields, "marker", JsonNode::Text(marker));
    fields
}

/// A string of the characters of `head`, the hexadecimal digits of `n`, and
/// the characters of `tail`.
fn hex_label(head: &str, n: u8, tail: &str) -> (r: String)
    ensures
        r@ == head@ + hex(n as nat) + tail@,
{
    let mut s = String::new();
    push_str(&mut s, head);
    push_hex(&mut s, n as usize);
    push_str(&mut s, tail);
    assert(s@ =~= head@ + hex(n as nat) + tail@);
    s
}

/// The object of one quantization table.
fn dqt_table_node(t: &Dqt, verbose: bool) -> (r: JsonNode)
    ensures
        dqt_table_json(r, verbose, *t),
{
    let mut fields: Vec<(String, JsonNode)> = Vec::new();
    push_field(&mut fields, "dest", JsonNode::Number(t.dest as u64));
    push_field(&mut fields, "precision", JsonNode::Number(t.precision as u64));
    if verbose {
        let values: &[u8; 64] = &t.values;
        push_field(&mut fields, "data", bytes_node(values.as_slice()));
    }
    JsonNode::Object(fields)
}

/// The object of one Huffman table.
fn dht_table_node(t: &Dht, verbose: bool) -> (r: JsonNode)
    ensures
        dht_table_json(r, verbose, *t),
{
    let mut fields: Vec<(String, JsonNode)> = Vec::new();
    push_field(&mut fields, "class", JsonNode::Number(t.class as u64));
    push_field(&mut fields, "dest", JsonNode::Number(t.dest as u64));
    if verbose {
        push_field(&mut fields, "code_lengths", bytes_node(t.code_lengths.as_slice()));
        push_field(&mut fields, "values", bytes_node(t.values.as_slice()));
    }
    JsonNode::Object(fields)
}

/// The object of one conditioning entry.
fn dac_param_node(p: DacParam) -> (r: JsonNode)
    ensures
        dac_param_json(r, p),
{
    let mut fields: Vec<(String, JsonNode)> = Vec::new();
    push_field(&mut fields, "class", JsonNode::Number(p.class as u64));
    push_field(&mut fields, "dest", JsonNode::Number(p.dest as u64));
    push_field(&mut fields, "param", JsonNode::Number(p.value as u64));
    JsonNode::Object(fields)
}

/// The object of one frame component.
fn frame_component_node(c: FrameComponent) -> (r: JsonNode)
    ensures
        frame_component_json(r, c),
{
    let mut sampling: Vec<(String, JsonNode)> = Vec::new();
    push_field(&mut sampling, "horizontal", JsonNode::Number(c.horizontal_sampling_factor as u64));
    push_field(&mut sampling, "vertical", JsonNode::Number(c.vertical_sampling_factor as u64));
    let mut fields: Vec<(String, JsonNode)> = Vec::new();
    push_field(&mut fields, "id", JsonNode::Number(c.id as u64));
    push_field(&mut fields, "sampling_facor", JsonNode::Object(sampling));
    push_field(&mut fields, "quantization_table", JsonNode::Number(c.quantization_table as u64));
    JsonNode::Object(fields)
}

/// The object of one scan component.
fn scan_component_node(c: ScanComponent) -> (r: JsonNode)
    ensures
        scan_component_json(r, c),
{
    let mut fields: Vec<(String, JsonNode)> = Vec::new();
    push_field(&mut fields, "id", JsonNode::Number(c.id as u64));
    push_field(&mut fields, "dc_table", JsonNode::Number(c.dc_table as u64));
    push_field(&mut fields, "ac_table", JsonNode::Number(c.ac_table as u64));
    JsonNode::Object(fields)
}

/// An object of two numbers.
fn pair_node(k0: &str, v0: u64, k1: &str, v1: u64) -> (r: JsonNode)
    ensures
        has_keys(r, seq![k0@, k1@]),
        is_num(field(r, 0), v0 as int),
        is_num(field(r, 1), v1 as int),
{
    let mut fields: Vec<(String, JsonNode)> = Vec::new();
    push_field(&mut fields, k0, JsonNode::Number(v0));
    push_field(&mut fields, k1, JsonNode::Number(v1));
    JsonNode::Object(fields)
}

/// Collects one JSON object for each segment it is handed.
pub struct JsonFormat {
    markers: Vec<JsonNode>,
    verbose: bool,
    received: Ghost<Seq<SegmentView>>,
}

impl JsonFormat {
    /// The objects collected so far.
    pub closed spec fn objects(&self) -> Seq<JsonNode> {
        self.markers@
    }

    /// Whether raw bytes are included.
    pub closed spec fn is_verbose(&self) -> bool {
        self.verbose
    }

    /// A document with no objects yet.
    pub fn new(verbose: bool) -> (r: JsonFormat)
        ensures
            r.is_verbose() == verbose,
            r.objects() == Seq::<JsonNode>::empty(),
            r.received() == Seq::<SegmentView>::empty(),
    {
        JsonFormat { markers: Vec::new(), verbose, received: Ghost(Seq::empty()) }
    }

    /// The objects collected so far, in the order of their segments.
    pub fn markers(&self) -> (r: &Vec<JsonNode>)
        ensures
            r@ == self.objects(),
    {
        &self.markers
    }

    fn add(&mut self, value: JsonNode)
        ensures
            final(self).verbose == old(self).verbose,
            final(self).received == old(self).received,
            one_more(final(self).markers@, old(self).markers@),
            final(self).markers@.last() == value,
    {
        self.markers.push(value);
        assert(self.markers@.drop_last() =~= old(self).markers@);
    }
}


impl Handler for JsonFormat {
    closed spec fn received(&self) -> Seq<SegmentView> {
        self.received@
    }

    fn handle_app(&mut self, position: usize, length: usize, nr: u8, data: &[u8])
        ensures
            final(self).is_verbose() == old(self).is_verbose(),
            one_more(final(self).objects(), old(self).objects()),
            app_json(final(self).objects().last(), old(self).is_verbose(), position, nr, data@),
    {
        let mut fields = segment_fields(position, hex_label("App(0x", nr, ")"));
        push_field(&mut fields, "start", JsonNode::Text(get_marker_string(data, 20)));
        if self.verbose {
            push_field(&mut fields, "data", bytes_node(data));
        }
        self.add(JsonNode::Object(fields));
        self.received = Ghost(self.received@.push(record(KindView::App { nr, data: data@ }, position, length)));
    }

    fn handle_app0_jfif(&mut self, position: usize, length: usize, jfif: &App0Jfif)
        ensures
            final(self).is_verbose() == old(self).is_verbose(),
            one_more(final(self).objects(), old(self).objects()),
            jfif_json(final(self).objects().last(), old(self).is_verbose(), position, *jfif),
    {
        let mut fields = segment_fields(position, text_of("App(0x0):JFIF"));
        let unit = if jfif.unit == 0 {
            text_of("pixel")
        } else if jfif.unit == 1 {
            text_of("dpi")
        } else if jfif.unit == 2 {
            text_of("dpcm")
        } else {
            let mut u = text_of("unknown ");
            push_dec(&mut u, jfif.unit as usize);
            u
        };
        let mut density: Vec<(String, JsonNode)> = Vec::new();
        push_field(&mut density, "unit", JsonNode::Text(unit));
        push_field(&mut density, "x", JsonNode::Number(jfif.x_density as u64));
        push_field(&mut density, "y", JsonNode::Number(jfif.y_density as u64));
        push_field(&mut fields, "density", JsonNode::Object(density));
        let mut thumbnail: Vec<(String, JsonNode)> = Vec::new();
        push_field(&mut thumbnail, "width", JsonNode::Number(jfif.x_thumbnail as u64));
        push_field(&mut thumbnail, "height", JsonNode::Number(jfif.y_thumbnail as u64));
        if self.verbose {
            match &jfif.thumbnail {
                Some(data) => push_field(&mut thumbnail, "data", bytes_node(data.as_slice())),
                None => {},
            }
        }
        push_field(&mut fields, "thumbnail", JsonNode::Object(thumbnail));
        self.add(JsonNode::Object(fields));
        self.received = Ghost(self.received@.push(record(KindView::App0Jfif(jfif@), position, length)));
    }

    fn handle_dqt(&mut self, position: usize, length: usize, tables: &[Dqt])
        ensures
            final(self).is_verbose() == old(self).is_verbose(),
            one_more(final(self).objects(), old(self).objects()),
            dqt_json(final(self).objects().last(), old(self).is_verbose(), position, tables@),
    {
        let mut fields = segment_fields(position, text_of("DQT"));
        let mut items: Vec<JsonNode> = Vec::new();
        let mut k: usize = 0;
        while k < tables.len()
            invariant
                k <= tables@.len(),
                items@.len() == k,
                forall|j: int| 0 <= j < k ==> dqt_table_json(#[trigger] items@[j], self.verbose, tables@[j]),
            decreases tables@.len() - k,
        {
            items.push(dqt_table_node(&tables[k], self.verbose));
            k = k + 1;
        }
        push_field(&mut fields, "tables", JsonNode::Array(items));
        self.add(JsonNode::Object(fields));
        self.received = Ghost(self.received@.push(record(KindView::Dqt(dqt_views(tables@)), position, length)));
    }

    fn handle_dht(&mut self, position: usize, length: usize, tables: &[Dht])
        ensures
            final(self).is_verbose() == old(self).is_verbose(),
            one_more(final(self).objects(), old(self).objects()),
            dht_json(final(self).objects().last(), old(self).is_verbose(), position, tables@),
    {
        let mut fields = segment_fields(position, text_of("DHT"));
        let mut items: Vec<JsonNode> = Vec::new();
        let mut k: usize = 0;
        while k < tables.len()
            invariant
                k <= tables@.len(),
                items@.len() == k,
                forall|j: int| 0 <= j < k ==> dht_table_json(#[trigger] items@[j], self.verbose, tables@[j]),
            decreases tables@.len() - k,
        {
            items.push(dht_table_node(&tables[k], self.verbose));
            k = k + 1;
        }
        push_field(&mut fields, "tables", JsonNode::Array(items));
        self.add(JsonNode::Object(fields));
        self.received = Ghost(self.received@.push(record(KindView::Dht(dht_views(tables@)), position, length)));
    }

    fn handle_dac(&mut self, position: usize, length: usize, dac: &Dac)
        ensures
            final(self).is_verbose() == old(self).is_verbose(),
            one_more(final(self).objects(), old(self).objects()),
            dac_json(final(self).objects().last(), position, dac.params@),
    {
        let mut fields = segment_fields(position, text_of("DAC"));
        let mut items: Vec<JsonNode> = Vec::new();
        let mut k: usize = 0;
        while k < dac.params.len()
            invariant
                k <= dac.params@.len(),
                items@.len() == k,
                forall|j: int| 0 <= j < k ==> dac_param_json(#[trigger] items@[j], dac.params@[j]),
            decreases dac.params@.len() - k,
        {
            items.push(dac_param_node(dac.params[k]));
            k = k + 1;
        }
        push_field(&mut fields, "params", JsonNode::Array(items));
        self.add(JsonNode::Object(fields));
        self.received = Ghost(self.received@.push(record(KindView::Dac(dac.params@), position, length)));
    }

    fn handle_frame(&mut self, position: usize, length: usize, frame: &Frame)
        ensures
            final(self).is_verbose() == old(self).is_verbose(),
            one_more(final(self).objects(), old(self).objects()),
            frame_json(final(self).objects().last(), position, *frame),
    {
        let mut fields = segment_fields(position, text_of("SOF"));
        push_field(&mut fields, "type", JsonNode::Text(text_of(frame.get_sof_name())));
        push_field(&mut fields, "precision", JsonNode::Number(frame.precision as u64));
        push_field(
            &mut fields,
            "dimension",
            pair_node("width", frame.dimension_x as u64, "height", frame.dimension_y as u64),
        );
        let mut items: Vec<JsonNode> = Vec::new();
        let mut k: usize = 0;
        while k < frame.components.len()
            invariant
                k <= frame.components@.len(),
                items@.len() == k,
                forall|j: int|
                    0 <= j < k ==> frame_component_json(#[trigger] items@[j], frame.components@[j]),
            decreases frame.components@.len() - k,
        {
            items.push(frame_component_node(frame.components[k]));
            k = k + 1;
        }
        push_field(&mut fields, "components", JsonNode::Array(items));
        self.add(JsonNode::Object(fields));
        self.received = Ghost(self.received@.push(record(KindView::Frame(frame@), position, length)));
    }

    fn handle_scan(&mut self, position: usize, length: usize, scan: &Scan)
        ensures
            final(self).is_verbose() == old(self).is_verbose(),
            one_more(final(self).objects(), old(self).objects()),
            scan_json(final(self).objects().last(), old(self).is_verbose(), position, *scan),
    {
        let mut fields = segment_fields(position, text_of("SOS"));
        let mut items: Vec<JsonNode> = Vec::new();
        let mut k: usize = 0;
        while k < scan.components.len()
            invariant
                k <= scan.components@.len(),
                items@.len() == k,
                forall|j: int|
                    0 <= j < k ==> scan_component_json(#[trigger] items@[j], scan.components@[j]),
            decreases scan.components@.len() - k,
        {
            items.push(scan_component_node(scan.components[k]));
            k = k + 1;
        }
        push_field(&mut fields, "components", JsonNode::Array(items));
        push_field(
            &mut fields,
            "selection",
            pair_node("start", scan.selection_start as u64, "end", scan.selection_end as u64),
        );
        push_field(
            &mut fields,
            "approximation",
            pair_node(
                "low",
                scan.approximation_low as u64,
                "high",
                scan.approximation_high as u64,
            ),
        );
        push_field(&mut fields, "size", JsonNode::Number(scan.data.len() as u64));
        if self.verbose {
            push_field(&mut fields, "data", bytes_node(scan.data.as_slice()));
        }
        self.add(JsonNode::Object(fields));
        self.received = Ghost(self.received@.push(record(KindView::Scan(scan@), position, length)));
    }

    fn handle_dri(&mut self, position: usize, length: usize, restart: u16)
        ensures
            final(self).is_verbose() == old(self).is_verbose(),
            one_more(final(self).objects(), old(self).objects()),
            dri_json(final(self).objects().last(), position, restart),
    {
        let mut fields = segment_fields(position, text_of("DRI"));
        push_field(&mut fields, "restart", JsonNode::Number(restart as u64));
        self.add(JsonNode::Object(fields));
        self.received = Ghost(self.received@.push(record(KindView::Dri(restart), position, length)));
    }

    fn handle_rst(&mut self, position: usize, length: usize, restart: &Rst)
        ensures
            final(self).is_verbose() == old(self).is_verbose(),
            one_more(final(self).objects(), old(self).objects()),
            rst_json(final(self).objects().last(), old(self).is_verbose(), position, *restart),
    {
        let mut marker = text_of("RST(");
        push_dec(&mut marker, restart.nr as usize);
        push_str(&mut marker, ")");
        let mut fields = segment_fields(position, marker);
        push_field(&mut fields, "size", JsonNode::Number(restart.data.len() as u64));
        if self.verbose {
            push_field(&mut fields, "data", bytes_node(restart.data.as_slice()));
        }
        self.add(JsonNode::Object(fields));
        self.received = Ghost(self.received@.push(record(KindView::Rst { nr: restart.nr, data: restart.data@ }, position, length)));
    }

    fn handle_comment(&mut self, position: usize, length: usize, data: &[u8])
        ensures
            final(self).is_verbose() == old(self).is_verbose(),
            one_more(final(self).objects(), old(self).objects()),
            comment_json(final(self).objects().last(), position, data@),
    {
        let mut fields = segment_fields(position, text_of("COM"));
        match utf8_text(data) {
            Some(comment) => push_field(&mut fields, "text", JsonNode::Text(comment)),
            None => push_field(&mut fields, "raw", bytes_node(data)),
        }
        self.add(JsonNode::Object(fields));
        self.received = Ghost(self.received@.push(record(KindView::Comment(data@), position, length)));
    }

    fn handle_unknown(&mut self, position: usize, length: usize, marker: u8, data: &[u8])
        ensures
            final(self).is_verbose() == old(self).is_verbose(),
            one_more(final(self).objects(), old(self).objects()),
            unknown_json(final(self).objects().last(), old(self).is_verbose(), position, marker, data@),
    {
        let mut fields = segment_fields(position, hex_label("Marker(0x", marker, ")"));
        push_field(&mut fields, "size", JsonNode::Number(data.len() as u64));
        if self.verbose {
            push_field(&mut fields, "data", bytes_node(data));
        }
        self.add(JsonNode::Object(fields));
        self.received = Ghost(self.received@.push(record(KindView::Unknown { marker, data: data@ }, position, length)));
    }

    fn handle_eoi(&mut self, position: usize, length: usize)
        ensures
            final(self).is_verbose() == old(self).is_verbose(),
            one_more(final(self).objects(), old(self).objects()),
            eoi_json(final(self).objects().last(), position),
    {
        let fields = segment_fields(position, text_of("EOI"));
        self.add(JsonNode::Object(fields));
        self.received = Ghost(self.received@.push(record(KindView::Eoi, position, length)));
    }
}

} // verus!
