//! Text renderings of segment fields.
use vstd::prelude::*;
use vstd::utf8::{decode_utf8, valid_utf8};

use crate::segment::{
    dht_views, dqt_views, sof_name, App0Jfif, Dac, DacParam, Dht, Dqt, Frame, FrameComponent,
    KindView, Rst, Scan, ScanComponent, SegmentView,
};
use crate::handler::{record, Handler};

verus! {

/// The uppercase hexadecimal digit of a value below 16.
pub open spec fn hex_digit(n: u8) -> char {
    if n < 10 {
        (48 + n) as char
    } else {
        (55 + n) as char
    }
}

/// How one byte is shown: a printable ASCII character or the space as itself,
/// any other byte as `\x0x` and two uppercase hexadecimal digits.
pub open spec fn escaped(v: u8) -> Seq<char> {
    if 0x20 <= v <= 0x7E {
        seq![v as char]
    } else {
        seq!['\\', 'x', '0', 'x', hex_digit(v / 16), hex_digit(v % 16)]
    }
}

/// The bytes of `s` shown one after the other.
pub open spec fn escaped_all(s: Seq<u8>) -> Seq<char>
    decreases s.len(),
{
    if s.len() == 0 {
        Seq::empty()
    } else {
        escaped_all(s.drop_last()) + escaped(s.last())
    }
}

/// Relies on `String::push`: appends one character.
#[verifier::external_body]
fn push_char(s: &mut String, c: char)
    ensures
        final(s)@ == old(s)@.push(c),
{
    s.push(c);
}

fn hex_digit_of(n: u8) -> (r: char)
    requires
        n < 16,
    ensures
        r == hex_digit(n),
{
    if n < 10 {
        (48 + n) as char
    } else {
        (55 + n) as char
    }
}

/// Appends how byte `v` is shown to `s`.
fn push_escaped(s: &mut String, v: u8)
    ensures
        final(s)@ == old(s)@ + escaped(v),
{
    if 0x20 <= v && v <= 0x7E {
        push_char(s, v as char);
        assert(s@ =~= old(s)@ + escaped(v));
    } else {
        push_char(s, '\\');
        push_char(s, 'x');
        push_char(s, '0');
        push_char(s, 'x');
        push_char(s, hex_digit_of(v / 16));
        push_char(s, hex_digit_of(v % 16));
        assert(s@ =~= old(s)@ + escaped(v));
    }
}

/// Shows the first `max` bytes of `data`, or all of them if there are fewer.
pub fn get_marker_string(data: &[u8], max: usize) -> (r: String)
    ensures
        r@ == escaped_all(data@.take(if max < data@.len() { max as int } else { data@.len() as int })),
{
    let n = if max < data.len() {
        max
    } else {
        data.len()
    };
    let mut result = String::new();
    let mut i: usize = 0;
    while i < n
        invariant
            i <= n <= data@.len(),
            result@ == escaped_all(data@.take(i as int)),
        decreases n - i,
    {
        push_escaped(&mut result, data[i]);
        assert(data@.take(i + 1).drop_last() =~= data@.take(i as int));
        i = i + 1;
    }
    result
}

/// The decimal digit of a value below 10.
pub open spec fn digit(n: nat) -> char {
    (48 + n) as char
}

/// The decimal digits of `n`.
pub open spec fn dec(n: nat) -> Seq<char>
    decreases n,
{
    if n < 10 {
        seq![digit(n)]
    } else {
        dec(n / 10).push(digit(n % 10))
    }
}

/// The uppercase hexadecimal digits of `n`.
pub open spec fn hex(n: nat) -> Seq<char>
    decreases n,
{
    if n < 16 {
        seq![hex_digit(n as u8)]
    } else {
        hex(n / 16).push(hex_digit((n % 16) as u8))
    }
}

/// What stands before each segment's first line: its position in
/// hexadecimal when the output is verbose, nothing otherwise.
pub open spec fn prefix(verbose: bool, position: usize) -> Seq<char> {
    if verbose {
        "0x"@ + hex(position as nat) + ": "@
    } else {
        Seq::empty()
    }
}

/// Appends `t` to `s`.
pub(crate) fn push_str(s: &mut String, t: &str)
    ensures
        final(s)@ == old(s)@ + t@,
{
    s.append(t);
}

/// Appends the decimal digits of `n` to `s`.
pub(crate) fn push_dec(s: &mut String, n: usize)
    ensures
        final(s)@ == old(s)@ + dec(n as nat),
    decreases n,
{
    let ghost before = s@;
    if n >= 10 {
        push_dec(s, n / 10);
    }
    push_char(s, (48 + (n % 10) as u8) as char);
    assert(s@ =~= before + dec(n as nat));
}

/// Appends the uppercase hexadecimal digits of `n` to `s`.
pub(crate) fn push_hex(s: &mut String, n: usize)
    ensures
        final(s)@ == old(s)@ + hex(n as nat),
    decreases n,
{
    let ghost before = s@;
    if n >= 16 {
        push_hex(s, n / 16);
    }
    push_char(s, hex_digit_of((n % 16) as u8));
    assert(s@ =~= before + hex(n as nat));
}

/// The empty text.
pub open spec fn nothing() -> Seq<char> {
    Seq::empty()
}

/// One value of a quantization table at index `i`: a new indented line
/// before every eighth, right-aligned to three places, then a comma.
pub open spec fn value_cell(i: nat, v: u8) -> Seq<char> {
    (if i % 8 == 0 {
        "\n    "@
    } else {
        nothing()
    }) + (if v < 10 {
        " "@
    } else {
        nothing()
    }) + (if v < 100 {
        " "@
    } else {
        nothing()
    }) + dec(v as nat) + ", "@
}

/// The values of a quantization table.
pub open spec fn values_text(vs: Seq<u8>) -> Seq<char>
    decreases vs.len(),
{
    if vs.len() == 0 {
        nothing()
    } else {
        values_text(vs.drop_last()) + value_cell((vs.len() - 1) as nat, vs.last())
    }
}

/// The line of one quantization table.
pub open spec fn dqt_line(verbose: bool, t: Dqt) -> Seq<char> {
    "  "@ + dec(t.dest as nat) + ": Precision "@ + dec(t.precision as nat) + (if verbose {
        values_text(t.values@)
    } else {
        nothing()
    }) + "\n"@
}

/// The lines of a sequence of quantization tables.
pub open spec fn dqt_lines(verbose: bool, s: Seq<Dqt>) -> Seq<char>
    decreases s.len(),
{
    if s.len() == 0 {
        nothing()
    } else {
        dqt_lines(verbose, s.drop_last()) + dqt_line(verbose, s.last())
    }
}

/// Code-length counts separated by commas.
pub open spec fn counts_text(s: Seq<u8>) -> Seq<char>
    decreases s.len(),
{
    if s.len() == 0 {
        nothing()
    } else {
        counts_text(s.drop_last()) + (if s.len() > 1 {
            ", "@
        } else {
            nothing()
        }) + dec(s.last() as nat)
    }
}

/// The lines of one Huffman table.
pub open spec fn dht_line(verbose: bool, t: Dht) -> Seq<char> {
    "  Table "@ + dec(t.dest as nat) + ": Class "@ + dec(t.class as nat) + "\n"@ + (if verbose {
        "    Code lengths: "@ + counts_text(t.code_lengths@) + "\n"@
    } else {
        nothing()
    })
}

/// The lines of a sequence of Huffman tables.
pub open spec fn dht_lines(verbose: bool, s: Seq<Dht>) -> Seq<char>
    decreases s.len(),
{
    if s.len() == 0 {
        nothing()
    } else {
        dht_lines(verbose, s.drop_last()) + dht_line(verbose, s.last())
    }
}

/// The line of one conditioning entry.
pub open spec fn dac_line(p: DacParam) -> Seq<char> {
    "  Class: "@ + dec(p.class as nat) + "   Dest: "@ + dec(p.dest as nat) + "    Value: "@ + dec(
        p.value as nat,
    ) + "\n"@
}

/// The lines of a sequence of conditioning entries.
pub open spec fn dac_lines(s: Seq<DacParam>) -> Seq<char>
    decreases s.len(),
{
    if s.len() == 0 {
        nothing()
    } else {
        dac_lines(s.drop_last()) + dac_line(s.last())
    }
}

/// The line of one frame component.
pub open spec fn frame_component_line(c: FrameComponent) -> Seq<char> {
    "  Component("@ + dec(c.id as nat) + "): Sampling "@ + dec(
        c.horizontal_sampling_factor as nat,
    ) + "x"@ + dec(c.vertical_sampling_factor as nat) + " Quantization: "@ + dec(
        c.quantization_table as nat,
    ) + "\n"@
}

/// The lines of a sequence of frame components.
pub open spec fn frame_component_lines(s: Seq<FrameComponent>) -> Seq<char>
    decreases s.len(),
{
    if s.len() == 0 {
        nothing()
    } else {
        frame_component_lines(s.drop_last()) + frame_component_line(s.last())
    }
}

/// The line of one scan component.
pub open spec fn scan_component_line(c: ScanComponent) -> Seq<char> {
    "  Component: "@ + dec(c.id as nat) + " DC:"@ + dec(c.dc_table as nat) + " AC:"@ + dec(
        c.ac_table as nat,
    ) + "\n"@
}

/// The lines of a sequence of scan components.
pub open spec fn scan_component_lines(s: Seq<ScanComponent>) -> Seq<char>
    decreases s.len(),
{
    if s.len() == 0 {
        nothing()
    } else {
        scan_component_lines(s.drop_last()) + scan_component_line(s.last())
    }
}

/// A number below 100 with at least two digits.
pub open spec fn dec2(n: nat) -> Seq<char> {
    if n < 10 {
        "0"@ + dec(n)
    } else {
        dec(n)
    }
}

/// The name of a density unit.
pub open spec fn unit_text(unit: u8) -> Seq<char> {
    if unit == 0 {
        "pixel"@
    } else if unit == 1 {
        "dots per inch"@
    } else if unit == 2 {
        "dots per cm"@
    } else {
        "Unknown unit: "@ + dec(unit as nat)
    }
}

/// The text of an application segment: its number and its first 20 bytes.
pub open spec fn app_text(verbose: bool, position: usize, nr: u8, data: Seq<u8>) -> Seq<char> {
    prefix(verbose, position) + "App(0x"@ + hex(nr as nat) + "):"@ + escaped_all(
        data.take(if data.len() < 20 { data.len() as int } else { 20 }),
    ) + "\n"@
}

/// The version line of a JFIF header.
pub open spec fn version_line(major: u8, minor: u8) -> Seq<char> {
    "  Version: "@ + dec(major as nat) + "."@ + dec2(minor as nat) + "\n"@
}

/// The density line of a JFIF header.
pub open spec fn density_line(j: App0Jfif) -> Seq<char> {
    "  Density: "@ + dec(j.x_density as nat) + "x"@ + dec(j.y_density as nat) + " "@ + unit_text(
        j.unit,
    ) + "\n"@
}

/// The thumbnail line of a JFIF header.
pub open spec fn thumbnail_line(j: App0Jfif) -> Seq<char> {
    "  Thumbnail: "@ + dec(j.x_thumbnail as nat) + "x"@ + dec(j.y_thumbnail as nat) + "\n"@
}

/// The text of a JFIF header.
pub open spec fn jfif_text(verbose: bool, position: usize, j: App0Jfif) -> Seq<char> {
    prefix(verbose, position) + "App(0x0): JFIF\n"@ + version_line(j.major, j.minor)
        + density_line(j) + thumbnail_line(j)
}

/// The text of a quantization-table segment.
pub open spec fn dqt_text(verbose: bool, position: usize, tables: Seq<Dqt>) -> Seq<char> {
    prefix(verbose, position) + "DQT:\n"@ + dqt_lines(verbose, tables)
}

/// The text of a Huffman-table segment.
pub open spec fn dht_text(verbose: bool, position: usize, tables: Seq<Dht>) -> Seq<char> {
    prefix(verbose, position) + "DHT:\n"@ + dht_lines(verbose, tables)
}

/// The text of a conditioning segment.
pub open spec fn dac_text(verbose: bool, position: usize, params: Seq<DacParam>) -> Seq<char> {
    prefix(verbose, position) + "DAC:\n"@ + dac_lines(params)
}

/// The first lines of a frame header: its name, precision and size.
pub open spec fn frame_head(f: Frame) -> Seq<char> {
    "Frame: "@ + sof_name(f.sof)@ + "\n"@ + "  Precision: "@ + dec(f.precision as nat) + "\n"@
        + "  Dimension: "@ + dec(f.dimension_x as nat) + "x"@ + dec(f.dimension_y as nat) + "\n"@
}

/// The text of a frame header.
pub open spec fn frame_text(verbose: bool, position: usize, f: Frame) -> Seq<char> {
    prefix(verbose, position) + frame_head(f) + frame_component_lines(f.components@)
}

/// The last lines of a scan: spectral selection, approximation and the
/// number of entropy-coded bytes.
pub open spec fn scan_tail(s: Scan) -> Seq<char> {
    "  Selection: "@ + dec(s.selection_start as nat) + " to "@ + dec(s.selection_end as nat)
        + "\n"@ + "  Approximation: "@ + dec(s.approximation_low as nat) + " to "@ + dec(
        s.approximation_high as nat,
    ) + "\n"@ + "  Data: "@ + dec(s.data@.len()) + " bytes\n"@
}

/// The text of a scan.
pub open spec fn scan_text(verbose: bool, position: usize, s: Scan) -> Seq<char> {
    prefix(verbose, position) + "Scan: \n"@ + scan_component_lines(s.components@) + scan_tail(s)
}

/// The text of a restart-interval segment.
pub open spec fn dri_text(verbose: bool, position: usize, restart: u16) -> Seq<char> {
    prefix(verbose, position) + "DRI: "@ + dec(restart as nat) + "\n"@
}

/// The text of a restart marker.
pub open spec fn rst_text(verbose: bool, position: usize, r: Rst) -> Seq<char> {
    prefix(verbose, position) + "RST("@ + dec(r.nr as nat) + "): Data: "@ + dec(r.data@.len())
        + " bytes\n"@
}

/// The text of a comment: the comment itself where it is valid UTF-8, its
/// length otherwise.
pub open spec fn comment_text(verbose: bool, position: usize, data: Seq<u8>) -> Seq<char> {
    prefix(verbose, position) + (if valid_utf8(data) {
        "Comment: "@ + decode_utf8(data)
    } else {
        "Comment: BAD STRING WITH LENGTH "@ + dec(data.len())
    }) + "\n"@
}

/// The text of a segment of unknown kind.
pub open spec fn unknown_text(verbose: bool, position: usize, marker: u8, data: Seq<u8>) -> Seq<
    char,
> {
    prefix(verbose, position) + "Unknown(0x"@ + hex(marker as nat) + "):"@ + dec(data.len())
        + "\n"@
}

/// The text of the end of the image.
pub open spec fn eoi_text(verbose: bool, position: usize) -> Seq<char> {
    prefix(verbose, position) + "EOI\n"@
}

/// Relies on `std::str::from_utf8`: it accepts exactly the valid UTF-8
/// byte strings, and decodes them.
#[verifier::external_body]
pub(crate) fn utf8_text(data: &[u8]) -> (r: Option<String>)
    ensures
        r is Some <==> valid_utf8(data@),
        r matches Some(t) ==> t@ == decode_utf8(data@),
{
    match std::str::from_utf8(data) {
        Ok(t) => Some(t.to_string()),
        Err(_) => None,
    }
}

/// Appends the version line of a JFIF header to `s`.
fn push_version_line(s: &mut String, major: u8, minor: u8)
    ensures
        final(s)@ == old(s)@ + version_line(major, minor),
{
    push_str(s, "  Version: ");
    push_dec(s, major as usize);
    push_str(s, ".");
    if minor < 10 {
        push_str(s, "0");
    }
    push_dec(s, minor as usize);
    push_str(s, "\n");
    assert(s@ =~= old(s)@ + version_line(major, minor));
}

/// Appends the density line of a JFIF header to `s`.
fn push_density_line(s: &mut String, jfif: &App0Jfif)
    ensures
        final(s)@ == old(s)@ + density_line(*jfif),
{
    push_str(s, "  Density: ");
    push_dec(s, jfif.x_density as usize);
    push_str(s, "x");
    push_dec(s, jfif.y_density as usize);
    push_str(s, " ");
    let ghost mark = s@;
    if jfif.unit == 0 {
        push_str(s, "pixel");
    } else if jfif.unit == 1 {
        push_str(s, "dots per inch");
    } else if jfif.unit == 2 {
        push_str(s, "dots per cm");
    } else {
        push_str(s, "Unknown unit: ");
        push_dec(s, jfif.unit as usize);
    }
    assert(s@ =~= mark + unit_text(jfif.unit));
    push_str(s, "\n");
    assert(s@ =~= old(s)@ + density_line(*jfif));
}

/// Appends the last lines of a scan's text to `s`.
fn push_scan_tail(s: &mut String, scan: &Scan)
    ensures
        final(s)@ == old(s)@ + scan_tail(*scan),
{
    push_str(s, "  Selection: ");
    push_dec(s, scan.selection_start as usize);
    push_str(s, " to ");
    push_dec(s, scan.selection_end as usize);
    push_str(s, "\n");
    push_str(s, "  Approximation: ");
    push_dec(s, scan.approximation_low as usize);
    push_str(s, " to ");
    push_dec(s, scan.approximation_high as usize);
    push_str(s, "\n");
    push_str(s, "  Data: ");
    push_dec(s, scan.data.len());
    push_str(s, " bytes\n");
    assert(s@ =~= old(s)@ + scan_tail(*scan));
}

/// Appends the line of one frame component to `s`.
fn push_frame_component_line(s: &mut String, c: FrameComponent)
    ensures
        final(s)@ == old(s)@ + frame_component_line(c),
{
    push_str(s, "  Component(");
    push_dec(s, c.id as usize);
    push_str(s, "): Sampling ");
    push_dec(s, c.horizontal_sampling_factor as usize);
    push_str(s, "x");
    push_dec(s, c.vertical_sampling_factor as usize);
    push_str(s, " Quantization: ");
    push_dec(s, c.quantization_table as usize);
    push_str(s, "\n");
    assert(s@ =~= old(s)@ + frame_component_line(c));
}

/// Renders segments as lines of text, one block for each segment.
pub struct TextFormat {
    verbose: bool,
    text: String,
    received: Ghost<Seq<SegmentView>>,
}

impl TextFormat {
    /// Whether positions and table contents are shown.
    pub closed spec fn is_verbose(&self) -> bool {
        self.verbose
    }

    /// The text rendered so far.
    pub closed spec fn output(&self) -> Seq<char> {
        self.text@
    }

    /// A renderer with no text yet.
    pub fn new(verbose: bool) -> (r: TextFormat)
        ensures
            r.is_verbose() == verbose,
            r.output() == Seq::<char>::empty(),
            r.received() == Seq::<SegmentView>::empty(),
    {
        TextFormat { verbose, text: String::new(), received: Ghost(Seq::empty()) }
    }

    /// The text rendered so far.
    pub fn text(&self) -> (r: &str)
        ensures
            r@ == self.output(),
    {
        self.text.as_str()
    }

    fn push_prefix(&mut self, position: usize)
        ensures
            final(self).verbose == old(self).verbose,
            final(self).received == old(self).received,
            final(self).text@ == old(self).text@ + prefix(old(self).verbose, position),
    {
        if self.verbose {
            let ghost before = self.text@;
            push_str(&mut self.text, "0x");
            push_hex(&mut self.text, position);
            push_str(&mut self.text, ": ");
            assert(self.text@ =~= before + prefix(self.verbose, position));
        }
    }
}


impl Handler for TextFormat {
    closed spec fn received(&self) -> Seq<SegmentView> {
        self.received@
    }

    fn handle_app(&mut self, position: usize, length: usize, nr: u8, data: &[u8])
        ensures
            final(self).is_verbose() == old(self).is_verbose(),
            final(self).output() == old(self).output() + app_text(
                old(self).is_verbose(),
                position,
                nr,
                data@,
            ),
    {
        let ghost before = self.text@;
        self.push_prefix(position);
        push_str(&mut self.text, "App(0x");
        push_hex(&mut self.text, nr as usize);
        push_str(&mut self.text, "):");
        let shown = get_marker_string(data, 20);
        push_str(&mut self.text, shown.as_str());
        push_str(&mut self.text, "\n");
        assert(self.text@ =~= before + app_text(self.verbose, position, nr, data@));
        self.received = Ghost(self.received@.push(record(KindView::App { nr, data: data@ }, position, length)));
    }

    fn handle_app0_jfif(&mut self, position: usize, length: usize, jfif: &App0Jfif)
        ensures
            final(self).is_verbose() == old(self).is_verbose(),
            final(self).output() == old(self).output() + jfif_text(
                old(self).is_verbose(),
                position,
                *jfif,
            ),
    {
        let ghost before = self.text@;
        self.push_prefix(position);
        push_str(&mut self.text, "App(0x0): JFIF\n");
        push_version_line(&mut self.text, jfif.major, jfif.minor);
        push_density_line(&mut self.text, jfif);
        let ghost mark = self.text@;
        push_str(&mut self.text, "  Thumbnail: ");
        push_dec(&mut self.text, jfif.x_thumbnail as usize);
        push_str(&mut self.text, "x");
        push_dec(&mut self.text, jfif.y_thumbnail as usize);
        push_str(&mut self.text, "\n");
        assert(self.text@ =~= mark + thumbnail_line(*jfif));
        assert(self.text@ =~= before + jfif_text(self.verbose, position, *jfif));
        self.received = Ghost(self.received@.push(record(KindView::App0Jfif(jfif@), position, length)));
    }

    fn handle_dqt(&mut self, position: usize, length: usize, tables: &[Dqt])
        ensures
            final(self).is_verbose() == old(self).is_verbose(),
            final(self).output() == old(self).output() + dqt_text(
                old(self).is_verbose(),
                position,
                tables@,
            ),
    {
        let ghost before = self.text@;
        self.push_prefix(position);
        push_str(&mut self.text, "DQT:\n");
        let ghost head = self.text@;
        let mut k: usize = 0;
        while k < tables.len()
            invariant
                self.verbose == old(self).verbose,
                self.received == old(self).received,
                k <= tables@.len(),
                self.text@ == head + dqt_lines(self.verbose, tables@.take(k as int)),
            decreases tables@.len() - k,
        {
            let table = &tables[k];
            let ghost line_start = self.text@;
            push_str(&mut self.text, "  ");
            push_dec(&mut self.text, table.dest as usize);
            push_str(&mut self.text, ": Precision ");
            push_dec(&mut self.text, table.precision as usize);
            if self.verbose {
                let ghost cells_start = self.text@;
                let mut i: usize = 0;
                while i < 64
                    invariant
                        self.verbose == old(self).verbose,
                        self.received == old(self).received,
                self.received == old(self).received,
                        i <= 64,
                        table.values@.len() == 64,
                        self.text@ == cells_start + values_text(table.values@.take(i as int)),
                    decreases 64 - i,
                {
                    let v = table.values[i];
                    let ghost cell_start = self.text@;
                    if i % 8 == 0 {
                        push_str(&mut self.text, "\n    ");
                    }
                    if v < 10 {
                        push_str(&mut self.text, " ");
                    }
                    if v < 100 {
                        push_str(&mut self.text, " ");
                    }
                    push_dec(&mut self.text, v as usize);
                    push_str(&mut self.text, ", ");
                    assert(self.text@ =~= cell_start + value_cell(i as nat, v));
                    assert(table.values@.take(i + 1).drop_last() =~= table.values@.take(i as int));
                    i = i + 1;
                }
                assert(table.values@.take(64) =~= table.values@);
            }
            push_str(&mut self.text, "\n");
            assert(self.text@ =~= line_start + dqt_line(self.verbose, *table));
            assert(tables@.take(k + 1).drop_last() =~= tables@.take(k as int));
            k = k + 1;
        }
        assert(tables@.take(tables@.len() as int) =~= tables@);
        assert(self.text@ =~= before + dqt_text(self.verbose, position, tables@));
        self.received = Ghost(self.received@.push(record(KindView::Dqt(dqt_views(tables@)), position, length)));
    }

    fn handle_dht(&mut self, position: usize, length: usize, tables: &[Dht])
        ensures
            final(self).is_verbose() == old(self).is_verbose(),
            final(self).output() == old(self).output() + dht_text(
                old(self).is_verbose(),
                position,
                tables@,
            ),
    {
        let ghost before = self.text@;
        self.push_prefix(position);
        push_str(&mut self.text, "DHT:\n");
        let ghost head = self.text@;
        let mut k: usize = 0;
        while k < tables.len()
            invariant
                self.verbose == old(self).verbose,
                self.received == old(self).received,
                k <= tables@.len(),
                self.text@ == head + dht_lines(self.verbose, tables@.take(k as int)),
            decreases tables@.len() - k,
        {
            let table = &tables[k];
            let ghost line_start = self.text@;
            push_str(&mut self.text, "  Table ");
            push_dec(&mut self.text, table.dest as usize);
            push_str(&mut self.text, ": Class ");
            push_dec(&mut self.text, table.class as usize);
            push_str(&mut self.text, "\n");
            if self.verbose {
                let ghost counts_start = self.text@;
                push_str(&mut self.text, "    Code lengths: ");
                let ghost list_start = self.text@;
                let mut i: usize = 0;
                while i < 16
                    invariant
                        self.verbose == old(self).verbose,
                        self.received == old(self).received,
                self.received == old(self).received,
                        i <= 16,
                        table.code_lengths@.len() == 16,
                        self.text@ == list_start + counts_text(table.code_lengths@.take(i as int)),
                    decreases 16 - i,
                {
                    let v = table.code_lengths[i];
                    let ghost item_start = self.text@;
                    if i > 0 {
                        push_str(&mut self.text, ", ");
                    }
                    push_dec(&mut self.text, v as usize);
                    assert(table.code_lengths@.take(i + 1).drop_last() =~= table.code_lengths@.take(
                        i as int,
                    ));
                    assert(self.text@ =~= list_start + counts_text(
                        table.code_lengths@.take(i + 1),
                    ));
                    i = i + 1;
                }
                assert(table.code_lengths@.take(16) =~= table.code_lengths@);
                push_str(&mut self.text, "\n");
            }
            assert(self.text@ =~= line_start + dht_line(self.verbose, *table));
            assert(tables@.take(k + 1).drop_last() =~= tables@.take(k as int));
            k = k + 1;
        }
        assert(tables@.take(tables@.len() as int) =~= tables@);
        assert(self.text@ =~= before + dht_text(self.verbose, position, tables@));
        self.received = Ghost(self.received@.push(record(KindView::Dht(dht_views(tables@)), position, length)));
    }

    fn handle_dac(&mut self, position: usize, length: usize, dac: &Dac)
        ensures
            final(self).is_verbose() == old(self).is_verbose(),
            final(self).output() == old(self).output() + dac_text(
                old(self).is_verbose(),
                position,
                dac.params@,
            ),
    {
        let ghost before = self.text@;
        self.push_prefix(position);
        push_str(&mut self.text, "DAC:\n");
        let ghost head = self.text@;
        let mut k: usize = 0;
        while k < dac.params.len()
            invariant
                self.verbose == old(self).verbose,
                self.received == old(self).received,
                k <= dac.params@.len(),
                self.text@ == head + dac_lines(dac.params@.take(k as int)),
            decreases dac.params@.len() - k,
        {
            let param = dac.params[k];
            let ghost line_start = self.text@;
            push_str(&mut self.text, "  Class: ");
            push_dec(&mut self.text, param.class as usize);
            push_str(&mut self.text, "   Dest: ");
            push_dec(&mut self.text, param.dest as usize);
            push_str(&mut self.text, "    Value: ");
            push_dec(&mut self.text, param.value as usize);
            push_str(&mut self.text, "\n");
            assert(self.text@ =~= line_start + dac_line(param));
            assert(dac.params@.take(k + 1).drop_last() =~= dac.params@.take(k as int));
            k = k + 1;
        }
        assert(dac.params@.take(dac.params@.len() as int) =~= dac.params@);
        assert(self.text@ =~= before + dac_text(self.verbose, position, dac.params@));
        self.received = Ghost(self.received@.push(record(KindView::Dac(dac.params@), position, length)));
    }

    fn handle_frame(&mut self, position: usize, length: usize, frame: &Frame)
        ensures
            final(self).is_verbose() == old(self).is_verbose(),
            final(self).output() == old(self).output() + frame_text(
                old(self).is_verbose(),
                position,
                *frame,
            ),
    {
        let ghost before = self.text@;
        self.push_prefix(position);
        let ghost mark = self.text@;
        push_str(&mut self.text, "Frame: ");
        push_str(&mut self.text, frame.get_sof_name());
        push_str(&mut self.text, "\n");
        push_str(&mut self.text, "  Precision: ");
        push_dec(&mut self.text, frame.precision as usize);
        push_str(&mut self.text, "\n");
        push_str(&mut self.text, "  Dimension: ");
        push_dec(&mut self.text, frame.dimension_x as usize);
        push_str(&mut self.text, "x");
        push_dec(&mut self.text, frame.dimension_y as usize);
        push_str(&mut self.text, "\n");
        assert(self.text@ =~= mark + frame_head(*frame));
        let ghost head = self.text@;
        let mut k: usize = 0;
        while k < frame.components.len()
            invariant
                self.verbose == old(self).verbose,
                self.received == old(self).received,
                k <= frame.components@.len(),
                self.text@ == head + frame_component_lines(frame.components@.take(k as int)),
            decreases frame.components@.len() - k,
        {
            let c = frame.components[k];
            push_frame_component_line(&mut self.text, c);
            assert(frame.components@.take(k + 1).drop_last() =~= frame.components@.take(k as int));
            k = k + 1;
        }
        assert(frame.components@.take(frame.components@.len() as int) =~= frame.components@);
        assert(self.text@ =~= before + frame_text(self.verbose, position, *frame));
        self.received = Ghost(self.received@.push(record(KindView::Frame(frame@), position, length)));
    }

    fn handle_scan(&mut self, position: usize, length: usize, scan: &Scan)
        ensures
            final(self).is_verbose() == old(self).is_verbose(),
            final(self).output() == old(self).output() + scan_text(
                old(self).is_verbose(),
                position,
                *scan,
            ),
    {
        let ghost before = self.text@;
        self.push_prefix(position);
        push_str(&mut self.text, "Scan: \n");
        let ghost head = self.text@;
        let mut k: usize = 0;
        while k < scan.components.len()
            invariant
                self.verbose == old(self).verbose,
                self.received == old(self).received,
                k <= scan.components@.len(),
                self.text@ == head + scan_component_lines(scan.components@.take(k as int)),
            decreases scan.components@.len() - k,
        {
            let c = scan.components[k];
            let ghost line_start = self.text@;
            push_str(&mut self.text, "  Component: ");
            push_dec(&mut self.text, c.id as usize);
            push_str(&mut self.text, " DC:");
            push_dec(&mut self.text, c.dc_table as usize);
            push_str(&mut self.text, " AC:");
            push_dec(&mut self.text, c.ac_table as usize);
            push_str(&mut self.text, "\n");
            assert(self.text@ =~= line_start + scan_component_line(c));
            assert(scan.components@.take(k + 1).drop_last() =~= scan.components@.take(k as int));
            k = k + 1;
        }
        assert(scan.components@.take(scan.components@.len() as int) =~= scan.components@);
        push_scan_tail(&mut self.text, scan);
        assert(self.text@ =~= before + scan_text(self.verbose, position, *scan));
        self.received = Ghost(self.received@.push(record(KindView::Scan(scan@), position, length)));
    }

    fn handle_dri(&mut self, position: usize, length: usize, restart: u16)
        ensures
            final(self).is_verbose() == old(self).is_verbose(),
            final(self).output() == old(self).output() + dri_text(
                old(self).is_verbose(),
                position,
                restart,
            ),
    {
        let ghost before = self.text@;
        self.push_prefix(position);
        push_str(&mut self.text, "DRI: ");
        push_dec(&mut self.text, restart as usize);
        push_str(&mut self.text, "\n");
        assert(self.text@ =~= before + dri_text(self.verbose, position, restart));
        self.received = Ghost(self.received@.push(record(KindView::Dri(restart), position, length)));
    }

    fn handle_rst(&mut self, position: usize, length: usize, restart: &Rst)
        ensures
            final(self).is_verbose() == old(self).is_verbose(),
            final(self).output() == old(self).output() + rst_text(
                old(self).is_verbose(),
                position,
                *restart,
            ),
    {
        let ghost before = self.text@;
        self.push_prefix(position);
        push_str(&mut self.text, "RST(");
        push_dec(&mut self.text, restart.nr as usize);
        push_str(&mut self.text, "): Data: ");
        push_dec(&mut self.text, restart.data.len());
        push_str(&mut self.text, " bytes\n");
        assert(self.text@ =~= before + rst_text(self.verbose, position, *restart));
        self.received = Ghost(self.received@.push(record(KindView::Rst { nr: restart.nr, data: restart.data@ }, position, length)));
    }

    fn handle_comment(&mut self, position: usize, length: usize, data: &[u8])
        ensures
            final(self).is_verbose() == old(self).is_verbose(),
            final(self).output() == old(self).output() + comment_text(
                old(self).is_verbose(),
                position,
                data@,
            ),
    {
        let ghost before = self.text@;
        self.push_prefix(position);
        match utf8_text(data) {
            Some(comment) => {
                push_str(&mut self.text, "Comment: ");
                push_str(&mut self.text, comment.as_str());
            },
            None => {
                push_str(&mut self.text, "Comment: BAD STRING WITH LENGTH ");
                push_dec(&mut self.text, data.len());
            },
        }
        push_str(&mut self.text, "\n");
        assert(self.text@ =~= before + comment_text(self.verbose, position, data@));
        self.received = Ghost(self.received@.push(record(KindView::Comment(data@), position, length)));
    }

    fn handle_unknown(&mut self, position: usize, length: usize, marker: u8, data: &[u8])
        ensures
            final(self).is_verbose() == old(self).is_verbose(),
            final(self).output() == old(self).output() + unknown_text(
                old(self).is_verbose(),
                position,
                marker,
                data@,
            ),
    {
        let ghost before = self.text@;
        self.push_prefix(position);
        push_str(&mut self.text, "Unknown(0x");
        push_hex(&mut self.text, marker as usize);
        push_str(&mut self.text, "):");
        push_dec(&mut self.text, data.len());
        push_str(&mut self.text, "\n");
        assert(self.text@ =~= before + unknown_text(self.verbose, position, marker, data@));
        self.received = Ghost(self.received@.push(record(KindView::Unknown { marker, data: data@ }, position, length)));
    }

    fn handle_eoi(&mut self, position: usize, length: usize)
        ensures
            final(self).is_verbose() == old(self).is_verbose(),
            final(self).output() == old(self).output() + eoi_text(old(self).is_verbose(), position),
    {
        let ghost before = self.text@;
        self.push_prefix(position);
        push_str(&mut self.text, "EOI\n");
        assert(self.text@ =~= before + eoi_text(self.verbose, position));
        self.received = Ghost(self.received@.push(record(KindView::Eoi, position, length)));
    }
}

} // verus!
