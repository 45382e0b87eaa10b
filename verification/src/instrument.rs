//! Instrument files: which segments form a velocity layer, which
//! velocities a layer answers to, and the text of the two file formats.

use vstd::prelude::*;
use vstd::string::*;
use crate::sampler::Sample;
use crate::text::{decimal, push_decimal, replace_all, replaced};

verus! {

/// Lowest velocity that layer `k` of `n` answers to.
pub open spec fn layer_low(k: int, n: int) -> int {
    k * 127 / n + 1
}

/// Highest velocity that layer `k` of `n` answers to.
pub open spec fn layer_high(k: int, n: int) -> int {
    (k + 1) * 127 / n
}

/// Up to 127 layers divide the velocities 1..=127 among them: the first
/// starts at 1, the last ends at 127, each starts one above the end of the
/// one before, and none is empty.
pub proof fn lemma_layers_partition(n: int)
    requires
        1 <= n <= 127,
    ensures
        layer_low(0, n) == 1,
        layer_high(n - 1, n) == 127,
        forall|k: int| 0 <= k < n - 1 ==> #[trigger] layer_low(k + 1, n) == layer_high(k, n) + 1,
        forall|k: int| 0 <= k < n ==> 1 <= #[trigger] layer_low(k, n) <= layer_high(k, n) <= 127,
{
    assert(0int * 127 / n == 0);
    assert((n - 1 + 1) * 127 / n == 127) by (nonlinear_arith)
        requires
            n >= 1,
    ;
    assert forall|k: int| 0 <= k < n implies 1 <= #[trigger] layer_low(k, n) <= layer_high(k, n)
        <= 127 by {
        assert(0 <= k * 127 / n && k * 127 / n + 1 <= (k + 1) * 127 / n && (k + 1) * 127 / n
            <= 127) by (nonlinear_arith)
            requires
                0 <= k < n,
                1 <= n <= 127,
        ;
    }
}

/// The bounds of layer `k` of `n`.
pub fn layer_bounds(k: usize, n: usize) -> (r: (u8, u8))
    requires
        k < n <= 256,
    ensures
        r.0 == layer_low(k as int, n as int),
        r.1 == layer_high(k as int, n as int),
{
    let ghost ki = k as int;
    let ghost ni = n as int;
    assert(0 <= ki * 127 / ni && (ki + 1) * 127 / ni <= 127 && ki * 127 / ni + 1 <= 127)
        by (nonlinear_arith)
        requires
            0 <= ki < ni,
            1 <= ni <= 256,
    ;
    assert(ki * 127 <= 255 * 127 && (ki + 1) * 127 <= 256 * 127) by (nonlinear_arith)
        requires
            0 <= ki < 256,
    ;
    let low: usize = k * 127 / n + 1;
    let high: usize = (k + 1) * 127 / n;
    (low as u8, high as u8)
}

/// Some segment among the first `count` has velocity `v`.
pub open spec fn has_velocity(samples: Seq<Sample>, count: int, v: int) -> bool {
    exists|i: int| 0 <= i < count && i < samples.len() && #[trigger] samples[i].velocity == v
}

/// The velocities below `top` that occur among the first `count` segments,
/// in rising order.
pub open spec fn velocities_below(samples: Seq<Sample>, count: int, top: int) -> Seq<u8>
    decreases top,
{
    if top <= 0 {
        Seq::empty()
    } else if has_velocity(samples, count, top - 1) {
        velocities_below(samples, count, top - 1).push((top - 1) as u8)
    } else {
        velocities_below(samples, count, top - 1)
    }
}

/// The velocity layers of the first `count` segments: each velocity that
/// occurs, once, in rising order.
pub open spec fn layer_velocities(samples: Seq<Sample>, count: int) -> Seq<u8> {
    velocities_below(samples, count, 256)
}

/// There are at most `top` velocities below `top`.
pub proof fn lemma_velocities_below_len(samples: Seq<Sample>, count: int, top: int)
    requires
        0 <= top,
    ensures
        velocities_below(samples, count, top).len() <= top,
    decreases top,
{
    if top > 0 {
        lemma_velocities_below_len(samples, count, top - 1);
    }
}

/// Whether some segment among the first `count` has velocity `v`.
fn velocity_occurs(samples: &Vec<Sample>, count: usize, v: u8) -> (r: bool)
    requires
        count <= samples@.len(),
    ensures
        r == has_velocity(samples@, count as int, v as int),
{
    let mut i: usize = 0;
    while i < count
        invariant
            i <= count <= samples@.len(),
            forall|j: int| 0 <= j < i ==> #[trigger] samples@[j].velocity != v,
        decreases count - i,
    {
        if samples[i].velocity == v {
            return true;
        }
        i = i + 1;
    }
    false
}

/// The velocity layers of the first `count` segments.
pub fn velocity_layers(samples: &Vec<Sample>, count: usize) -> (layers: Vec<u8>)
    requires
        count <= samples@.len(),
    ensures
        layers@ == layer_velocities(samples@, count as int),
        layers@.len() <= 256,
{
    let mut layers: Vec<u8> = Vec::new();
    let mut v: usize = 0;
    while v < 256
        invariant
            v <= 256,
            count <= samples@.len(),
            layers@ == velocities_below(samples@, count as int, v as int),
        decreases 256 - v,
    {
        if velocity_occurs(samples, count, v as u8) {
            layers.push(v as u8);
        }
        v = v + 1;
    }
    proof {
        lemma_velocities_below_len(samples@, count as int, 256);
    }
    layers
}


/// The name an instrument file is given: the naming pattern without its
/// note, note name and velocity placeholders, without underscores and
/// without `.wav`; `Batcherbird_Instrument` where nothing is left.
pub open spec fn preset_name_of(pattern: Seq<char>) -> Seq<char> {
    let none = Seq::<char>::empty();
    let a = replaced(pattern, "{note}"@, none);
    let b = replaced(a, "{note_name}"@, none);
    let c = replaced(b, "{velocity}"@, none);
    let d = replaced(c, "_"@, none);
    let e = replaced(d, ".wav"@, none);
    if e.len() == 0 {
        "Batcherbird_Instrument"@
    } else {
        e
    }
}

/// The name an instrument file is given.
pub fn preset_name(pattern: &str) -> (name: String)
    ensures
        name@ == preset_name_of(pattern@),
{
    let empty = String::new();
    let a = replace_all(pattern, "{note}", empty.as_str());
    let b = replace_all(a.as_str(), "{note_name}", empty.as_str());
    let c = replace_all(b.as_str(), "{velocity}", empty.as_str());
    let d = replace_all(c.as_str(), "_", empty.as_str());
    let e = replace_all(d.as_str(), ".wav", empty.as_str());
    if e.as_str().unicode_len() == 0 {
        String::from_str("Batcherbird_Instrument")
    } else {
        e
    }
}

/// A comment line for a piece of metadata, if it is given: `open`, the
/// words, `close`.
pub open spec fn optional_line(open: Seq<char>, words: Option<String>, close: Seq<char>) -> Seq<
    char,
> {
    match words {
        Some(w) => open + w@ + close,
        None => Seq::empty(),
    }
}

/// Appends a comment line for a piece of metadata, if it is given.
fn push_optional_line(out: &mut String, open: &str, words: &Option<String>, close: &str)
    ensures
        final(out)@ == old(out)@ + optional_line(open@, *words, close@),
{
    match words {
        Some(w) => {
            out.append(open);
            out.append(w.as_str());
            out.append(close);
            assert(out@ =~= old(out)@ + optional_line(open@, *words, close@));
        },
        None => {
            assert(out@ =~= old(out)@ + optional_line(open@, *words, close@));
        },
    }
}

/// The `<sample>` element of one segment in a `.dspreset` document: its
/// file, its note as lowest, highest and root note, and the velocities of
/// its layer.
pub open spec fn dspreset_sample(file: Seq<char>, note: u8, low: u8, high: u8) -> Seq<char> {
    "      <sample path=\""@ + file + "\" loNote=\""@ + decimal(note as nat) + "\" hiNote=\""@
        + decimal(note as nat) + "\" rootNote=\""@ + decimal(note as nat) + "\" loVel=\""@
        + decimal(low as nat) + "\" hiVel=\""@ + decimal(high as nat) + "\" />\n"@
}

/// The `<region>` of one segment in an `.sfz` text: its file and its key.
pub open spec fn sfz_region(file: Seq<char>, note: u8) -> Seq<char> {
    "<region>\nsample="@ + file + "\nkey="@ + decimal(note as nat) + "\n\n"@
}

/// The entries of the segments below `upto` that have velocity `v`, in
/// the order of the segments; `xml` chooses between the two formats.
pub open spec fn layer_entries(
    samples: Seq<Sample>,
    files: Seq<String>,
    xml: bool,
    v: u8,
    low: u8,
    high: u8,
    upto: int,
) -> Seq<char>
    decreases upto,
{
    if upto <= 0 {
        Seq::empty()
    } else {
        layer_entries(samples, files, xml, v, low, high, upto - 1) + if samples[upto - 1].velocity
            == v {
            if xml {
                dspreset_sample(files[upto - 1]@, samples[upto - 1].note, low, high)
            } else {
                sfz_region(files[upto - 1]@, samples[upto - 1].note)
            }
        } else {
            Seq::<char>::empty()
        }
    }
}

/// What opens the group of a layer.
pub open spec fn group_open(xml: bool, low: u8, high: u8) -> Seq<char> {
    if xml {
        "    <group>\n"@
    } else {
        "<group>\nlovel="@ + decimal(low as nat) + "\nhivel="@ + decimal(high as nat) + "\n\n"@
    }
}

/// What closes the group of a layer.
pub open spec fn group_close(xml: bool) -> Seq<char> {
    if xml {
        "    </group>\n"@
    } else {
        Seq::empty()
    }
}

/// The groups of the layers below `upto`: for each layer, lowest velocity
/// first, its opening, the entries of its segments and its closing.
pub open spec fn groups(
    samples: Seq<Sample>,
    files: Seq<String>,
    count: int,
    xml: bool,
    layers: Seq<u8>,
    upto: int,
) -> Seq<char>
    decreases upto,
{
    if upto <= 0 {
        Seq::empty()
    } else {
        let low = layer_low(upto - 1, layers.len() as int) as u8;
        let high = layer_high(upto - 1, layers.len() as int) as u8;
        groups(samples, files, count, xml, layers, upto - 1) + group_open(xml, low, high)
            + layer_entries(samples, files, xml, layers[upto - 1], low, high, count) + group_close(
            xml,
        )
    }
}

/// Number of segments that have a file: the shorter of the two lists.
pub open spec fn paired(samples: Seq<Sample>, files: Seq<String>) -> int {
    if samples.len() <= files.len() {
        samples.len() as int
    } else {
        files.len() as int
    }
}

/// All groups of an instrument file.
pub open spec fn all_groups(samples: Seq<Sample>, files: Seq<String>, xml: bool) -> Seq<char> {
    let count = paired(samples, files);
    let layers = layer_velocities(samples, count);
    groups(samples, files, count, xml, layers, layers.len() as int)
}

/// Appends the groups of all layers.
fn push_groups(out: &mut String, samples: &Vec<Sample>, files: &Vec<String>, xml: bool)
    ensures
        final(out)@ == old(out)@ + all_groups(samples@, files@, xml),
{
    let count: usize = if samples.len() <= files.len() {
        samples.len()
    } else {
        files.len()
    };
    let layers = velocity_layers(samples, count);
    let n: usize = layers.len();
    let mut k: usize = 0;
    assert(out@ =~= old(out)@ + groups(samples@, files@, count as int, xml, layers@, 0));
    while k < n
        invariant
            k <= n,
            n == layers@.len(),
            n <= 256,
            count == paired(samples@, files@),
            out@ == old(out)@ + groups(samples@, files@, count as int, xml, layers@, k as int),
        decreases n - k,
    {
        let ghost before = out@;
        let (low, high): (u8, u8) = layer_bounds(k, n);
        let v: u8 = layers[k];
        if xml {
            out.append("    <group>\n");
        } else {
            out.append("<group>\nlovel=");
            push_decimal(out, low as u64);
            out.append("\nhivel=");
            push_decimal(out, high as u64);
            out.append("\n\n");
        }
        assert(out@ =~= before + group_open(xml, low, high));
        let ghost opened = out@;
        let mut i: usize = 0;
        assert(out@ =~= opened + layer_entries(samples@, files@, xml, v, low, high, 0));
        while i < count
            invariant
                i <= count,
                count == paired(samples@, files@),
                out@ == opened + layer_entries(samples@, files@, xml, v, low, high, i as int),
            decreases count - i,
        {
            let ghost so_far = out@;
            let sample = &samples[i];
            if sample.velocity == v {
                if xml {
                    out.append("      <sample path=\"");
                    out.append(files[i].as_str());
                    out.append("\" loNote=\"");
                    push_decimal(out, sample.note as u64);
                    out.append("\" hiNote=\"");
                    push_decimal(out, sample.note as u64);
                    out.append("\" rootNote=\"");
                    push_decimal(out, sample.note as u64);
                    out.append("\" loVel=\"");
                    push_decimal(out, low as u64);
                    out.append("\" hiVel=\"");
                    push_decimal(out, high as u64);
                    out.append("\" />\n");
                    assert(out@ =~= so_far + dspreset_sample(files@[i as int]@, sample.note, low, high));
                } else {
                    out.append("<region>\nsample=");
                    out.append(files[i].as_str());
                    out.append("\nkey=");
                    push_decimal(out, sample.note as u64);
                    out.append("\n\n");
                    assert(out@ =~= so_far + sfz_region(files@[i as int]@, sample.note));
                }
            }
            i = i + 1;
            assert(out@ =~= opened + layer_entries(samples@, files@, xml, v, low, high, i as int));
        }
        if xml {
            out.append("    </group>\n");
        }
        k = k + 1;
        assert(out@ =~= old(out)@ + groups(samples@, files@, count as int, xml, layers@, k as int));
    }
}


/// The control block of a `.dspreset` document: one knob for the volume.
pub open spec fn dspreset_ui() -> Seq<char> {
    "  <ui width=\"812\" height=\"375\">\n"@ + "    <tab name=\"main\">\n"@
        + "      <labeled-knob x=\"50\" y=\"50\" label=\"Volume\" type=\"float\" minValue=\"0\" maxValue=\"1\" value=\"0.7\">\n"@
        + "        <binding type=\"amp\" level=\"instrument\" parameter=\"VOLUME\" />\n"@
        + "      </labeled-knob>\n"@ + "    </tab>\n"@ + "  </ui>\n"@
}

/// The text of a `.dspreset` document for the segments and their files.
///
/// After the XML declaration come comments with the name of the preset
/// and, where given, its creator and description; then the root element
/// with the control block and one `<groups>` element, which holds one
/// `<group>` for each velocity layer, lowest velocity first, and in it one
/// `<sample>` for each segment of the layer.
pub open spec fn dspreset_text(
    name: Seq<char>,
    creator: Option<String>,
    description: Option<String>,
    samples: Seq<Sample>,
    files: Seq<String>,
) -> Seq<char> {
    "<?xml version=\"1.0\" encoding=\"UTF-8\"?>\n"@ + "<!-- "@ + name
        + " - Generated by Batcherbird -->\n"@ + optional_line(
        "<!-- Creator: "@,
        creator,
        " -->\n"@,
    ) + optional_line("<!-- Description: "@, description, " -->\n"@) + "<DecentSampler>\n"@
        + dspreset_ui() + "  <groups>\n"@ + all_groups(samples, files, true) + "  </groups>\n"@
        + "</DecentSampler>\n"@
}

/// The text of an `.sfz` instrument for the segments and their files.
///
/// After comments with the name of the instrument and, where given, its
/// creator and description come the control block with the default path,
/// the global block with the release, and one `<group>` for each velocity
/// layer, lowest velocity first, with the velocities it answers to and one
/// `<region>` for each of its segments.
pub open spec fn sfz_text(
    name: Seq<char>,
    creator: Option<String>,
    description: Option<String>,
    samples: Seq<Sample>,
    files: Seq<String>,
) -> Seq<char> {
    "// "@ + name + " - Generated by Batcherbird\n"@ + optional_line(
        "// Creator: "@,
        creator,
        "\n"@,
    ) + optional_line("// Description: "@, description, "\n"@) + "\n"@
        + "<control>\ndefault_path=samples/\n\n"@ + "<global>\nampeg_release=0.5\n\n"@
        + all_groups(samples, files, false)
}

/// The text of a `.dspreset` document.
pub fn dspreset_document(
    name: &str,
    creator: &Option<String>,
    description: &Option<String>,
    samples: &Vec<Sample>,
    files: &Vec<String>,
) -> (text: String)
    ensures
        text@ == dspreset_text(name@, *creator, *description, samples@, files@),
{
    let mut out = String::from_str("<?xml version=\"1.0\" encoding=\"UTF-8\"?>\n");
    out.append("<!-- ");
    out.append(name);
    out.append(" - Generated by Batcherbird -->\n");
    push_optional_line(&mut out, "<!-- Creator: ", creator, " -->\n");
    push_optional_line(&mut out, "<!-- Description: ", description, " -->\n");
    out.append("<DecentSampler>\n");
    let ghost head = out@;
    out.append("  <ui width=\"812\" height=\"375\">\n");
    out.append("    <tab name=\"main\">\n");
    out.append(
        "      <labeled-knob x=\"50\" y=\"50\" label=\"Volume\" type=\"float\" minValue=\"0\" maxValue=\"1\" value=\"0.7\">\n",
    );
    out.append("        <binding type=\"amp\" level=\"instrument\" parameter=\"VOLUME\" />\n");
    out.append("      </labeled-knob>\n");
    out.append("    </tab>\n");
    out.append("  </ui>\n");
    assert(out@ =~= head + dspreset_ui());
    out.append("  <groups>\n");
    push_groups(&mut out, samples, files, true);
    out.append("  </groups>\n");
    out.append("</DecentSampler>\n");
    assert(out@ =~= dspreset_text(name@, *creator, *description, samples@, files@));
    out
}

/// The text of an `.sfz` instrument.
pub fn sfz_document(
    name: &str,
    creator: &Option<String>,
    description: &Option<String>,
    samples: &Vec<Sample>,
    files: &Vec<String>,
) -> (text: String)
    ensures
        text@ == sfz_text(name@, *creator, *description, samples@, files@),
{
    let mut out = String::from_str("// ");
    out.append(name);
    out.append(" - Generated by Batcherbird\n");
    push_optional_line(&mut out, "// Creator: ", creator, "\n");
    push_optional_line(&mut out, "// Description: ", description, "\n");
    out.append("\n");
    out.append("<control>\ndefault_path=samples/\n\n");
    out.append("<global>\nampeg_release=0.5\n\n");
    push_groups(&mut out, samples, files, false);
    assert(out@ =~= sfz_text(name@, *creator, *description, samples@, files@));
    out
}

} // verus!
