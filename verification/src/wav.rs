//! WAVE encoding of quantized sample data.
//!
//! The container itself is written by the `hound` crate, into memory. What
//! is decided here is which layouts and sample values may be handed to it.

use vstd::prelude::*;

verus! {

#[verifier::external_type_specification]
#[verifier::external_body]
pub struct ExHoundError(hound::Error);

/// How the samples of a WAVE file are laid out.
#[derive(Debug, Clone, Copy, PartialEq, Eq)]
pub struct WavLayout {
    pub channels: u16,
    pub sample_rate: u32,
    pub bits_per_sample: u16,
    /// Samples are single-precision words rather than integers.
    pub float: bool,
}

impl WavLayout {
    /// Bytes that one sample takes in the file: two at 16 bits, three at
    /// 24, four at 32.
    pub open spec fn bytes_per_sample(self) -> int {
        if self.bits_per_sample == 16 {
            2
        } else if self.bits_per_sample == 24 {
            3
        } else if self.bits_per_sample == 32 {
            4
        } else {
            self.bits_per_sample as int / 8
        }
    }

    /// Bytes that `count` samples take in the file.
    pub open spec fn span(self, count: int) -> int {
        if self.bits_per_sample == 16 {
            2 * count
        } else if self.bits_per_sample == 24 {
            3 * count
        } else if self.bits_per_sample == 32 {
            4 * count
        } else {
            self.bytes_per_sample() * count
        }
    }

    /// Bytes that a second of audio takes: those of as many samples as the
    /// sample rate times the channels.
    pub open spec fn byte_rate(self) -> int {
        self.span(self.sample_rate as int * self.channels as int)
    }

    /// The layouts that the encoder writes: at least one channel, a positive
    /// sample rate whose byte rate fits 32 bits, and 16, 24 or 32 bits per
    /// sample, words only at 32 bits.
    pub open spec fn writable(self) -> bool {
        &&& self.channels >= 1
        &&& self.sample_rate >= 1
        &&& (self.bits_per_sample == 16 || self.bits_per_sample == 24 || self.bits_per_sample
            == 32)
        &&& (self.float ==> self.bits_per_sample == 32)
        &&& self.byte_rate() <= u32::MAX
    }

    /// Whether `count` samples fit the 32-bit sizes of the container.
    pub open spec fn holds(self, count: int) -> bool {
        self.span(count) + 64 <= u32::MAX
    }

    /// Whether a value can be stored at this bit depth.
    pub open spec fn fits(self, value: i32) -> bool {
        if self.bits_per_sample == 16 {
            -32768 <= value <= 32767
        } else if self.bits_per_sample == 24 {
            -8_388_608 <= value <= 8_388_607
        } else {
            true
        }
    }
}

/// The number that two bytes hold, lowest byte first.
pub open spec fn le16(bytes: Seq<u8>, at: int) -> int {
    bytes[at] + 256 * bytes[at + 1]
}

/// The number that three bytes hold, lowest byte first.
pub open spec fn le24(bytes: Seq<u8>, at: int) -> int {
    bytes[at] + 256 * bytes[at + 1] + 65536 * bytes[at + 2]
}

/// The number that four bytes hold, lowest byte first.
pub open spec fn le32(bytes: Seq<u8>, at: int) -> int {
    bytes[at] + 256 * bytes[at + 1] + 65536 * bytes[at + 2] + 16777216 * bytes[at + 3]
}

/// The four bytes from `at` on are the given characters.
pub open spec fn tagged(bytes: Seq<u8>, at: int, a: char, b: char, c: char, d: char) -> bool {
    bytes[at] == a as u8 && bytes[at + 1] == b as u8 && bytes[at + 2] == c as u8 && bytes[at + 3]
        == d as u8
}

impl WavLayout {
    /// Whether the file carries the extensible form of the `fmt ` chunk:
    /// it does above 16 bits and above two channels.
    pub open spec fn extensible(self) -> bool {
        self.channels > 2 || self.bits_per_sample > 16
    }

    /// Bytes before the first sample: 44, or 68 with the extensible form.
    pub open spec fn header_len(self) -> int {
        if self.extensible() {
            68
        } else {
            44
        }
    }

    /// The format tag: 1, for integer samples, in the plain form, and
    /// 0xFFFE in the extensible form, which names the kind of sample in its
    /// sub-format instead.
    pub open spec fn format_tag(self) -> int {
        if self.extensible() {
            0xFFFE
        } else {
            1
        }
    }

    /// What the sub-format of the extensible form starts with: 3 for
    /// words, 1 for integers.
    pub open spec fn sub_format(self) -> int {
        if self.float {
            3
        } else {
            1
        }
    }

    /// The number that the bytes of a stored value hold: the value itself,
    /// or for a value below zero its two's complement at the bit depth.
    pub open spec fn stored(self, value: i32) -> int {
        if value >= 0 {
            value as int
        } else if self.bits_per_sample == 16 {
            value + 0x1_0000
        } else if self.bits_per_sample == 24 {
            value + 0x100_0000
        } else {
            value + 0x1_0000_0000
        }
    }

    /// The number that the bytes of the sample from `at` on hold.
    pub open spec fn sample_at(self, bytes: Seq<u8>, at: int) -> int {
        if self.bits_per_sample == 16 {
            le16(bytes, at)
        } else if self.bits_per_sample == 24 {
            le24(bytes, at)
        } else {
            le32(bytes, at)
        }
    }

    /// Whether every value can be stored at this bit depth.
    pub open spec fn all_fit(self, samples: Seq<i32>) -> bool {
        forall|i: int| 0 <= i < samples.len() ==> self.fits(#[trigger] samples[i])
    }
}

/// What is known of the bytes of a WAVE file for a writable layout and
/// its interleaved samples.
///
/// The file is a RIFF container of the kind WAVE, whose size field counts
/// the bytes after it. It holds one `fmt ` chunk, of 16 bytes in the plain
/// form and of 40 in the extensible, with the format tag, the channel
/// count, the sample rate and the bits per sample; in the extensible form
/// the bits per sample stand a second time and the sub-format says whether
/// the samples are integers or words. One `data` chunk follows, which
/// holds the samples in order and nothing else, each in two, three or four
/// bytes, lowest byte first.
pub open spec fn is_wave_file(bytes: Seq<u8>, layout: WavLayout, samples: Seq<i32>) -> bool {
    let start = layout.header_len();
    &&& bytes.len() == start + layout.span(samples.len() as int)
    &&& tagged(bytes, 0, 'R', 'I', 'F', 'F')
    &&& le32(bytes, 4) == bytes.len() - 8
    &&& tagged(bytes, 8, 'W', 'A', 'V', 'E')
    &&& tagged(bytes, 12, 'f', 'm', 't', ' ')
    &&& le32(bytes, 16) == start - 28
    &&& le16(bytes, 20) == layout.format_tag()
    &&& le16(bytes, 22) == layout.channels
    &&& le32(bytes, 24) == layout.sample_rate
    &&& le16(bytes, 34) == layout.bits_per_sample
    &&& layout.extensible() ==> le16(bytes, 38) == layout.bits_per_sample && le16(bytes, 44)
        == layout.sub_format()
    &&& tagged(bytes, start - 8, 'd', 'a', 't', 'a')
    &&& le32(bytes, start - 4) == layout.span(samples.len() as int)
    &&& forall|k: int|
        0 <= k < samples.len() ==> layout.sample_at(bytes, start + layout.span(k))
            == layout.stored(#[trigger] samples[k])
}

/// The bytes of the WAVE file that `hound` writes for a layout and its
/// interleaved samples.
pub uninterp spec fn hound_wav_bytes(
    channels: u16,
    sample_rate: u32,
    bits_per_sample: u16,
    float: bool,
    samples: Seq<i32>,
) -> Seq<u8>;

/// `hound::WavWriter::new`, `write_sample` for each sample in order, and
/// `finalize`, on a writer over a cursor in memory.
///
/// The writer refuses a bit depth other than 8, 16, 24 and 32, a value
/// that does not fit the bit depth, and samples that are not whole frames;
/// these apart it fails only where the writer beneath it does, and writing
/// to the cursor and seeking within what was written do not fail. So the
/// result is `Ok` when every value fits and the samples are whole frames.
/// The bytes of an `Ok` are the file named by `hound_wav_bytes`, and of
/// them holds what `is_wave_file` says: the header that `write_headers`
/// lays out, plain up to 16 bits and two channels and extensible above,
/// the sizes that `finalize` fills in, and each sample as `write_padded`
/// stores it. At 32 bits the four bytes of a value are stored as they are,
/// so that words go in as the integers of their bit patterns. The layouts
/// left out by `requires` are those on which the writer divides by zero or
/// overflows its 32-bit counters.
#[verifier::external_body]
pub(crate) fn hound_encode(layout: &WavLayout, samples: &Vec<i32>) -> (r: Result<
    Vec<u8>,
    hound::Error,
>)
    requires
        layout.writable(),
        layout.holds(samples@.len() as int),
    ensures
        layout.all_fit(samples@) && samples@.len() % (layout.channels as nat) == 0 ==> r is Ok,
        r matches Ok(bytes) ==> bytes@ == hound_wav_bytes(
            layout.channels,
            layout.sample_rate,
            layout.bits_per_sample,
            layout.float,
            samples@,
        ),
        r matches Ok(bytes) ==> is_wave_file(bytes@, *layout, samples@),
{
    let spec = hound::WavSpec {
        channels: layout.channels,
        sample_rate: layout.sample_rate,
        bits_per_sample: layout.bits_per_sample,
        sample_format: if layout.float { hound::SampleFormat::Float } else { hound::SampleFormat::Int },
    };
    let mut cursor = std::io::Cursor::new(Vec::new());
    let mut writer = hound::WavWriter::new(&mut cursor, spec)?;
    for s in samples.iter() {
        writer.write_sample(*s)?;
    }
    writer.finalize()?;
    Ok(cursor.into_inner())
}

/// The number that two bytes hold, lowest byte first.
fn read16(bytes: &[u8], at: usize) -> (v: u64)
    requires
        at + 2 <= bytes@.len(),
    ensures
        v == le16(bytes@, at as int),
{
    bytes[at] as u64 + 256 * (bytes[at + 1] as u64)
}

/// The number that three bytes hold, lowest byte first.
fn read24(bytes: &[u8], at: usize) -> (v: u64)
    requires
        at + 3 <= bytes@.len(),
    ensures
        v == le24(bytes@, at as int),
{
    bytes[at] as u64 + 256 * (bytes[at + 1] as u64) + 65536 * (bytes[at + 2] as u64)
}

/// The number that four bytes hold, lowest byte first.
fn read32(bytes: &[u8], at: usize) -> (v: u64)
    requires
        at + 4 <= bytes@.len(),
    ensures
        v == le32(bytes@, at as int),
{
    bytes[at] as u64 + 256 * (bytes[at + 1] as u64) + 65536 * (bytes[at + 2] as u64) + 16777216 * (
    bytes[at + 3] as u64)
}

/// Whether the four bytes from `at` on are the given characters.
fn has_tag(bytes: &[u8], at: usize, a: char, b: char, c: char, d: char) -> (r: bool)
    requires
        at + 4 <= bytes@.len(),
    ensures
        r == tagged(bytes@, at as int, a, b, c, d),
{
    bytes[at] == a as u8 && bytes[at + 1] == b as u8 && bytes[at + 2] == c as u8 && bytes[at + 3]
        == d as u8
}

impl WavLayout {
    /// Whether the layout can be written and `count` samples fit the
    /// sizes of the container.
    pub fn can_hold(&self, count: usize) -> (r: bool)
        ensures
            r == (self.writable() && self.holds(count as int)),
    {
        if self.channels == 0 || self.sample_rate == 0 {
            return false;
        }
        if !(self.bits_per_sample == 16 || self.bits_per_sample == 24 || self.bits_per_sample
            == 32) {
            return false;
        }
        if self.float && self.bits_per_sample != 32 {
            return false;
        }
        let rate: u64 = self.sample_rate as u64;
        let channels: u64 = self.channels as u64;
        assert(rate * channels <= 0xFFFF_FFFF * 0xFFFF) by (nonlinear_arith)
            requires
                rate <= 0xFFFF_FFFF,
                channels <= 0xFFFF,
        ;
        let per_second: u64 = rate * channels;
        if self.bits_per_sample == 16 {
            per_second <= (u32::MAX as u64) / 2 && count as u64 <= (u32::MAX as u64 - 64) / 2
        } else if self.bits_per_sample == 24 {
            per_second <= (u32::MAX as u64) / 3 && count as u64 <= (u32::MAX as u64 - 64) / 3
        } else {
            per_second <= (u32::MAX as u64) / 4 && count as u64 <= (u32::MAX as u64 - 64) / 4
        }
    }
}

/// Whether the bytes are a WAVE file for the layout and the samples, as
/// far as `is_wave_file` describes it, and the layout is one that is
/// written.
pub fn holds_wave_file(bytes: &[u8], layout: &WavLayout, samples: &Vec<i32>) -> (r: bool)
    ensures
        r == (layout.writable() && layout.holds(samples@.len() as int) && is_wave_file(
            bytes@,
            *layout,
            samples@,
        )),
{
    if !layout.can_hold(samples.len()) {
        return false;
    }
    let width: usize = (layout.bits_per_sample / 8) as usize;
    let start: usize = if layout.channels > 2 || layout.bits_per_sample > 16 {
        68
    } else {
        44
    };
    let count: usize = samples.len();
    let size: u64 = if layout.bits_per_sample == 16 {
        2 * (count as u64)
    } else if layout.bits_per_sample == 24 {
        3 * (count as u64)
    } else {
        4 * (count as u64)
    };
    let length: u64 = start as u64 + size;
    if bytes.len() as u64 != length {
        return false;
    }
    let header: bool = has_tag(bytes, 0, 'R', 'I', 'F', 'F') && read32(bytes, 4) == length - 8
        && has_tag(bytes, 8, 'W', 'A', 'V', 'E') && has_tag(bytes, 12, 'f', 'm', 't', ' ')
        && read32(bytes, 16) == start as u64 - 28 && read16(bytes, 20) == (if start == 68 {
        0xFFFE
    } else {
        1
    }) && read16(bytes, 22) == layout.channels as u64 && read32(bytes, 24)
        == layout.sample_rate as u64 && read16(bytes, 34) == layout.bits_per_sample as u64 && (
    start != 68 || (read16(bytes, 38) == layout.bits_per_sample as u64 && read16(bytes, 44) == (
    if layout.float {
        3
    } else {
        1
    }))) && has_tag(bytes, start - 8, 'd', 'a', 't', 'a') && read32(bytes, start - 4)
        == size;
    if !header {
        return false;
    }
    let total: usize = bytes.len();
    let mut k: usize = 0;
    let mut at: usize = start;
    while k < count
        invariant
            k <= count,
            total == bytes@.len(),
            count == samples@.len(),
            at == start + layout.span(k as int),
            width == layout.bytes_per_sample(),
            start == layout.header_len(),
            bytes@.len() == start + layout.span(count as int),
            layout.bits_per_sample == 16 || layout.bits_per_sample == 24 || layout.bits_per_sample
                == 32,
            forall|j: int|
                0 <= j < k ==> layout.sample_at(bytes@, start + layout.span(j)) == layout.stored(
                    #[trigger] samples@[j],
                ),
        decreases count - k,
    {
        let held: u64 = if layout.bits_per_sample == 16 {
            read16(bytes, at)
        } else if layout.bits_per_sample == 24 {
            read24(bytes, at)
        } else {
            read32(bytes, at)
        };
        let value: i64 = samples[k] as i64;
        let stored: i64 = if value >= 0 {
            value
        } else if layout.bits_per_sample == 16 {
            value + 0x1_0000
        } else if layout.bits_per_sample == 24 {
            value + 0x100_0000
        } else {
            value + 0x1_0000_0000
        };
        if held as i64 != stored {
            assert(layout.sample_at(bytes@, start + layout.span(k as int)) != layout.stored(
                samples@[k as int],
            ));
            return false;
        }
        k = k + 1;
        at = at + width;
    }
    true
}

/// The words of a `hound::Error`, as its `Display` gives them.
#[verifier::external_body]
pub(crate) fn hound_error_text(e: &hound::Error) -> (s: String) {
    format!("{}", e)
}

} // verus!
