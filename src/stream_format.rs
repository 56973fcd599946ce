use crate::sample_decoder::{le_unsigned, read_le};
use vstd::prelude::*;

verus! {

/// Format tag of plain integer PCM.
pub const WAVE_FORMAT_PCM: u16 = 1;

/// Format tag of 32-bit IEEE float samples.
pub const WAVE_FORMAT_IEEE_FLOAT: u16 = 3;

/// Format tag of the extensible header, whose sub-format identifier decides the encoding.
pub const WAVE_FORMAT_EXTENSIBLE: u16 = 0xFFFE;

/// Size of the basic wave format header.
pub const WAVE_FORMAT_HEADER_LEN: usize = 18;

/// Offset of the sub-format identifier in the extensible header.
pub const SUBFORMAT_OFFSET: usize = 24;

/// Size of the extensible header, sub-format identifier included.
pub const WAVE_FORMAT_EXTENSIBLE_LEN: usize = 40;

/// Property-variant type of a binary blob.
pub const VT_BLOB: u16 = 65;

/// How samples of a stream are encoded.
#[derive(Debug, Clone, Copy, PartialEq, Eq, Structural)]
pub enum SampleEncoding {
    Pcm,
    IeeeFloat,
    Unknown,
}

/// What the metering core needs to know of a stream format.
#[derive(Debug, Clone, Copy, PartialEq, Eq, Structural)]
pub struct StreamFormat {
    pub sample_rate: u32,
    pub bit_depth: u16,
    pub channel_count: u16,
    pub encoding: SampleEncoding,
}

/// The sub-format identifier at `SUBFORMAT_OFFSET` is the IEEE float one,
/// 00000003-0000-0010-8000-00aa00389b71, in its in-memory byte order.
pub open spec fn is_float_subformat(b: Seq<u8>) -> bool {
    &&& b.len() >= 40
    &&& le_unsigned(b, 24, 4) == 3
    &&& le_unsigned(b, 28, 2) == 0
    &&& le_unsigned(b, 30, 2) == 0x10
    &&& le_unsigned(b, 32, 4) == 0xaa00_0080
    &&& le_unsigned(b, 36, 4) == 0x719b_3800
}

/// Encoding named by a wave format header.
pub open spec fn encoding_of(b: Seq<u8>) -> SampleEncoding {
    let tag = le_unsigned(b, 0, 2);
    if tag == 1 {
        SampleEncoding::Pcm
    } else if tag == 3 {
        SampleEncoding::IeeeFloat
    } else if tag == 0xFFFE {
        if is_float_subformat(b) {
            SampleEncoding::IeeeFloat
        } else {
            SampleEncoding::Pcm
        }
    } else {
        SampleEncoding::Unknown
    }
}

/// The stream format that a wave format header of at least 18 bytes describes.
pub open spec fn format_of(b: Seq<u8>) -> StreamFormat {
    StreamFormat {
        sample_rate: le_unsigned(b, 4, 4) as u32,
        bit_depth: le_unsigned(b, 14, 2) as u16,
        channel_count: le_unsigned(b, 2, 2) as u16,
        encoding: encoding_of(b),
    }
}

/// Text shown for an encoding.
pub open spec fn encoding_name(e: SampleEncoding) -> Seq<char> {
    match e {
        SampleEncoding::Pcm => "PCM"@,
        SampleEncoding::IeeeFloat => "IEEE Float"@,
        SampleEncoding::Unknown => "Unknown"@,
    }
}

impl SampleEncoding {
    /// Text shown for this encoding.
    pub fn tag_name(&self) -> (r: &'static str)
        ensures
            r@ == encoding_name(*self),
    {
        match self {
            SampleEncoding::Pcm => "PCM",
            SampleEncoding::IeeeFloat => "IEEE Float",
            SampleEncoding::Unknown => "Unknown",
        }
    }
}

impl StreamFormat {
    /// Samples are 32-bit floats rather than integers.
    pub fn is_float(&self) -> (r: bool)
        ensures
            r == (self.encoding == SampleEncoding::IeeeFloat),
    {
        self.encoding == SampleEncoding::IeeeFloat
    }

    /// Bytes in one sample of one channel.
    pub fn bytes_per_sample(&self) -> (r: u16)
        ensures
            r == self.bit_depth / 8,
    {
        self.bit_depth / 8
    }
}

fn float_subformat_present(bytes: &[u8]) -> (r: bool)
    ensures
        r == is_float_subformat(bytes@),
{
    if bytes.len() < WAVE_FORMAT_EXTENSIBLE_LEN {
        false
    } else {
        read_le(bytes, 24, 4) == 3 && read_le(bytes, 28, 2) == 0 && read_le(bytes, 30, 2) == 0x10
            && read_le(bytes, 32, 4) == 0xaa00_0080 && read_le(bytes, 36, 4) == 0x719b_3800
    }
}

/// Bytes that a wave format header with this tag and extension size occupies:
/// plain PCM headers carry no extension.
pub fn wave_format_size(tag: u16, extension_size: u16) -> (r: usize)
    ensures
        r == if tag == WAVE_FORMAT_PCM {
            18
        } else {
            18 + extension_size
        },
{
    if tag == WAVE_FORMAT_PCM {
        WAVE_FORMAT_HEADER_LEN
    } else {
        WAVE_FORMAT_HEADER_LEN + extension_size as usize
    }
}

/// Decodes a wave format header as laid out in memory: format tag, channel count,
/// sample rate and bits per sample, with the extensible header's sub-format deciding
/// between float and integer samples. Headers shorter than 18 bytes give `None`.
pub fn parse_wave_format(bytes: &[u8]) -> (r: Option<StreamFormat>)
    ensures
        r is None <==> bytes@.len() < 18,
        r is Some ==> r->0 == format_of(bytes@),
{
    if bytes.len() < WAVE_FORMAT_HEADER_LEN {
        return None;
    }
    let tag = read_le(bytes, 0, 2);
    let channels = read_le(bytes, 2, 2);
    let rate = read_le(bytes, 4, 4);
    let bits = read_le(bytes, 14, 2);
    let encoding = if tag == WAVE_FORMAT_PCM as u64 {
        SampleEncoding::Pcm
    } else if tag == WAVE_FORMAT_IEEE_FLOAT as u64 {
        SampleEncoding::IeeeFloat
    } else if tag == WAVE_FORMAT_EXTENSIBLE as u64 {
        if float_subformat_present(bytes) {
            SampleEncoding::IeeeFloat
        } else {
            SampleEncoding::Pcm
        }
    } else {
        SampleEncoding::Unknown
    };
    Some(
        StreamFormat {
            sample_rate: rate as u32,
            bit_depth: bits as u16,
            channel_count: channels as u16,
            encoding,
        },
    )
}

/// The device format stored as an endpoint property: it must be a blob
/// (`VT_BLOB`), present, and hold a whole wave format header.
pub fn device_format_from_property(variant_type: u16, blob: Option<&[u8]>) -> (r: Option<StreamFormat>)
    ensures
        r is Some <==> (variant_type == VT_BLOB && blob is Some && blob->0@.len() >= 18),
        r is Some ==> r->0 == format_of(blob->0@),
{
    if variant_type != VT_BLOB {
        return None;
    }
    match blob {
        Some(b) => parse_wave_format(b),
        None => None,
    }
}

} // verus!
