use crate::stream_format::{encoding_name, SampleEncoding, StreamFormat};
use vstd::prelude::*;

verus! {

/// Snapshot of the default output device and its configured stream format.
#[derive(Debug, Clone)]
pub struct AudioOutputInfo {
    pub device_name: String,
    pub device_id: String,
    pub sample_rate: u32,
    pub bit_depth: u16,
    pub channel_count: u16,
    pub is_default: bool,
    /// "PCM", "IEEE Float" or "Unknown".
    pub format_tag: String,
}

/// Format reported when neither the device property nor the mix format can be read.
pub open spec fn fallback_format() -> StreamFormat {
    StreamFormat {
        sample_rate: 48000,
        bit_depth: 32,
        channel_count: 2,
        encoding: SampleEncoding::IeeeFloat,
    }
}

/// The configured device format if it was readable, else the mix format, else the fallback.
pub open spec fn effective_format(
    device_format: Option<StreamFormat>,
    mix_format: Option<StreamFormat>,
) -> StreamFormat {
    match device_format {
        Some(f) => f,
        None => match mix_format {
            Some(f) => f,
            None => fallback_format(),
        },
    }
}

/// The name shown for a device: its friendly name, or a placeholder when that
/// could not be read or is empty.
pub open spec fn display_name(name: Option<Seq<char>>) -> Seq<char> {
    match name {
        Some(n) => if n.len() > 0 {
            n
        } else {
            "Unknown Device"@
        },
        None => "Unknown Device"@,
    }
}

/// Assembles the output-device snapshot from what the platform query returned:
/// the endpoint identifier, its friendly name (`None` when unreadable), the
/// configured device format and the shared-mode mix format (`None` when unreadable).
pub fn resolve_output_info(
    device_id: String,
    device_name: Option<String>,
    device_format: Option<StreamFormat>,
    mix_format: Option<StreamFormat>,
) -> (r: AudioOutputInfo)
    ensures
        r.device_id@ == device_id@,
        r.device_name@ == display_name(
            match device_name {
                Some(n) => Some(n@),
                None => None,
            },
        ),
        r.sample_rate == effective_format(device_format, mix_format).sample_rate,
        r.bit_depth == effective_format(device_format, mix_format).bit_depth,
        r.channel_count == effective_format(device_format, mix_format).channel_count,
        r.format_tag@ == encoding_name(effective_format(device_format, mix_format).encoding),
        r.is_default,
{
    let name = match device_name {
        Some(n) => if n.as_str().is_empty() {
            String::from_str("Unknown Device")
        } else {
            n
        },
        None => String::from_str("Unknown Device"),
    };
    let format = match device_format {
        Some(f) => f,
        None => match mix_format {
            Some(f) => f,
            None => StreamFormat {
                sample_rate: 48000,
                bit_depth: 32,
                channel_count: 2,
                encoding: SampleEncoding::IeeeFloat,
            },
        },
    };
    AudioOutputInfo {
        device_name: name,
        device_id,
        sample_rate: format.sample_rate,
        bit_depth: format.bit_depth,
        channel_count: format.channel_count,
        is_default: true,
        format_tag: String::from_str(format.encoding.tag_name()),
    }
}

} // verus!
