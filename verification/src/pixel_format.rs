use vstd::prelude::*;
use vstd::string::*;

use crate::text::{
    ascii_lowercase, owned, push_decimal, push_hex_padded, push_str, spec_ascii_lowercase,
    spec_decimal, spec_hex_padded, str_eq,
};

verus! {

/// The uncompressed pixel layouts carried by the compatibility stream profile.
#[derive(Clone, Copy, Debug, PartialEq, Eq, Structural)]
pub enum PixelFormat {
    Mono8,
    Mono16,
    BayerGr8,
    BayerRg8,
    BayerGb8,
    BayerBg8,
    Rgb8,
    Uyvy,
}

pub const MONO8_PFNC: u32 = 0x0108_0001;
pub const MONO16_PFNC: u32 = 0x0110_0007;
pub const BAYER_GR8_PFNC: u32 = 0x0108_0008;
pub const BAYER_RG8_PFNC: u32 = 0x0108_0009;
pub const BAYER_GB8_PFNC: u32 = 0x0108_000a;
pub const BAYER_BG8_PFNC: u32 = 0x0108_000b;
pub const RGB8_PFNC: u32 = 0x0218_0014;
pub const UYVY_PFNC: u32 = 0x0210_001f;

/// The PFNC code of a pixel format.
pub open spec fn spec_pfnc(f: PixelFormat) -> u32 {
    match f {
        PixelFormat::Mono8 => MONO8_PFNC,
        PixelFormat::Mono16 => MONO16_PFNC,
        PixelFormat::BayerGr8 => BAYER_GR8_PFNC,
        PixelFormat::BayerRg8 => BAYER_RG8_PFNC,
        PixelFormat::BayerGb8 => BAYER_GB8_PFNC,
        PixelFormat::BayerBg8 => BAYER_BG8_PFNC,
        PixelFormat::Rgb8 => RGB8_PFNC,
        PixelFormat::Uyvy => UYVY_PFNC,
    }
}

/// The pixel format whose PFNC code is `value`, if any.
pub open spec fn spec_from_pfnc(value: u32) -> Option<PixelFormat> {
    if value == MONO8_PFNC {
        Some(PixelFormat::Mono8)
    } else if value == MONO16_PFNC {
        Some(PixelFormat::Mono16)
    } else if value == BAYER_GR8_PFNC {
        Some(PixelFormat::BayerGr8)
    } else if value == BAYER_RG8_PFNC {
        Some(PixelFormat::BayerRg8)
    } else if value == BAYER_GB8_PFNC {
        Some(PixelFormat::BayerGb8)
    } else if value == BAYER_BG8_PFNC {
        Some(PixelFormat::BayerBg8)
    } else if value == RGB8_PFNC {
        Some(PixelFormat::Rgb8)
    } else if value == UYVY_PFNC {
        Some(PixelFormat::Uyvy)
    } else {
        None
    }
}

pub open spec fn spec_bytes_per_pixel(f: PixelFormat) -> nat {
    match f {
        PixelFormat::Mono16 | PixelFormat::Uyvy => 2,
        PixelFormat::Rgb8 => 3,
        _ => 1,
    }
}

pub open spec fn spec_media_type(f: PixelFormat) -> Seq<char> {
    match f {
        PixelFormat::BayerGr8 | PixelFormat::BayerRg8 | PixelFormat::BayerGb8
        | PixelFormat::BayerBg8 => "video/x-bayer"@,
        _ => "video/x-raw"@,
    }
}

pub open spec fn spec_gst_format(f: PixelFormat) -> Seq<char> {
    match f {
        PixelFormat::Mono8 => "GRAY8"@,
        PixelFormat::Mono16 => "GRAY16_LE"@,
        PixelFormat::BayerGr8 => "grbg"@,
        PixelFormat::BayerRg8 => "rggb"@,
        PixelFormat::BayerGb8 => "gbrg"@,
        PixelFormat::BayerBg8 => "bggr"@,
        PixelFormat::Rgb8 => "RGB"@,
        PixelFormat::Uyvy => "UYVY"@,
    }
}

/// The name of a pixel format as `Debug` prints it.
pub open spec fn spec_debug_name(f: PixelFormat) -> Seq<char> {
    match f {
        PixelFormat::Mono8 => "Mono8"@,
        PixelFormat::Mono16 => "Mono16"@,
        PixelFormat::BayerGr8 => "BayerGr8"@,
        PixelFormat::BayerRg8 => "BayerRg8"@,
        PixelFormat::BayerGb8 => "BayerGb8"@,
        PixelFormat::BayerBg8 => "BayerBg8"@,
        PixelFormat::Rgb8 => "Rgb8"@,
        PixelFormat::Uyvy => "Uyvy"@,
    }
}

/// Why a pixel format or a frame size was refused.
#[derive(Clone, Debug, PartialEq, Eq)]
pub enum PixelFormatError {
    UnsupportedPfnc(u32),
    UnsupportedCaps { media_type: String, format: String },
    InvalidDimensions { width: u32, height: u32 },
}

/// The text of a pixel-format error.
pub open spec fn spec_pixel_format_error_message(e: PixelFormatError) -> Seq<char> {
    match e {
        PixelFormatError::UnsupportedPfnc(v) => "unsupported PFNC pixel format 0x"@ + spec_hex_padded(
            v as nat,
            8,
        ),
        PixelFormatError::UnsupportedCaps { media_type, format } => "unsupported caps "@
            + media_type@ + " with format "@ + format@,
        PixelFormatError::InvalidDimensions { width, height } => "invalid frame dimensions "@
            + spec_decimal(width as nat) + "x"@ + spec_decimal(height as nat),
    }
}

impl PixelFormatError {
    /// The text of this error.
    pub fn message(&self) -> (r: String)
        ensures
            r@ == spec_pixel_format_error_message(*self),
    {
        match self {
            PixelFormatError::UnsupportedPfnc(v) => {
                let mut m = owned("unsupported PFNC pixel format 0x");
                push_hex_padded(&mut m, *v as u64, 8);
                m
            },
            PixelFormatError::UnsupportedCaps { media_type, format } => {
                let mut m = owned("unsupported caps ");
                push_str(&mut m, media_type.as_str());
                push_str(&mut m, " with format ");
                push_str(&mut m, format.as_str());
                m
            },
            PixelFormatError::InvalidDimensions { width, height } => {
                let mut m = owned("invalid frame dimensions ");
                push_decimal(&mut m, *width as u64);
                push_str(&mut m, "x");
                push_decimal(&mut m, *height as u64);
                m
            },
        }
    }
}

impl PixelFormat {
    /// Maps a PFNC code to its pixel format.
    pub fn from_pfnc(value: u32) -> (r: Result<PixelFormat, PixelFormatError>)
        ensures
            match spec_from_pfnc(value) {
                Some(f) => r == Ok::<PixelFormat, PixelFormatError>(f),
                None => r matches Err(PixelFormatError::UnsupportedPfnc(v)) && v == value,
            },
    {
        if value == MONO8_PFNC {
            Ok(PixelFormat::Mono8)
        } else if value == MONO16_PFNC {
            Ok(PixelFormat::Mono16)
        } else if value == BAYER_GR8_PFNC {
            Ok(PixelFormat::BayerGr8)
        } else if value == BAYER_RG8_PFNC {
            Ok(PixelFormat::BayerRg8)
        } else if value == BAYER_GB8_PFNC {
            Ok(PixelFormat::BayerGb8)
        } else if value == BAYER_BG8_PFNC {
            Ok(PixelFormat::BayerBg8)
        } else if value == RGB8_PFNC {
            Ok(PixelFormat::Rgb8)
        } else if value == UYVY_PFNC {
            Ok(PixelFormat::Uyvy)
        } else {
            Err(PixelFormatError::UnsupportedPfnc(value))
        }
    }

    /// The PFNC code of this pixel format.
    pub fn pfnc(self) -> (r: u32)
        ensures
            r == spec_pfnc(self),
    {
        match self {
            PixelFormat::Mono8 => MONO8_PFNC,
            PixelFormat::Mono16 => MONO16_PFNC,
            PixelFormat::BayerGr8 => BAYER_GR8_PFNC,
            PixelFormat::BayerRg8 => BAYER_RG8_PFNC,
            PixelFormat::BayerGb8 => BAYER_GB8_PFNC,
            PixelFormat::BayerBg8 => BAYER_BG8_PFNC,
            PixelFormat::Rgb8 => RGB8_PFNC,
            PixelFormat::Uyvy => UYVY_PFNC,
        }
    }

    /// The number of bytes that one pixel takes in the packed payload.
    pub fn bytes_per_pixel(self) -> (r: usize)
        ensures
            r == spec_bytes_per_pixel(self),
    {
        match self {
            PixelFormat::Mono16 | PixelFormat::Uyvy => 2,
            PixelFormat::Rgb8 => 3,
            _ => 1,
        }
    }
}


/// The pixel format named by a caps media type and format string, if any.
pub open spec fn spec_from_caps(media_type: Seq<char>, format: Seq<char>) -> Option<PixelFormat> {
    if media_type == "video/x-raw"@ && format == "GRAY8"@ {
        Some(PixelFormat::Mono8)
    } else if media_type == "video/x-raw"@ && format == "GRAY16_LE"@ {
        Some(PixelFormat::Mono16)
    } else if media_type == "video/x-raw"@ && format == "RGB"@ {
        Some(PixelFormat::Rgb8)
    } else if media_type == "video/x-raw"@ && format == "UYVY"@ {
        Some(PixelFormat::Uyvy)
    } else if media_type == "video/x-bayer"@ && format == "grbg"@ {
        Some(PixelFormat::BayerGr8)
    } else if media_type == "video/x-bayer"@ && format == "rggb"@ {
        Some(PixelFormat::BayerRg8)
    } else if media_type == "video/x-bayer"@ && format == "gbrg"@ {
        Some(PixelFormat::BayerGb8)
    } else if media_type == "video/x-bayer"@ && format == "bggr"@ {
        Some(PixelFormat::BayerBg8)
    } else {
        None
    }
}

/// The packed payload size of a `width` x `height` frame, when both are non-zero.
pub open spec fn spec_payload_len(f: PixelFormat, width: u32, height: u32) -> Option<nat> {
    if width == 0 || height == 0 {
        None
    } else {
        Some((width * height * spec_bytes_per_pixel(f)) as nat)
    }
}

/// A device register holds either a full PFNC code or its low 16 bits.
pub open spec fn spec_from_device_bits(value: u32) -> Option<PixelFormat> {
    match spec_from_pfnc(value) {
        Some(f) => Some(f),
        None => if value == MONO8_PFNC & 0xffff {
            Some(PixelFormat::Mono8)
        } else if value == MONO16_PFNC & 0xffff {
            Some(PixelFormat::Mono16)
        } else if value == BAYER_GR8_PFNC & 0xffff {
            Some(PixelFormat::BayerGr8)
        } else if value == BAYER_RG8_PFNC & 0xffff {
            Some(PixelFormat::BayerRg8)
        } else if value == BAYER_GB8_PFNC & 0xffff {
            Some(PixelFormat::BayerGb8)
        } else if value == BAYER_BG8_PFNC & 0xffff {
            Some(PixelFormat::BayerBg8)
        } else if value == RGB8_PFNC & 0xffff {
            Some(PixelFormat::Rgb8)
        } else if value == UYVY_PFNC & 0xffff {
            Some(PixelFormat::Uyvy)
        } else {
            None
        },
    }
}

/// The command-line spellings of a pixel format, after ASCII lower-casing.
pub open spec fn spec_from_arg(lowered: Seq<char>) -> Option<PixelFormat> {
    if lowered == "mono8"@ || lowered == "gray8"@ {
        Some(PixelFormat::Mono8)
    } else if lowered == "mono16"@ || lowered == "gray16"@ || lowered == "gray16_le"@ {
        Some(PixelFormat::Mono16)
    } else if lowered == "rgb"@ || lowered == "rgb8"@ {
        Some(PixelFormat::Rgb8)
    } else if lowered == "uyvy"@ {
        Some(PixelFormat::Uyvy)
    } else if lowered == "bayergr8"@ || lowered == "grbg"@ {
        Some(PixelFormat::BayerGr8)
    } else if lowered == "bayerrg8"@ || lowered == "rggb"@ {
        Some(PixelFormat::BayerRg8)
    } else if lowered == "bayergb8"@ || lowered == "gbrg"@ {
        Some(PixelFormat::BayerGb8)
    } else if lowered == "bayerbg8"@ || lowered == "bggr"@ {
        Some(PixelFormat::BayerBg8)
    } else {
        None
    }
}

impl PixelFormat {
    /// Maps a caps media type and format field to a pixel format.
    pub fn from_caps(media_type: &str, format: &str) -> (r: Result<PixelFormat, PixelFormatError>)
        ensures
            match spec_from_caps(media_type@, format@) {
                Some(f) => r == Ok::<PixelFormat, PixelFormatError>(f),
                None => r matches Err(PixelFormatError::UnsupportedCaps { media_type: m, format: g })
                    && m@ == media_type@ && g@ == format@,
            },
    {
        let raw = str_eq(media_type, "video/x-raw");
        let bayer = str_eq(media_type, "video/x-bayer");
        if raw && str_eq(format, "GRAY8") {
            Ok(PixelFormat::Mono8)
        } else if raw && str_eq(format, "GRAY16_LE") {
            Ok(PixelFormat::Mono16)
        } else if raw && str_eq(format, "RGB") {
            Ok(PixelFormat::Rgb8)
        } else if raw && str_eq(format, "UYVY") {
            Ok(PixelFormat::Uyvy)
        } else if bayer && str_eq(format, "grbg") {
            Ok(PixelFormat::BayerGr8)
        } else if bayer && str_eq(format, "rggb") {
            Ok(PixelFormat::BayerRg8)
        } else if bayer && str_eq(format, "gbrg") {
            Ok(PixelFormat::BayerGb8)
        } else if bayer && str_eq(format, "bggr") {
            Ok(PixelFormat::BayerBg8)
        } else {
            Err(
                PixelFormatError::UnsupportedCaps {
                    media_type: owned(media_type),
                    format: owned(format),
                },
            )
        }
    }

    /// The caps media type of this pixel format.
    pub fn media_type(self) -> (r: &'static str)
        ensures
            r@ == spec_media_type(self),
    {
        match self {
            PixelFormat::BayerGr8 | PixelFormat::BayerRg8 | PixelFormat::BayerGb8
            | PixelFormat::BayerBg8 => "video/x-bayer",
            _ => "video/x-raw",
        }
    }

    /// The name of this pixel format as `Debug` prints it.
    pub fn debug_name(self) -> (r: &'static str)
        ensures
            r@ == spec_debug_name(self),
    {
        match self {
            PixelFormat::Mono8 => "Mono8",
            PixelFormat::Mono16 => "Mono16",
            PixelFormat::BayerGr8 => "BayerGr8",
            PixelFormat::BayerRg8 => "BayerRg8",
            PixelFormat::BayerGb8 => "BayerGb8",
            PixelFormat::BayerBg8 => "BayerBg8",
            PixelFormat::Rgb8 => "Rgb8",
            PixelFormat::Uyvy => "Uyvy",
        }
    }

    /// The caps `format` field of this pixel format.
    pub fn gst_format(self) -> (r: &'static str)
        ensures
            r@ == spec_gst_format(self),
    {
        match self {
            PixelFormat::Mono8 => "GRAY8",
            PixelFormat::Mono16 => "GRAY16_LE",
            PixelFormat::BayerGr8 => "grbg",
            PixelFormat::BayerRg8 => "rggb",
            PixelFormat::BayerGb8 => "gbrg",
            PixelFormat::BayerBg8 => "bggr",
            PixelFormat::Rgb8 => "RGB",
            PixelFormat::Uyvy => "UYVY",
        }
    }

    /// The packed payload size of a `width` x `height` frame; zero dimensions are refused.
    pub fn payload_len(self, width: u32, height: u32) -> (r: Result<usize, PixelFormatError>)
        requires
            width * height * spec_bytes_per_pixel(self) <= usize::MAX,
        ensures
            match spec_payload_len(self, width, height) {
                Some(n) => r == Ok::<usize, PixelFormatError>(n as usize),
                None => r matches Err(PixelFormatError::InvalidDimensions { width: w, height: h })
                    && w == width && h == height,
            },
    {
        if width == 0 || height == 0 {
            return Err(PixelFormatError::InvalidDimensions { width, height });
        }
        let bpp = self.bytes_per_pixel();
        assert((width as usize) * (height as usize) <= width * height * spec_bytes_per_pixel(self))
            by (nonlinear_arith)
            requires
                spec_bytes_per_pixel(self) >= 1,
        ;
        let area = (width as usize) * (height as usize);
        Ok(area * bpp)
    }
}

/// Reads a device's pixel-format register, which holds a PFNC code or its low 16 bits.
pub fn pixel_format_from_device_bits(value: u32) -> (r: Option<PixelFormat>)
    ensures
        r == spec_from_device_bits(value),
{
    match PixelFormat::from_pfnc(value) {
        Ok(f) => Some(f),
        Err(_) => {
            if value == MONO8_PFNC & 0xffff {
                Some(PixelFormat::Mono8)
            } else if value == MONO16_PFNC & 0xffff {
                Some(PixelFormat::Mono16)
            } else if value == BAYER_GR8_PFNC & 0xffff {
                Some(PixelFormat::BayerGr8)
            } else if value == BAYER_RG8_PFNC & 0xffff {
                Some(PixelFormat::BayerRg8)
            } else if value == BAYER_GB8_PFNC & 0xffff {
                Some(PixelFormat::BayerGb8)
            } else if value == BAYER_BG8_PFNC & 0xffff {
                Some(PixelFormat::BayerBg8)
            } else if value == RGB8_PFNC & 0xffff {
                Some(PixelFormat::Rgb8)
            } else if value == UYVY_PFNC & 0xffff {
                Some(PixelFormat::Uyvy)
            } else {
                None
            }
        },
    }
}

/// Parses a command-line pixel-format name, case-insensitively; the error is the message.
pub fn parse_pixel_format_arg(value: &str) -> (r: Result<PixelFormat, String>)
    ensures
        match spec_from_arg(spec_ascii_lowercase(value@)) {
            Some(f) => r == Ok::<PixelFormat, String>(f),
            None => r matches Err(m) && m@ == "unsupported pixel format "@ + value@,
        },
{
    let lowered = ascii_lowercase(value);
    let l = lowered.as_str();
    if str_eq(l, "mono8") || str_eq(l, "gray8") {
        Ok(PixelFormat::Mono8)
    } else if str_eq(l, "mono16") || str_eq(l, "gray16") || str_eq(l, "gray16_le") {
        Ok(PixelFormat::Mono16)
    } else if str_eq(l, "rgb") || str_eq(l, "rgb8") {
        Ok(PixelFormat::Rgb8)
    } else if str_eq(l, "uyvy") {
        Ok(PixelFormat::Uyvy)
    } else if str_eq(l, "bayergr8") || str_eq(l, "grbg") {
        Ok(PixelFormat::BayerGr8)
    } else if str_eq(l, "bayerrg8") || str_eq(l, "rggb") {
        Ok(PixelFormat::BayerRg8)
    } else if str_eq(l, "bayergb8") || str_eq(l, "gbrg") {
        Ok(PixelFormat::BayerGb8)
    } else if str_eq(l, "bayerbg8") || str_eq(l, "bggr") {
        Ok(PixelFormat::BayerBg8)
    } else {
        let mut m = owned("unsupported pixel format ");
        m.append(value);
        Err(m)
    }
}

/// The caps fields of a format name that format back.
pub proof fn lemma_caps_round_trip(f: PixelFormat)
    ensures
        spec_from_caps(spec_media_type(f), spec_gst_format(f)) == Some(f),
{
    reveal_strlit("video/x-raw");
    reveal_strlit("video/x-bayer");
    reveal_strlit("GRAY8");
    reveal_strlit("GRAY16_LE");
    reveal_strlit("RGB");
    reveal_strlit("UYVY");
    reveal_strlit("grbg");
    reveal_strlit("rggb");
    reveal_strlit("gbrg");
    reveal_strlit("bggr");
    assert("video/x-raw"@.len() != "video/x-bayer"@.len());
    assert("GRAY8"@.len() != "GRAY16_LE"@.len());
    assert("GRAY8"@.len() != "RGB"@.len());
    assert("GRAY8"@.len() != "UYVY"@.len());
    assert("GRAY16_LE"@.len() != "RGB"@.len());
    assert("GRAY16_LE"@.len() != "UYVY"@.len());
    assert("RGB"@.len() != "UYVY"@.len());
    assert("grbg"@[0] != "rggb"@[0]);
    assert("grbg"@[1] != "gbrg"@[1]);
    assert("grbg"@[0] != "bggr"@[0]);
    assert("rggb"@[0] != "gbrg"@[0]);
    assert("rggb"@[0] != "bggr"@[0]);
    assert("gbrg"@[0] != "bggr"@[0]);
}

/// Distinct pixel formats have distinct PFNC codes.
pub proof fn lemma_pfnc_injective(f: PixelFormat, g: PixelFormat)
    ensures
        spec_pfnc(f) == spec_pfnc(g) ==> f == g,
{
    lemma_pfnc_round_trip(f);
    lemma_pfnc_round_trip(g);
}

/// A register holding the full PFNC code, or its low 16 bits, reads back as that format.
pub proof fn lemma_device_bits_round_trip(f: PixelFormat)
    ensures
        spec_from_device_bits(spec_pfnc(f)) == Some(f),
        spec_from_device_bits(spec_pfnc(f) & 0xffff) == Some(f),
{
    assert(MONO8_PFNC & 0xffff == 1) by (bit_vector);
    assert(MONO16_PFNC & 0xffff == 7) by (bit_vector);
    assert(BAYER_GR8_PFNC & 0xffff == 8) by (bit_vector);
    assert(BAYER_RG8_PFNC & 0xffff == 9) by (bit_vector);
    assert(BAYER_GB8_PFNC & 0xffff == 10) by (bit_vector);
    assert(BAYER_BG8_PFNC & 0xffff == 11) by (bit_vector);
    assert(RGB8_PFNC & 0xffff == 0x14) by (bit_vector);
    assert(UYVY_PFNC & 0xffff == 0x1f) by (bit_vector);
}

/// Decoding a PFNC code undoes encoding it.
pub proof fn lemma_pfnc_round_trip(f: PixelFormat)
    ensures
        spec_from_pfnc(spec_pfnc(f)) == Some(f),
{
}

} // verus!
