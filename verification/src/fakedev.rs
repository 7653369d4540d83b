use vstd::prelude::*;

use crate::capture::SyntheticCaptureConfig;
use crate::device::DeviceSettings;
use crate::pixel_format::{parse_pixel_format_arg, spec_from_arg, PixelFormat};
use crate::text::{is_blank, owned, spec_ascii_lowercase, spec_trim};

verus! {

/// How a fake device runs: where it listens (an IPv4 address as a number, and a port), the
/// interface and address it advertises, its stream's name and format, the format it
/// transmits in where that differs, its rate and its MTU.
#[derive(Clone, Debug, PartialEq, Eq)]
pub struct FakeDeviceConfig {
    pub bind_ip: u32,
    pub bind_port: u16,
    pub interface_name: Option<String>,
    pub advertise_address: Option<u32>,
    pub stream_name: String,
    pub width: u32,
    pub height: u32,
    pub pixel_format: PixelFormat,
    pub transmit_pixel_format: Option<PixelFormat>,
    pub fps: u32,
    pub mtu: u16,
}

impl Default for FakeDeviceConfig {
    /// Listens on every address at port 5683 and streams 1280x720 UYVY at 30 frames per
    /// second in 1200-byte packets.
    fn default() -> (r: Self)
        ensures
            r.bind_ip == 0,
            r.bind_port == 5683,
            r.interface_name is None,
            r.advertise_address is None,
            r.stream_name@ == "stream0"@,
            r.width == 1280,
            r.height == 720,
            r.pixel_format == PixelFormat::Uyvy,
            r.transmit_pixel_format is None,
            r.fps == 30,
            r.mtu == 1200,
    {
        FakeDeviceConfig {
            bind_ip: 0,
            bind_port: 5683,
            interface_name: None,
            advertise_address: None,
            stream_name: owned("stream0"),
            width: 1280,
            height: 720,
            pixel_format: PixelFormat::Uyvy,
            transmit_pixel_format: None,
            fps: 30,
            mtu: 1200,
        }
    }
}

/// The format a fake device transmits in: the override where there is one.
pub open spec fn spec_effective_transmit(c: FakeDeviceConfig) -> PixelFormat {
    match c.transmit_pixel_format {
        Some(f) => f,
        None => c.pixel_format,
    }
}

/// Why a fake device configuration is refused, if it is: a blank stream name, a zero
/// dimension, a zero rate, or an odd width for UYVY.
pub open spec fn spec_fake_config_problem(c: FakeDeviceConfig) -> Option<Seq<char>> {
    if spec_trim(c.stream_name@).len() == 0 {
        Some("stream name must not be empty"@)
    } else if c.width == 0 || c.height == 0 {
        Some("frame size must be non-zero"@)
    } else if c.fps == 0 {
        Some("fps must be greater than zero"@)
    } else if spec_effective_transmit(c) == PixelFormat::Uyvy && c.width % 2 != 0 {
        Some("UYVY test-pattern width must be even"@)
    } else {
        None
    }
}

impl FakeDeviceConfig {
    /// The format the device transmits in.
    pub fn effective_transmit_pixel_format(&self) -> (r: PixelFormat)
        ensures
            r == spec_effective_transmit(*self),
    {
        match self.transmit_pixel_format {
            Some(f) => f,
            None => self.pixel_format,
        }
    }

    /// Checks the configuration before the device starts.
    pub fn validate(&self) -> (r: Result<(), String>)
        ensures
            match spec_fake_config_problem(*self) {
                Some(m) => r matches Err(e) && e@ == m,
                None => r is Ok,
            },
    {
        if is_blank(self.stream_name.as_str()) {
            return Err(owned("stream name must not be empty"));
        }
        if self.width == 0 || self.height == 0 {
            return Err(owned("frame size must be non-zero"));
        }
        if self.fps == 0 {
            return Err(owned("fps must be greater than zero"));
        }
        if self.effective_transmit_pixel_format() == PixelFormat::Uyvy && self.width % 2 != 0 {
            return Err(owned("UYVY test-pattern width must be even"));
        }
        Ok(())
    }

    /// The device settings: a fake device lets hosts change its format.
    pub fn runtime_config(&self) -> (r: DeviceSettings)
        ensures
            r.stream_name@ == self.stream_name@,
            r.width == self.width,
            r.height == self.height,
            r.pixel_format == self.pixel_format,
            r.fps == self.fps,
            r.mtu == self.mtu,
            !r.enforce_fixed_format,
    {
        DeviceSettings {
            stream_name: self.stream_name.clone(),
            width: self.width,
            height: self.height,
            pixel_format: self.pixel_format,
            fps: self.fps,
            mtu: self.mtu,
            enforce_fixed_format: false,
        }
    }

    /// The configuration of the synthetic source: the transmit override.
    pub fn capture_config(&self) -> (r: SyntheticCaptureConfig)
        ensures
            r.transmit_pixel_format == self.transmit_pixel_format,
    {
        SyntheticCaptureConfig { transmit_pixel_format: self.transmit_pixel_format }
    }
}

/// Parses the `--pixel-format` option of the fake device: a format name or alias, in any
/// case.
pub fn parse_pixel_format(value: &str) -> (r: Result<PixelFormat, String>)
    ensures
        match spec_from_arg(spec_ascii_lowercase(value@)) {
            Some(f) => r == Ok::<PixelFormat, String>(f),
            None => r matches Err(m) && m@ == "unsupported pixel format "@ + value@,
        },
{
    parse_pixel_format_arg(value)
}

} // verus!
