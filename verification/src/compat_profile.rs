use vstd::prelude::*;

use crate::compat_stream::{
    PacketType, PayloadType, COMPAT_HEADER_SIZE, COMPAT_LEADER_SIZE, COMPAT_TRAILER_SIZE,
};
use crate::pixel_format::PixelFormat;

verus! {

pub const COMPAT_PROFILE_NAME: &'static str = "EEVideo Stream Compatibility Profile v1";

/// The stream profiles a device and a host can agree on.
#[derive(Clone, Copy, Debug, PartialEq, Eq, Structural)]
pub enum StreamProfileId {
    CompatibilityV1,
}

impl StreamProfileId {
    /// The published name of the profile.
    pub fn as_str(self) -> (r: &'static str)
        ensures
            r@ == COMPAT_PROFILE_NAME@,
    {
        COMPAT_PROFILE_NAME
    }
}

/// The fixed parameters of the compatibility stream profile.
#[derive(Clone, Copy, Debug)]
pub struct CompatStreamProfile {
    pub id: StreamProfileId,
    pub name: &'static str,
    pub header_size: usize,
    pub leader_size: usize,
    pub trailer_size: usize,
}

impl CompatStreamProfile {
    /// The smallest MTU that can carry a leader packet.
    pub fn minimum_mtu(self) -> (r: usize)
        ensures
            r == self.leader_size,
    {
        self.leader_size
    }

    /// The stream fields that stay fixed after the first complete frame.
    pub fn fixed_stream_fields(self) -> (r: Vec<&'static str>)
        ensures
            r@.len() == 4,
            r@[0]@ == "width"@,
            r@[1]@ == "height"@,
            r@[2]@ == "payload_type"@,
            r@[3]@ == "pixel_format"@,
    {
        let mut v: Vec<&'static str> = Vec::new();
        v.push("width");
        v.push("height");
        v.push("payload_type");
        v.push("pixel_format");
        v
    }

    /// The packet kinds of the profile.
    pub fn packet_types(self) -> (r: Vec<PacketType>)
        ensures
            r@ == seq![PacketType::Leader, PacketType::Payload, PacketType::Trailer],
    {
        let mut v: Vec<PacketType> = Vec::new();
        v.push(PacketType::Leader);
        v.push(PacketType::Payload);
        v.push(PacketType::Trailer);
        v
    }

    /// The payload kinds of the profile.
    pub fn payload_types(self) -> (r: Vec<PayloadType>)
        ensures
            r@ == seq![PayloadType::Image],
    {
        let mut v: Vec<PayloadType> = Vec::new();
        v.push(PayloadType::Image);
        v
    }

    /// The pixel formats of the profile.
    pub fn pixel_formats(self) -> (r: Vec<PixelFormat>)
        ensures
            r@ == seq![
                PixelFormat::Mono8,
                PixelFormat::Mono16,
                PixelFormat::BayerGr8,
                PixelFormat::BayerRg8,
                PixelFormat::BayerGb8,
                PixelFormat::BayerBg8,
                PixelFormat::Rgb8,
                PixelFormat::Uyvy,
            ],
    {
        let mut v: Vec<PixelFormat> = Vec::new();
        v.push(PixelFormat::Mono8);
        v.push(PixelFormat::Mono16);
        v.push(PixelFormat::BayerGr8);
        v.push(PixelFormat::BayerRg8);
        v.push(PixelFormat::BayerGb8);
        v.push(PixelFormat::BayerBg8);
        v.push(PixelFormat::Rgb8);
        v.push(PixelFormat::Uyvy);
        v
    }
}

/// The compatibility stream profile.
pub fn compat_stream_profile() -> (r: CompatStreamProfile)
    ensures
        r.id == StreamProfileId::CompatibilityV1,
        r.name@ == COMPAT_PROFILE_NAME@,
        r.header_size == COMPAT_HEADER_SIZE,
        r.leader_size == COMPAT_LEADER_SIZE,
        r.trailer_size == COMPAT_TRAILER_SIZE,
{
    CompatStreamProfile {
        id: StreamProfileId::CompatibilityV1,
        name: COMPAT_PROFILE_NAME,
        header_size: COMPAT_HEADER_SIZE,
        leader_size: COMPAT_LEADER_SIZE,
        trailer_size: COMPAT_TRAILER_SIZE,
    }
}

} // verus!
