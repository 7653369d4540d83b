use vstd::prelude::*;

use crate::pixel_format::{
    spec_from_pfnc, spec_pfnc, spec_pixel_format_error_message, PixelFormat, PixelFormatError,
};
use crate::text::{push_decimal, push_str, spec_decimal};

verus! {

pub const COMPAT_HEADER_SIZE: usize = 20;
pub const COMPAT_LEADER_SIZE: usize = 44;
pub const COMPAT_TRAILER_SIZE: usize = 20;

/// The packet kinds of the compatibility profile.
#[derive(Clone, Copy, Debug, PartialEq, Eq, Structural)]
pub enum PacketType {
    Leader,
    Trailer,
    Payload,
}

/// The wire code of a packet kind.
pub open spec fn spec_packet_type_code(t: PacketType) -> u8 {
    match t {
        PacketType::Leader => 1,
        PacketType::Trailer => 2,
        PacketType::Payload => 3,
    }
}

impl PacketType {
    /// The wire code of this packet kind.
    pub fn code(self) -> (r: u8)
        ensures
            r == spec_packet_type_code(self),
    {
        match self {
            PacketType::Leader => 1,
            PacketType::Trailer => 2,
            PacketType::Payload => 3,
        }
    }
}

/// The payload kinds of the compatibility profile.
#[derive(Clone, Copy, Debug, PartialEq, Eq, Structural)]
pub enum PayloadType {
    Image,
}

impl PayloadType {
    /// The payload kind with wire code `value`, if any.
    pub fn from_u16(value: u16) -> (r: Option<PayloadType>)
        ensures
            r == (if value == 1 { Some(PayloadType::Image) } else { None::<PayloadType> }),
    {
        if value == 1 {
            Some(PayloadType::Image)
        } else {
            None
        }
    }

    /// The wire code of this payload kind.
    pub fn as_u16(self) -> (r: u16)
        ensures
            r == 1,
    {
        1
    }
}

/// A parsed compatibility packet.
#[derive(Clone, Debug, PartialEq, Eq)]
pub enum CompatPacket {
    Leader {
        frame_id: u32,
        packet_id: u32,
        timestamp: u64,
        payload_type: PayloadType,
        pixel_format: PixelFormat,
        width: u32,
        height: u32,
    },
    Payload { frame_id: u32, packet_id: u32, data: Vec<u8> },
    Trailer { frame_id: u32, packet_id: u32 },
}

/// A compatibility packet with its payload bytes as a sequence.
pub enum PacketView {
    Leader {
        frame_id: u32,
        packet_id: u32,
        timestamp: u64,
        payload_type: PayloadType,
        pixel_format: PixelFormat,
        width: u32,
        height: u32,
    },
    Payload { frame_id: u32, packet_id: u32, data: Seq<u8> },
    Trailer { frame_id: u32, packet_id: u32 },
}

impl View for CompatPacket {
    type V = PacketView;

    open spec fn view(&self) -> PacketView {
        match *self {
            CompatPacket::Leader {
                frame_id,
                packet_id,
                timestamp,
                payload_type,
                pixel_format,
                width,
                height,
            } => PacketView::Leader {
                frame_id,
                packet_id,
                timestamp,
                payload_type,
                pixel_format,
                width,
                height,
            },
            CompatPacket::Payload { frame_id, packet_id, data } => PacketView::Payload {
                frame_id,
                packet_id,
                data: data@,
            },
            CompatPacket::Trailer { frame_id, packet_id } => PacketView::Trailer {
                frame_id,
                packet_id,
            },
        }
    }
}

/// Why a datagram is not a compatibility packet, or a packetizer cannot be built.
#[derive(Clone, Debug, PartialEq, Eq)]
pub enum CompatPacketError {
    PacketTooSmall { len: usize, expected: usize },
    UnknownPacketType(u8),
    UnsupportedPayloadType(u16),
    UnsupportedPixelFormat(PixelFormatError),
    InvalidMtu(usize),
}

/// The text of a packet error.
pub open spec fn spec_packet_error_message(e: CompatPacketError) -> Seq<char> {
    match e {
        CompatPacketError::PacketTooSmall { len, expected } => "packet too small: got "@
            + spec_decimal(len as nat) + " bytes, expected at least "@ + spec_decimal(expected as nat),
        CompatPacketError::UnknownPacketType(v) => "unknown compatibility packet type "@
            + spec_decimal(v as nat),
        CompatPacketError::UnsupportedPayloadType(v) => "unsupported compatibility payload type "@
            + spec_decimal(v as nat),
        CompatPacketError::UnsupportedPixelFormat(p) => spec_pixel_format_error_message(p),
        CompatPacketError::InvalidMtu(v) => "invalid MTU "@ + spec_decimal(v as nat)
            + ", needs to be >= 44"@,
    }
}

impl CompatPacketError {
    /// The human-readable text of this error.
    pub fn message(&self) -> (r: String)
        ensures
            r@ == spec_packet_error_message(*self),
    {
        let mut out = String::new();
        match self {
            CompatPacketError::PacketTooSmall { len, expected } => {
                push_str(&mut out, "packet too small: got ");
                push_decimal(&mut out, *len as u64);
                push_str(&mut out, " bytes, expected at least ");
                push_decimal(&mut out, *expected as u64);
            },
            CompatPacketError::UnknownPacketType(v) => {
                push_str(&mut out, "unknown compatibility packet type ");
                push_decimal(&mut out, *v as u64);
            },
            CompatPacketError::UnsupportedPayloadType(v) => {
                push_str(&mut out, "unsupported compatibility payload type ");
                push_decimal(&mut out, *v as u64);
            },
            CompatPacketError::UnsupportedPixelFormat(p) => {
                out = p.message();
            },
            CompatPacketError::InvalidMtu(v) => {
                push_str(&mut out, "invalid MTU ");
                push_decimal(&mut out, *v as u64);
                push_str(&mut out, ", needs to be >= 44");
            },
        }
        out
    }
}

/// The outcome of parsing, with the pixel-format error reduced to the code it refused.
pub enum ParseOutcome {
    Parsed(PacketView),
    TooSmall { len: nat, expected: nat },
    UnknownPacketType(u8),
    UnsupportedPayloadType(u16),
    UnsupportedPixelFormat(u32),
}

/// Big-endian 16-bit value at `off`.
pub open spec fn be16(s: Seq<u8>, off: int) -> u16 {
    (((s[off] as u16) << 8u16) | (s[off + 1] as u16)) as u16
}

/// Big-endian 32-bit value at `off`.
pub open spec fn be32(s: Seq<u8>, off: int) -> u32 {
    (((s[off] as u32) << 24u32) | ((s[off + 1] as u32) << 16u32) | ((s[off + 2] as u32) << 8u32)
        | (s[off + 3] as u32)) as u32
}

/// Big-endian 64-bit value at `off`.
pub open spec fn be64(s: Seq<u8>, off: int) -> u64 {
    (((be32(s, off) as u64) << 32u64) | (be32(s, off + 4) as u64)) as u64
}

/// Big-endian bytes of a 16-bit value.
pub open spec fn bytes16(v: u16) -> Seq<u8> {
    seq![(v >> 8u16) as u8, (v & 0xffu16) as u8]
}

/// Big-endian bytes of a 32-bit value.
pub open spec fn bytes32(v: u32) -> Seq<u8> {
    seq![
        (v >> 24u32) as u8,
        ((v >> 16u32) & 0xffu32) as u8,
        ((v >> 8u32) & 0xffu32) as u8,
        (v & 0xffu32) as u8,
    ]
}

/// Big-endian bytes of a 64-bit value.
pub open spec fn bytes64(v: u64) -> Seq<u8> {
    bytes32((v >> 32u64) as u32) + bytes32((v & 0xffff_ffffu64) as u32)
}

/// The 20-byte header: zero bytes except the packet kind at 4 and the ids at 12 and 16.
pub open spec fn spec_header(t: PacketType, frame_id: u32, packet_id: u32) -> Seq<u8> {
    seq![0u8, 0u8, 0u8, 0u8, spec_packet_type_code(t), 0u8, 0u8, 0u8, 0u8, 0u8, 0u8, 0u8]
        + bytes32(frame_id) + bytes32(packet_id)
}

/// The wire bytes of a packet.
pub open spec fn spec_to_bytes(p: PacketView) -> Seq<u8> {
    match p {
        PacketView::Leader {
            frame_id,
            packet_id,
            timestamp,
            payload_type,
            pixel_format,
            width,
            height,
        } => spec_header(PacketType::Leader, frame_id, packet_id) + seq![0u8, 0u8] + bytes16(1)
            + bytes64(timestamp) + bytes32(spec_pfnc(pixel_format)) + bytes32(width) + bytes32(
            height,
        ),
        PacketView::Payload { frame_id, packet_id, data } => spec_header(
            PacketType::Payload,
            frame_id,
            packet_id,
        ) + data,
        PacketView::Trailer { frame_id, packet_id } => spec_header(
            PacketType::Trailer,
            frame_id,
            packet_id,
        ),
    }
}

/// What a datagram parses to.
pub open spec fn spec_parse(buf: Seq<u8>) -> ParseOutcome {
    if buf.len() < 20 {
        ParseOutcome::TooSmall { len: buf.len(), expected: 20 }
    } else {
        let t = buf[4] & 0x0fu8;
        let frame_id = be32(buf, 12);
        let packet_id = be32(buf, 16);
        if t == 1 {
            if buf.len() < 44 {
                ParseOutcome::TooSmall { len: buf.len(), expected: 44 }
            } else if be16(buf, 22) != 1 {
                ParseOutcome::UnsupportedPayloadType(be16(buf, 22))
            } else {
                match spec_from_pfnc(be32(buf, 32)) {
                    Some(pixel_format) => ParseOutcome::Parsed(
                        PacketView::Leader {
                            frame_id,
                            packet_id,
                            timestamp: be64(buf, 24),
                            payload_type: PayloadType::Image,
                            pixel_format,
                            width: be32(buf, 36),
                            height: be32(buf, 40),
                        },
                    ),
                    None => ParseOutcome::UnsupportedPixelFormat(be32(buf, 32)),
                }
            }
        } else if t == 3 {
            ParseOutcome::Parsed(
                PacketView::Payload { frame_id, packet_id, data: buf.subrange(20, buf.len() as int) },
            )
        } else if t == 2 {
            ParseOutcome::Parsed(PacketView::Trailer { frame_id, packet_id })
        } else {
            ParseOutcome::UnknownPacketType(t)
        }
    }
}

/// Whether a parse result matches the specified outcome.
pub open spec fn parse_result_matches(
    r: Result<CompatPacket, CompatPacketError>,
    o: ParseOutcome,
) -> bool {
    match o {
        ParseOutcome::Parsed(p) => r matches Ok(q) && q@ == p,
        ParseOutcome::TooSmall { len, expected } => r matches Err(
            CompatPacketError::PacketTooSmall { len: l, expected: e },
        ) && l == len && e == expected,
        ParseOutcome::UnknownPacketType(t) => r matches Err(CompatPacketError::UnknownPacketType(u))
            && u == t,
        ParseOutcome::UnsupportedPayloadType(v) => r matches Err(
            CompatPacketError::UnsupportedPayloadType(u),
        ) && u == v,
        ParseOutcome::UnsupportedPixelFormat(v) => r matches Err(
            CompatPacketError::UnsupportedPixelFormat(PixelFormatError::UnsupportedPfnc(u)),
        ) && u == v,
    }
}

pub(crate) fn read_u16(buf: &[u8], offset: usize) -> (r: u16)
    requires
        offset + 2 <= buf@.len(),
    ensures
        r == be16(buf@, offset as int),
{
    ((buf[offset] as u16) << 8u16) | (buf[offset + 1] as u16)
}

pub(crate) fn read_u32(buf: &[u8], offset: usize) -> (r: u32)
    requires
        offset + 4 <= buf@.len(),
    ensures
        r == be32(buf@, offset as int),
{
    ((buf[offset] as u32) << 24u32) | ((buf[offset + 1] as u32) << 16u32) | ((buf[offset + 2]
        as u32) << 8u32) | (buf[offset + 3] as u32)
}

fn read_u64(buf: &[u8], offset: usize) -> (r: u64)
    requires
        offset + 8 <= buf@.len(),
    ensures
        r == be64(buf@, offset as int),
{
    let n = buf.len();
    let hi = read_u32(buf, offset);
    let lo = read_u32(buf, offset + 4);
    ((hi as u64) << 32u64) | (lo as u64)
}

pub(crate) fn push_u16(buf: &mut Vec<u8>, value: u16)
    ensures
        final(buf)@ == old(buf)@ + bytes16(value),
{
    buf.push((value >> 8u16) as u8);
    buf.push((value & 0xffu16) as u8);
    assert(final(buf)@ =~= old(buf)@ + bytes16(value));
}

pub(crate) fn push_u32(buf: &mut Vec<u8>, value: u32)
    ensures
        final(buf)@ == old(buf)@ + bytes32(value),
{
    buf.push((value >> 24u32) as u8);
    buf.push(((value >> 16u32) & 0xffu32) as u8);
    buf.push(((value >> 8u32) & 0xffu32) as u8);
    buf.push((value & 0xffu32) as u8);
    assert(final(buf)@ =~= old(buf)@ + bytes32(value));
}

fn push_u64(buf: &mut Vec<u8>, value: u64)
    ensures
        final(buf)@ == old(buf)@ + bytes64(value),
{
    push_u32(buf, (value >> 32u64) as u32);
    push_u32(buf, (value & 0xffff_ffffu64) as u32);
    assert(final(buf)@ =~= old(buf)@ + bytes64(value));
}

/// Appends the bytes of `data[start..end]`.
pub fn extend_from_range(buf: &mut Vec<u8>, data: &[u8], start: usize, end: usize)
    requires
        start <= end <= data@.len(),
    ensures
        final(buf)@ == old(buf)@ + data@.subrange(start as int, end as int),
{
    let mut i = start;
    while i < end
        invariant
            start <= i <= end,
            end <= data@.len(),
            buf@ == old(buf)@ + data@.subrange(start as int, i as int),
        decreases end - i,
    {
        buf.push(data[i]);
        i = i + 1;
        assert(buf@ =~= old(buf)@ + data@.subrange(start as int, i as int));
    }
}

fn write_header(buf: &mut Vec<u8>, packet_type: PacketType, frame_id: u32, packet_id: u32)
    ensures
        final(buf)@ == old(buf)@ + spec_header(packet_type, frame_id, packet_id),
{
    buf.push(0);
    buf.push(0);
    buf.push(0);
    buf.push(0);
    buf.push(packet_type.code());
    let mut k: usize = 0;
    while k < 7
        invariant
            k <= 7,
            buf@ == old(buf)@ + seq![0u8, 0u8, 0u8, 0u8, spec_packet_type_code(packet_type)]
                + Seq::new(k as nat, |i: int| 0u8),
        decreases 7 - k,
    {
        buf.push(0);
        k = k + 1;
        assert(buf@ =~= old(buf)@ + seq![0u8, 0u8, 0u8, 0u8, spec_packet_type_code(packet_type)]
            + Seq::new(k as nat, |i: int| 0u8));
    }
    push_u32(buf, frame_id);
    push_u32(buf, packet_id);
    assert(final(buf)@ =~= old(buf)@ + spec_header(packet_type, frame_id, packet_id));
}

impl CompatPacket {
    /// Parses one datagram of the compatibility profile.
    pub fn parse(buf: &[u8]) -> (r: Result<CompatPacket, CompatPacketError>)
        ensures
            parse_result_matches(r, spec_parse(buf@)),
    {
        if buf.len() < COMPAT_HEADER_SIZE {
            return Err(
                CompatPacketError::PacketTooSmall { len: buf.len(), expected: COMPAT_HEADER_SIZE },
            );
        }
        let packet_type = buf[4] & 0x0f;
        let frame_id = read_u32(buf, 12);
        let packet_id = read_u32(buf, 16);
        if packet_type == 1 {
            if buf.len() < COMPAT_LEADER_SIZE {
                return Err(
                    CompatPacketError::PacketTooSmall {
                        len: buf.len(),
                        expected: COMPAT_LEADER_SIZE,
                    },
                );
            }
            let payload_type_raw = read_u16(buf, 22);
            let payload_type = match PayloadType::from_u16(payload_type_raw) {
                Some(p) => p,
                None => {
                    return Err(CompatPacketError::UnsupportedPayloadType(payload_type_raw));
                },
            };
            let timestamp = read_u64(buf, 24);
            let pixel_format = match PixelFormat::from_pfnc(read_u32(buf, 32)) {
                Ok(f) => f,
                Err(e) => {
                    return Err(CompatPacketError::UnsupportedPixelFormat(e));
                },
            };
            let width = read_u32(buf, 36);
            let height = read_u32(buf, 40);
            Ok(
                CompatPacket::Leader {
                    frame_id,
                    packet_id,
                    timestamp,
                    payload_type,
                    pixel_format,
                    width,
                    height,
                },
            )
        } else if packet_type == 3 {
            let mut data: Vec<u8> = Vec::new();
            extend_from_range(&mut data, buf, COMPAT_HEADER_SIZE, buf.len());
            assert(data@ =~= buf@.subrange(20, buf@.len() as int));
            Ok(CompatPacket::Payload { frame_id, packet_id, data })
        } else if packet_type == 2 {
            Ok(CompatPacket::Trailer { frame_id, packet_id })
        } else {
            Err(CompatPacketError::UnknownPacketType(packet_type))
        }
    }

    /// The wire bytes of this packet.
    pub fn to_bytes(&self) -> (r: Vec<u8>)
        ensures
            r@ == spec_to_bytes(self@),
    {
        let mut buf: Vec<u8> = Vec::new();
        match self {
            CompatPacket::Leader {
                frame_id,
                packet_id,
                timestamp,
                payload_type,
                pixel_format,
                width,
                height,
            } => {
                write_header(&mut buf, PacketType::Leader, *frame_id, *packet_id);
                buf.push(0);
                buf.push(0);
                push_u16(&mut buf, payload_type.as_u16());
                push_u64(&mut buf, *timestamp);
                push_u32(&mut buf, pixel_format.pfnc());
                push_u32(&mut buf, *width);
                push_u32(&mut buf, *height);
                assert(buf@ =~= spec_to_bytes(self@));
            },
            CompatPacket::Payload { frame_id, packet_id, data } => {
                write_header(&mut buf, PacketType::Payload, *frame_id, *packet_id);
                extend_from_range(&mut buf, data.as_slice(), 0, data.len());
                assert(data@.subrange(0, data@.len() as int) =~= data@);
                assert(buf@ =~= spec_to_bytes(self@));
            },
            CompatPacket::Trailer { frame_id, packet_id } => {
                write_header(&mut buf, PacketType::Trailer, *frame_id, *packet_id);
                assert(buf@ =~= spec_to_bytes(self@));
            },
        }
        buf
    }
}

pub(crate) proof fn lemma_be16(v: u16)
    ensures
        be16(bytes16(v), 0) == v,
{
    let b = bytes16(v);
    assert(((((v >> 8u16) as u8) as u16) << 8u16) | (((v & 0xffu16) as u8) as u16) == v)
        by (bit_vector);
}

/// Reading a big-endian value back from the bytes written for it at `off`.
pub(crate) proof fn lemma_be16_at(s: Seq<u8>, off: int, v: u16)
    requires
        0 <= off,
        off + 2 <= s.len(),
        s.subrange(off, off + 2) == bytes16(v),
    ensures
        be16(s, off) == v,
{
    lemma_be16(v);
    let b = bytes16(v);
    assert(s[off] == b[0] && s[off + 1] == b[1]) by {
        assert(s.subrange(off, off + 2)[0] == s[off]);
        assert(s.subrange(off, off + 2)[1] == s[off + 1]);
    }
}

pub(crate) proof fn lemma_be32(v: u32)
    ensures
        be32(bytes32(v), 0) == v,
{
    assert(((((v >> 24u32) as u8) as u32) << 24u32) | (((((v >> 16u32) & 0xffu32) as u8) as u32)
        << 16u32) | (((((v >> 8u32) & 0xffu32) as u8) as u32) << 8u32) | (((v & 0xffu32) as u8)
        as u32) == v) by (bit_vector);
}

proof fn lemma_be32_at(s: Seq<u8>, off: int, v: u32)
    requires
        0 <= off,
        off + 4 <= s.len(),
        s.subrange(off, off + 4) == bytes32(v),
    ensures
        be32(s, off) == v,
{
    lemma_be32(v);
    let b = bytes32(v);
    assert(s[off] == b[0] && s[off + 1] == b[1] && s[off + 2] == b[2] && s[off + 3] == b[3]) by {
        assert(s.subrange(off, off + 4)[0] == s[off]);
        assert(s.subrange(off, off + 4)[1] == s[off + 1]);
        assert(s.subrange(off, off + 4)[2] == s[off + 2]);
        assert(s.subrange(off, off + 4)[3] == s[off + 3]);
    }
}

proof fn lemma_be64_at(s: Seq<u8>, off: int, v: u64)
    requires
        0 <= off,
        off + 8 <= s.len(),
        s.subrange(off, off + 8) == bytes64(v),
    ensures
        be64(s, off) == v,
{
    let hi = (v >> 32u64) as u32;
    let lo = (v & 0xffff_ffffu64) as u32;
    assert(s.subrange(off, off + 4) =~= s.subrange(off, off + 8).subrange(0, 4));
    assert(s.subrange(off + 4, off + 8) =~= s.subrange(off, off + 8).subrange(4, 8));
    assert(bytes64(v).subrange(0, 4) =~= bytes32(hi));
    assert(bytes64(v).subrange(4, 8) =~= bytes32(lo));
    lemma_be32_at(s, off, hi);
    lemma_be32_at(s, off + 4, lo);
    assert((((((v >> 32u64) as u32) as u64) << 32u64) | (((v & 0xffff_ffffu64) as u32) as u64))
        == v) by (bit_vector);
}

proof fn lemma_leader_round_trip(
    p: PacketView,
    frame_id: u32,
    packet_id: u32,
    timestamp: u64,
    payload_type: PayloadType,
    pixel_format: PixelFormat,
    width: u32,
    height: u32,
)
    requires
        p == (PacketView::Leader {
            frame_id,
            packet_id,
            timestamp,
            payload_type,
            pixel_format,
            width,
            height,
        }),
    ensures
        spec_parse(spec_to_bytes(p)) == ParseOutcome::Parsed(p),
{
    let b = spec_to_bytes(p);
    assert(b.len() == 44);
    let x = b[4];
    assert(x & 0x0fu8 == 1u8) by (bit_vector)
        requires
            x == 1u8,
    ;
    assert(b.subrange(12, 16) =~= bytes32(frame_id));
    assert(b.subrange(16, 20) =~= bytes32(packet_id));
    assert(b.subrange(24, 32) =~= bytes64(timestamp));
    assert(b.subrange(32, 36) =~= bytes32(spec_pfnc(pixel_format)));
    assert(b.subrange(36, 40) =~= bytes32(width));
    assert(b.subrange(40, 44) =~= bytes32(height));
    lemma_be32_at(b, 12, frame_id);
    lemma_be32_at(b, 16, packet_id);
    lemma_be64_at(b, 24, timestamp);
    lemma_be32_at(b, 32, spec_pfnc(pixel_format));
    lemma_be32_at(b, 36, width);
    lemma_be32_at(b, 40, height);
    lemma_be16(1u16);
    assert(b[22] == bytes16(1)[0] && b[23] == bytes16(1)[1]);
    crate::pixel_format::lemma_pfnc_round_trip(pixel_format);
    assert(payload_type == PayloadType::Image);
}

proof fn lemma_payload_round_trip(p: PacketView, frame_id: u32, packet_id: u32, data: Seq<u8>)
    requires
        p == (PacketView::Payload { frame_id, packet_id, data }),
    ensures
        spec_parse(spec_to_bytes(p)) == ParseOutcome::Parsed(p),
{
    let b = spec_to_bytes(p);
    let x = b[4];
    assert(x & 0x0fu8 == 3u8) by (bit_vector)
        requires
            x == 3u8,
    ;
    assert(b.subrange(12, 16) =~= bytes32(frame_id));
    assert(b.subrange(16, 20) =~= bytes32(packet_id));
    lemma_be32_at(b, 12, frame_id);
    lemma_be32_at(b, 16, packet_id);
    assert(b.subrange(20, b.len() as int) =~= data);
}

proof fn lemma_trailer_round_trip(p: PacketView, frame_id: u32, packet_id: u32)
    requires
        p == (PacketView::Trailer { frame_id, packet_id }),
    ensures
        spec_parse(spec_to_bytes(p)) == ParseOutcome::Parsed(p),
{
    let b = spec_to_bytes(p);
    let x = b[4];
    assert(x & 0x0fu8 == 2u8) by (bit_vector)
        requires
            x == 2u8,
    ;
    assert(b.subrange(12, 16) =~= bytes32(frame_id));
    assert(b.subrange(16, 20) =~= bytes32(packet_id));
    lemma_be32_at(b, 12, frame_id);
    lemma_be32_at(b, 16, packet_id);
}

/// Parsing the bytes of a packet gives the packet back.
pub proof fn lemma_packet_round_trip(p: PacketView)
    ensures
        spec_parse(spec_to_bytes(p)) == ParseOutcome::Parsed(p),
{
    match p {
        PacketView::Leader {
            frame_id,
            packet_id,
            timestamp,
            payload_type,
            pixel_format,
            width,
            height,
        } => lemma_leader_round_trip(
            p,
            frame_id,
            packet_id,
            timestamp,
            payload_type,
            pixel_format,
            width,
            height,
        ),
        PacketView::Payload { frame_id, packet_id, data } => lemma_payload_round_trip(
            p,
            frame_id,
            packet_id,
            data,
        ),
        PacketView::Trailer { frame_id, packet_id } => lemma_trailer_round_trip(
            p,
            frame_id,
            packet_id,
        ),
    }
}

} // verus!

verus! {

/// One uncompressed video frame.
#[derive(Clone, Debug, PartialEq, Eq)]
pub struct VideoFrame {
    pub frame_id: u32,
    pub timestamp: u64,
    pub width: u32,
    pub height: u32,
    pub pixel_format: PixelFormat,
    pub payload_type: PayloadType,
    pub data: Vec<u8>,
}

/// A video frame with its data as a sequence.
pub struct FrameView {
    pub frame_id: u32,
    pub timestamp: u64,
    pub width: u32,
    pub height: u32,
    pub pixel_format: PixelFormat,
    pub payload_type: PayloadType,
    pub data: Seq<u8>,
}

impl View for VideoFrame {
    type V = FrameView;

    open spec fn view(&self) -> FrameView {
        FrameView {
            frame_id: self.frame_id,
            timestamp: self.timestamp,
            width: self.width,
            height: self.height,
            pixel_format: self.pixel_format,
            payload_type: self.payload_type,
            data: self.data@,
        }
    }
}

impl VideoFrame {
    /// The payload size its header announces, or the size of the data it holds when the header
    /// has a zero dimension.
    pub fn expected_len(&self) -> (r: usize)
        requires
            self.width * self.height * crate::pixel_format::spec_bytes_per_pixel(
                self.pixel_format,
            ) <= usize::MAX,
        ensures
            r == match crate::pixel_format::spec_payload_len(
                self.pixel_format,
                self.width,
                self.height,
            ) {
                Some(n) => n,
                None => self.data@.len(),
            },
    {
        match self.pixel_format.payload_len(self.width, self.height) {
            Ok(n) => n,
            Err(_) => self.data.len(),
        }
    }
}

/// The consecutive pieces of at most `k` bytes that `d` splits into (`<[u8]>::chunks`).
pub open spec fn spec_chunks(d: Seq<u8>, k: nat) -> Seq<Seq<u8>>
    decreases d.len(),
{
    if d.len() == 0 || k == 0 {
        seq![]
    } else if d.len() <= k {
        seq![d]
    } else {
        seq![d.take(k as int)] + spec_chunks(d.skip(k as int), k)
    }
}

/// The packets a frame is sent as: a leader, one payload per chunk, and a trailer.
pub open spec fn spec_frame_packets(
    frame_id: u32,
    timestamp: u64,
    payload_type: PayloadType,
    pixel_format: PixelFormat,
    width: u32,
    height: u32,
    data: Seq<u8>,
    chunk_len: nat,
) -> Seq<Seq<u8>> {
    let chunks = spec_chunks(data, chunk_len);
    seq![
        spec_to_bytes(
            PacketView::Leader {
                frame_id,
                packet_id: 0,
                timestamp,
                payload_type,
                pixel_format,
                width,
                height,
            },
        ),
    ] + Seq::new(
        chunks.len(),
        |i: int|
            spec_to_bytes(
                PacketView::Payload { frame_id, packet_id: (i + 1) as u32, data: chunks[i] },
            ),
    ) + seq![
        spec_to_bytes(PacketView::Trailer { frame_id, packet_id: (chunks.len() + 1) as u32 }),
    ]
}

/// Splits frames into compatibility packets no larger than an MTU.
#[derive(Debug)]
pub struct CompatPacketizer {
    mtu: usize,
}

impl CompatPacketizer {
    #[verifier::type_invariant]
    spec fn wf(self) -> bool {
        self.mtu >= COMPAT_LEADER_SIZE
    }

    /// The MTU this packetizer was made with.
    pub closed spec fn spec_mtu(self) -> usize {
        self.mtu
    }

    /// A packetizer for datagrams of at most `mtu` bytes; an MTU below the leader size is refused.
    pub fn new(mtu: usize) -> (r: Result<CompatPacketizer, CompatPacketError>)
        ensures
            mtu < COMPAT_LEADER_SIZE ==> (r matches Err(CompatPacketError::InvalidMtu(m)) && m
                == mtu),
            mtu >= COMPAT_LEADER_SIZE ==> (r matches Ok(p) && p.spec_mtu() == mtu),
    {
        if mtu < COMPAT_LEADER_SIZE {
            return Err(CompatPacketError::InvalidMtu(mtu));
        }
        Ok(CompatPacketizer { mtu })
    }

    /// The MTU this packetizer was made with.
    pub fn mtu(&self) -> (r: usize)
        ensures
            r == self.spec_mtu(),
            r >= COMPAT_LEADER_SIZE,
    {
        proof {
            use_type_invariant(self);
        }
        self.mtu
    }

    /// The datagrams that carry `frame`: a leader, the data in chunks of `mtu - 20` bytes with
    /// packet ids from 1, and a trailer with the next packet id.
    pub fn packetize(&self, frame: &VideoFrame) -> (r: Result<Vec<Vec<u8>>, CompatPacketError>)
        requires
            spec_chunks(frame.data@, (self.spec_mtu() - COMPAT_HEADER_SIZE) as nat).len() + 1
                <= u32::MAX,
        ensures
            r matches Ok(packets) && packets@.len() == spec_frame_packets(
                frame.frame_id,
                frame.timestamp,
                frame.payload_type,
                frame.pixel_format,
                frame.width,
                frame.height,
                frame.data@,
                (self.spec_mtu() - COMPAT_HEADER_SIZE) as nat,
            ).len() && forall|i: int|
                0 <= i < packets@.len() ==> #[trigger] packets@[i]@ == spec_frame_packets(
                    frame.frame_id,
                    frame.timestamp,
                    frame.payload_type,
                    frame.pixel_format,
                    frame.width,
                    frame.height,
                    frame.data@,
                    (self.spec_mtu() - COMPAT_HEADER_SIZE) as nat,
                )[i],
    {
        proof {
            use_type_invariant(self);
        }
        let ghost k = (self.spec_mtu() - COMPAT_HEADER_SIZE) as nat;
        let ghost d = frame.data@;
        let ghost expected = spec_frame_packets(
            frame.frame_id,
            frame.timestamp,
            frame.payload_type,
            frame.pixel_format,
            frame.width,
            frame.height,
            d,
            k,
        );
        let ghost chunks = spec_chunks(d, k);
        let mut packets: Vec<Vec<u8>> = Vec::new();
        let leader = CompatPacket::Leader {
            frame_id: frame.frame_id,
            packet_id: 0,
            timestamp: frame.timestamp,
            payload_type: frame.payload_type,
            pixel_format: frame.pixel_format,
            width: frame.width,
            height: frame.height,
        };
        packets.push(leader.to_bytes());
        let chunk_len = self.mtu - COMPAT_HEADER_SIZE;
        let len = frame.data.len();
        let mut offset: usize = 0;
        let mut packet_id: u32 = 1;
        proof {
            assert(d.skip(0) =~= d);
            assert(chunks.skip(0) =~= chunks);
        }
        while offset < len
            invariant
                k == chunk_len,
                chunk_len > 0,
                d == frame.data@,
                len == d.len(),
                offset <= len,
                chunks == spec_chunks(d, k),
                chunks.len() + 1 <= u32::MAX,
                1 <= packet_id,
                packets@.len() == packet_id as int,
                chunks.len() == (packet_id - 1) + spec_chunks(d.skip(offset as int), k).len(),
                chunks.skip(packet_id - 1) == spec_chunks(d.skip(offset as int), k),
                expected == spec_frame_packets(
                    frame.frame_id,
                    frame.timestamp,
                    frame.payload_type,
                    frame.pixel_format,
                    frame.width,
                    frame.height,
                    d,
                    k,
                ),
                forall|i: int| 0 <= i < packets@.len() ==> #[trigger] packets@[i]@ == expected[i],
            decreases len - offset,
        {
            let ghost rest = d.skip(offset as int);
            let end = if len - offset <= chunk_len {
                len
            } else {
                offset + chunk_len
            };
            let mut chunk: Vec<u8> = Vec::new();
            extend_from_range(&mut chunk, frame.data.as_slice(), offset, end);
            proof {
                assert(rest.len() > 0);
                if rest.len() <= k {
                    assert(spec_chunks(rest, k) == seq![rest]);
                    assert(chunk@ =~= rest);
                    assert(d.skip(end as int).len() == 0);
                    assert(spec_chunks(d.skip(end as int), k) =~= Seq::<Seq<u8>>::empty());
                } else {
                    assert(spec_chunks(rest, k) == seq![rest.take(k as int)] + spec_chunks(
                        rest.skip(k as int),
                        k,
                    ));
                    assert(chunk@ =~= rest.take(k as int));
                    assert(rest.skip(k as int) =~= d.skip(end as int));
                }
                assert(chunks[packet_id - 1] == spec_chunks(rest, k)[0]);
                assert(chunks[packet_id - 1] == chunk@);
            }
            let payload = CompatPacket::Payload { frame_id: frame.frame_id, packet_id, data: chunk };
            let bytes = payload.to_bytes();
            packets.push(bytes);
            proof {
                assert(expected[packet_id as int] == spec_to_bytes(
                    PacketView::Payload {
                        frame_id: frame.frame_id,
                        packet_id: packet_id,
                        data: chunks[packet_id - 1],
                    },
                ));
                assert(chunks.skip(packet_id as int) =~= chunks.skip(packet_id - 1).drop_first());
                if rest.len() <= k {
                    assert(spec_chunks(rest, k).drop_first() =~= spec_chunks(
                        d.skip(end as int),
                        k,
                    ));
                } else {
                    assert(spec_chunks(rest, k).drop_first() =~= spec_chunks(
                        d.skip(end as int),
                        k,
                    ));
                }
            }
            offset = end;
            packet_id = packet_id + 1;
        }
        proof {
            assert(d.skip(offset as int).len() == 0);
            assert(spec_chunks(d.skip(offset as int), k).len() == 0);
        }
        let trailer = CompatPacket::Trailer { frame_id: frame.frame_id, packet_id };
        packets.push(trailer.to_bytes());
        assert(packets@.len() == expected.len());
        Ok(packets)
    }
}

/// Joining the chunks of a frame's data gives the data back; every chunk is non-empty and at
/// most `k` bytes long.
pub proof fn lemma_chunks_rejoin(d: Seq<u8>, k: nat)
    requires
        k > 0,
    ensures
        spec_chunks(d, k).flatten() == d,
        forall|i: int|
            0 <= i < spec_chunks(d, k).len() ==> 0 < #[trigger] spec_chunks(d, k)[i].len() <= k,
    decreases d.len(),
{
    if d.len() == 0 {
        assert(spec_chunks(d, k) =~= Seq::<Seq<u8>>::empty());
        assert(spec_chunks(d, k).flatten() =~= d);
    } else if d.len() <= k {
        let s = spec_chunks(d, k);
        assert(s == seq![d]);
        assert(s.drop_first() =~= Seq::<Seq<u8>>::empty());
        assert(s.drop_first().flatten() == Seq::<u8>::empty());
        assert(s.flatten() == s.first() + s.drop_first().flatten());
        assert(s.flatten() =~= d);
    } else {
        lemma_chunks_rejoin(d.skip(k as int), k);
        let s = spec_chunks(d, k);
        assert(s.drop_first() =~= spec_chunks(d.skip(k as int), k));
        assert(s.flatten() == s[0] + s.drop_first().flatten());
        assert(d.take(k as int) + d.skip(k as int) =~= d);
        assert forall|i: int| 0 <= i < s.len() implies 0 < #[trigger] s[i].len() <= k by {
            if i > 0 {
                assert(s[i] == spec_chunks(d.skip(k as int), k)[i - 1]);
            }
        }
    }
}

} // verus!
