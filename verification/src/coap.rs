use vstd::prelude::*;

use crate::compat_stream::{be16, bytes16, extend_from_range, push_u16, read_u16};
use crate::text::{push_decimal, push_str, spec_decimal};

verus! {

/// Option number of the register-access option.
pub const OPTION_EEV_REG_ACCESS: u16 = 65301;

/// Option number of the binary register address option.
pub const OPTION_EEV_BINARY_ADDRESS: u16 = 65305;

/// Request code GET (0.01).
pub const CODE_GET: u8 = 1;

/// Request code PUT (0.03).
pub const CODE_PUT: u8 = 3;

/// Response code 2.04 Changed.
pub const CODE_CHANGED: u8 = 68;

/// Response code 2.05 Content.
pub const CODE_CONTENT: u8 = 69;

/// The four CoAP message types.
#[derive(Clone, Copy, Debug, PartialEq, Eq, Structural)]
pub enum CoapMessageType {
    Confirmable,
    NonConfirmable,
    Acknowledgement,
    Reset,
}

/// The two-bit code of a message type.
pub open spec fn spec_type_bits(t: CoapMessageType) -> u8 {
    match t {
        CoapMessageType::Confirmable => 0,
        CoapMessageType::NonConfirmable => 1,
        CoapMessageType::Acknowledgement => 2,
        CoapMessageType::Reset => 3,
    }
}

/// The message type with a given code, if any.
pub open spec fn spec_type_from_bits(v: u8) -> Option<CoapMessageType> {
    if v == 0 {
        Some(CoapMessageType::Confirmable)
    } else if v == 1 {
        Some(CoapMessageType::NonConfirmable)
    } else if v == 2 {
        Some(CoapMessageType::Acknowledgement)
    } else if v == 3 {
        Some(CoapMessageType::Reset)
    } else {
        None
    }
}

/// What can go wrong encoding or decoding a CoAP message.
#[derive(Clone, Debug, PartialEq, Eq)]
pub enum CoapError {
    TokenTooLong(usize),
    OptionsOutOfOrder { previous: u16, current: u16 },
    MessageTooShort(usize),
    InvalidVersion(u8),
    InvalidType(u8),
    InvalidOptionNibble(u8),
    OptionNumberOverflow,
    Truncated(&'static str),
}

impl CoapMessageType {
    /// The two-bit code of this message type.
    pub fn bits(self) -> (r: u8)
        ensures
            r == spec_type_bits(self),
    {
        match self {
            CoapMessageType::Confirmable => 0,
            CoapMessageType::NonConfirmable => 1,
            CoapMessageType::Acknowledgement => 2,
            CoapMessageType::Reset => 3,
        }
    }

    fn from_u8(value: u8) -> (r: Result<CoapMessageType, CoapError>)
        ensures
            match spec_type_from_bits(value) {
                Some(t) => r == Ok::<CoapMessageType, CoapError>(t),
                None => r == Err::<CoapMessageType, CoapError>(CoapError::InvalidType(value)),
            },
    {
        match value {
            0 => Ok(CoapMessageType::Confirmable),
            1 => Ok(CoapMessageType::NonConfirmable),
            2 => Ok(CoapMessageType::Acknowledgement),
            3 => Ok(CoapMessageType::Reset),
            _ => Err(CoapError::InvalidType(value)),
        }
    }
}

/// One option: its number and its value bytes.
#[derive(Clone, Debug, PartialEq, Eq)]
pub struct CoapOption {
    pub number: u16,
    pub value: Vec<u8>,
}

impl View for CoapOption {
    type V = (u16, Seq<u8>);

    open spec fn view(&self) -> (u16, Seq<u8>) {
        (self.number, self.value@)
    }
}

impl CoapOption {
    pub fn new(number: u16, value: Vec<u8>) -> (r: CoapOption)
        ensures
            r@ == (number, value@),
    {
        CoapOption { number, value }
    }
}

/// A CoAP message.
#[derive(Clone, Debug, PartialEq, Eq)]
pub struct CoapMessage {
    pub version: u8,
    pub message_type: CoapMessageType,
    pub code: u8,
    pub message_id: u16,
    pub token: Vec<u8>,
    pub options: Vec<CoapOption>,
    pub payload: Vec<u8>,
}

/// A CoAP message with its byte fields as sequences.
pub struct MessageView {
    pub version: u8,
    pub message_type: CoapMessageType,
    pub code: u8,
    pub message_id: u16,
    pub token: Seq<u8>,
    pub options: Seq<(u16, Seq<u8>)>,
    pub payload: Seq<u8>,
}

/// The options of a list, viewed.
pub open spec fn options_view(options: Seq<CoapOption>) -> Seq<(u16, Seq<u8>)> {
    options.map_values(|o: CoapOption| o@)
}

impl View for CoapMessage {
    type V = MessageView;

    open spec fn view(&self) -> MessageView {
        MessageView {
            version: self.version,
            message_type: self.message_type,
            code: self.code,
            message_id: self.message_id,
            token: self.token@,
            options: options_view(self.options@),
            payload: self.payload@,
        }
    }
}

/// The 4-bit nibble that stands for an option delta or length.
pub open spec fn ext_nibble(v: u16) -> u8 {
    if v <= 12 {
        v as u8
    } else if v <= 268 {
        13
    } else {
        14
    }
}

/// The extension bytes that follow the nibble of an option delta or length.
pub open spec fn ext_bytes(v: u16) -> Seq<u8> {
    if v <= 12 {
        seq![]
    } else if v <= 268 {
        seq![(v - 13) as u8]
    } else {
        bytes16((v - 269) as u16)
    }
}

/// The length of a value as the 16-bit field that carries it (the length modulo 2^16).
pub open spec fn length_field(value: Seq<u8>) -> u16 {
    (value.len() % 0x1_0000) as u16
}

/// The bytes of one option, `delta` above the previous option number.
pub open spec fn option_bytes(delta: u16, value: Seq<u8>) -> Seq<u8> {
    seq![(ext_nibble(delta) * 16 + ext_nibble(length_field(value))) as u8] + ext_bytes(delta)
        + ext_bytes(length_field(value)) + value
}

/// The bytes of a list of options, the option before them numbered `previous`; an error on the
/// first option numbered below the one before it.
pub open spec fn spec_encode_options(opts: Seq<(u16, Seq<u8>)>, previous: u16) -> Result<
    Seq<u8>,
    CoapError,
>
    decreases opts.len(),
{
    if opts.len() == 0 {
        Ok(seq![])
    } else {
        let number = opts[0].0;
        if number < previous {
            Err(CoapError::OptionsOutOfOrder { previous, current: number })
        } else {
            match spec_encode_options(opts.drop_first(), number) {
                Ok(rest) => Ok(option_bytes((number - previous) as u16, opts[0].1) + rest),
                Err(e) => Err(e),
            }
        }
    }
}

/// `pre` put in front of the bytes of a successful encoding.
pub open spec fn prepend_bytes(pre: Seq<u8>, r: Result<Seq<u8>, CoapError>) -> Result<
    Seq<u8>,
    CoapError,
> {
    match r {
        Ok(b) => Ok(pre + b),
        Err(e) => Err(e),
    }
}

/// The first byte of a message: version, type and token length.
pub open spec fn first_byte(m: MessageView) -> u8 {
    (m.version << 6u8) | (spec_type_bits(m.message_type) << 4u8) | (m.token.len() as u8)
}

/// The bytes of a message, or the error that encoding it gives.
pub open spec fn spec_encode(m: MessageView) -> Result<Seq<u8>, CoapError> {
    if m.token.len() > 8 {
        Err(CoapError::TokenTooLong(m.token.len() as usize))
    } else {
        let head = seq![first_byte(m), m.code] + bytes16(m.message_id) + m.token;
        let tail = if m.payload.len() == 0 {
            seq![]
        } else {
            seq![0xffu8] + m.payload
        };
        match spec_encode_options(m.options, 0) {
            Ok(ob) => Ok(head + ob + tail),
            Err(e) => Err(e),
        }
    }
}

/// An encoding result, viewed.
pub open spec fn bytes_result(r: Result<Vec<u8>, CoapError>) -> Result<Seq<u8>, CoapError> {
    match r {
        Ok(b) => Ok(b@),
        Err(e) => Err(e),
    }
}

fn encode_extended(value: u16) -> (r: (u8, Vec<u8>))
    ensures
        r.0 == ext_nibble(value),
        r.1@ == ext_bytes(value),
{
    if value <= 12 {
        (value as u8, Vec::new())
    } else if value <= 268 {
        let mut v: Vec<u8> = Vec::new();
        v.push((value - 13) as u8);
        assert(v@ =~= ext_bytes(value));
        (13, v)
    } else {
        let mut v: Vec<u8> = Vec::new();
        push_u16(&mut v, value - 269);
        assert(v@ =~= ext_bytes(value));
        (14, v)
    }
}

impl CoapMessage {
    pub fn new(
        message_type: CoapMessageType,
        code: u8,
        message_id: u16,
        token: Vec<u8>,
        options: Vec<CoapOption>,
        payload: Vec<u8>,
    ) -> (r: CoapMessage)
        ensures
            r@ == (MessageView {
                version: 1,
                message_type,
                code,
                message_id,
                token: token@,
                options: options_view(options@),
                payload: payload@,
            }),
    {
        CoapMessage { version: 1, message_type, code, message_id, token, options, payload }
    }

    /// The wire bytes of this message; an error where the token is longer than 8 bytes or an
    /// option is numbered below the one before it.
    pub fn encode(&self) -> (r: Result<Vec<u8>, CoapError>)
        ensures
            bytes_result(r) == spec_encode(self@),
    {
        if self.token.len() > 8 {
            return Err(CoapError::TokenTooLong(self.token.len()));
        }
        let ghost m = self@;
        let mut buf: Vec<u8> = Vec::new();
        let first = (self.version << 6u8) | (self.message_type.bits() << 4u8) | (
        self.token.len() as u8);
        buf.push(first);
        buf.push(self.code);
        push_u16(&mut buf, self.message_id);
        extend_from_range(&mut buf, self.token.as_slice(), 0, self.token.len());
        let ghost head = buf@;
        assert(self.token@.subrange(0, self.token@.len() as int) =~= self.token@);
        assert(head =~= seq![first_byte(m), m.code] + bytes16(m.message_id) + m.token);
        let ghost opts = m.options;
        let mut previous: u16 = 0;
        let mut i: usize = 0;
        assert(opts.skip(0) =~= opts);
        assert(spec_encode_options(opts, 0) == prepend_bytes(seq![], spec_encode_options(opts.skip(0), 0))) by {
            match spec_encode_options(opts, 0) {
                Ok(b) => assert(seq![] + b =~= b),
                Err(e) => {},
            }
        }
        while i < self.options.len()
            invariant
                m == self@,
                m.token.len() <= 8,
                opts == m.options,
                opts.len() == self.options@.len(),
                i <= opts.len(),
                buf@.len() >= head.len(),
                buf@.subrange(0, head.len() as int) == head,
                spec_encode_options(opts, 0) == prepend_bytes(
                    buf@.subrange(head.len() as int, buf@.len() as int),
                    spec_encode_options(opts.skip(i as int), previous),
                ),
            decreases opts.len() - i,
        {
            let option = &self.options[i];
            let number = option.number;
            let ghost written = buf@.subrange(head.len() as int, buf@.len() as int);
            let ghost rest = opts.skip(i as int);
            assert(rest[0] == opts[i as int]);
            assert(opts[i as int] == (number, option.value@));
            assert(rest.drop_first() =~= opts.skip(i + 1));
            if number < previous {
                assert(spec_encode_options(rest, previous) == Err::<Seq<u8>, CoapError>(
                    CoapError::OptionsOutOfOrder { previous, current: number },
                ));
                return Err(CoapError::OptionsOutOfOrder { previous, current: number });
            }
            let delta = number - previous;
            let (delta_nibble, delta_ext) = encode_extended(delta);
            let len = option.value.len();
            let len16 = #[verifier::truncate] (len as u16);
            assert(len16 == (len % 0x1_0000) as u16) by (bit_vector)
                requires
                    len16 == len as u16,
            ;
            let (length_nibble, length_ext) = encode_extended(len16);
            let header = (delta_nibble << 4u8) | length_nibble;
            assert(header == (delta_nibble * 16 + length_nibble) as u8) by (bit_vector)
                requires
                    header == (delta_nibble << 4u8) | length_nibble,
                    delta_nibble <= 14,
                    length_nibble <= 14,
            ;
            let ghost before = buf@;
            buf.push(header);
            extend_from_range(&mut buf, delta_ext.as_slice(), 0, delta_ext.len());
            extend_from_range(&mut buf, length_ext.as_slice(), 0, length_ext.len());
            extend_from_range(&mut buf, option.value.as_slice(), 0, option.value.len());
            proof {
                let ob = option_bytes(delta, option.value@);
                assert(delta_ext@.subrange(0, delta_ext@.len() as int) =~= delta_ext@);
                assert(length_ext@.subrange(0, length_ext@.len() as int) =~= length_ext@);
                assert(option.value@.subrange(0, option.value@.len() as int) =~= option.value@);
                assert(buf@ =~= before + ob);
                assert(buf@.subrange(0, head.len() as int) =~= before.subrange(0, head.len() as int));
                assert(buf@.subrange(head.len() as int, buf@.len() as int) =~= written + ob);
                match spec_encode_options(opts.skip(i + 1), number) {
                    Ok(b) => assert(written + (ob + b) =~= (written + ob) + b),
                    Err(e) => {},
                }
            }
            previous = number;
            i = i + 1;
        }
        let ghost written = buf@.subrange(head.len() as int, buf@.len() as int);
        assert(opts.skip(i as int) =~= seq![]);
        assert(spec_encode_options(opts, 0) == Ok::<Seq<u8>, CoapError>(written));
        assert(buf@ =~= head + written);
        if self.payload.len() > 0 {
            buf.push(0xff);
            extend_from_range(&mut buf, self.payload.as_slice(), 0, self.payload.len());
            assert(self.payload@.subrange(0, self.payload@.len() as int) =~= self.payload@);
            assert(buf@ =~= head + written + (seq![0xffu8] + m.payload));
        } else {
            assert(buf@ =~= head + written + seq![]);
        }
        Ok(buf)
    }
}

/// What reading an option delta or length field gives: its value and how many extension bytes
/// it took, or the error.
pub open spec fn spec_decode_ext(nibble: u8, data: Seq<u8>, pos: int) -> Result<(int, int), CoapError> {
    if nibble <= 12 {
        Ok((nibble as int, 0))
    } else if nibble == 13 {
        if pos >= data.len() {
            Err(CoapError::Truncated("extended option nibble"))
        } else {
            Ok((13 + data[pos], 1))
        }
    } else if nibble == 14 {
        if pos + 2 > data.len() {
            Err(CoapError::Truncated("extended option nibble"))
        } else {
            Ok((269 + be16(data, pos), 2))
        }
    } else {
        Err(CoapError::InvalidOptionNibble(nibble))
    }
}

/// How the walk over the options of a datagram ends: with the options read and the position it
/// stopped at, with an error, or on an extended field whose value does not fit in 16 bits.
pub enum OptionWalk {
    Done(Seq<(u16, Seq<u8>)>, int),
    Failed(CoapError),
    ExtensionOverflow,
}

/// The walk over the options of `data` from `pos`, the option before numbered `previous`.
pub open spec fn spec_walk(data: Seq<u8>, pos: int, previous: u16) -> OptionWalk
    decreases data.len() - pos,
{
    if pos < 0 || pos >= data.len() || data[pos] == 0xffu8 {
        OptionWalk::Done(seq![], pos)
    } else {
        let header = data[pos];
        match spec_decode_ext(header >> 4u8, data, pos + 1) {
            Err(e) => OptionWalk::Failed(e),
            Ok((delta, c1)) => if delta > 0xffff {
                OptionWalk::ExtensionOverflow
            } else {
                match spec_decode_ext(header & 0x0fu8, data, pos + 1 + c1) {
                    Err(e) => OptionWalk::Failed(e),
                    Ok((length, c2)) => if length > 0xffff {
                        OptionWalk::ExtensionOverflow
                    } else {
                        let vstart = pos + 1 + c1 + c2;
                        let end = vstart + length;
                        if end > data.len() {
                            OptionWalk::Failed(CoapError::Truncated("option value"))
                        } else if previous + delta > 0xffff {
                            OptionWalk::Failed(CoapError::OptionNumberOverflow)
                        } else {
                            let number = (previous + delta) as u16;
                            match spec_walk(data, end, number) {
                                OptionWalk::Done(rest, fin) => OptionWalk::Done(
                                    seq![(number, data.subrange(vstart, end))] + rest,
                                    fin,
                                ),
                                other => other,
                            }
                        }
                    }
                }
            }
        }
    }
}

/// `pre` put in front of the options of a finished walk.
pub open spec fn prepend_walk(pre: Seq<(u16, Seq<u8>)>, w: OptionWalk) -> OptionWalk {
    match w {
        OptionWalk::Done(rest, fin) => OptionWalk::Done(pre + rest, fin),
        other => other,
    }
}

/// What decoding a datagram gives: a message, an error, or an extended field too large for the
/// 16-bit arithmetic of the format (on which decoding has no result).
pub enum DecodeOutcome {
    Decoded(MessageView),
    Failed(CoapError),
    ExtensionOverflow,
}

/// The decoding of a datagram.
pub open spec fn spec_decode(data: Seq<u8>) -> DecodeOutcome {
    if data.len() < 4 {
        DecodeOutcome::Failed(CoapError::MessageTooShort(data.len() as usize))
    } else if data[0] >> 6u8 != 1 {
        DecodeOutcome::Failed(CoapError::InvalidVersion(data[0] >> 6u8))
    } else {
        let tl = (data[0] & 0x0fu8) as int;
        match spec_type_from_bits((data[0] >> 4u8) & 0x03u8) {
            None => DecodeOutcome::Failed(CoapError::InvalidType((data[0] >> 4u8) & 0x03u8)),
            Some(t) => if 4 + tl > data.len() {
                DecodeOutcome::Failed(CoapError::Truncated("token"))
            } else {
                match spec_walk(data, 4 + tl, 0) {
                    OptionWalk::Done(options, p) => DecodeOutcome::Decoded(
                        MessageView {
                            version: 1,
                            message_type: t,
                            code: data[1],
                            message_id: be16(data, 2),
                            token: data.subrange(4, 4 + tl),
                            options,
                            payload: if p < data.len() {
                                data.subrange(p + 1, data.len() as int)
                            } else {
                                seq![]
                            },
                        },
                    ),
                    OptionWalk::Failed(e) => DecodeOutcome::Failed(e),
                    OptionWalk::ExtensionOverflow => DecodeOutcome::ExtensionOverflow,
                }
            }
        }
    }
}

/// The result of decoding a datagram, with the case on which decoding has no result told apart.
pub enum CoapDecode {
    Decoded(CoapMessage),
    Failed(CoapError),
    ExtensionOverflow,
}

/// Whether an exec decoding result is the specified outcome.
pub open spec fn decode_matches(r: CoapDecode, o: DecodeOutcome) -> bool {
    match o {
        DecodeOutcome::Decoded(mv) => r matches CoapDecode::Decoded(m) && m@ == mv,
        DecodeOutcome::Failed(e) => r matches CoapDecode::Failed(f) && f == e,
        DecodeOutcome::ExtensionOverflow => r is ExtensionOverflow,
    }
}

fn decode_extended(nibble: u8, data: &[u8], pos: usize) -> (r: Result<(u32, usize), CoapError>)
    requires
        pos <= data@.len(),
    ensures
        match spec_decode_ext(nibble, data@, pos as int) {
            Ok((v, c)) => r matches Ok((w, d)) && w == v && d == c,
            Err(e) => r == Err::<(u32, usize), CoapError>(e),
        },
{
    if nibble <= 12 {
        Ok((nibble as u32, 0))
    } else if nibble == 13 {
        if pos >= data.len() {
            return Err(CoapError::Truncated("extended option nibble"));
        }
        Ok((13 + data[pos] as u32, 1))
    } else if nibble == 14 {
        if data.len() - pos < 2 {
            return Err(CoapError::Truncated("extended option nibble"));
        }
        Ok((269 + read_u16(data, pos) as u32, 2))
    } else {
        Err(CoapError::InvalidOptionNibble(nibble))
    }
}

fn copy_range(data: &[u8], start: usize, end: usize) -> (r: Vec<u8>)
    requires
        start <= end <= data@.len(),
    ensures
        r@ == data@.subrange(start as int, end as int),
{
    let mut out: Vec<u8> = Vec::new();
    extend_from_range(&mut out, data, start, end);
    assert(out@ =~= data@.subrange(start as int, end as int));
    out
}

impl CoapMessage {
    /// Decodes a datagram, telling apart the inputs on which decoding has no result: those
    /// with an extended option field whose value does not fit in 16 bits.
    pub fn decode_outcome(data: &[u8]) -> (r: CoapDecode)
        ensures
            decode_matches(r, spec_decode(data@)),
    {
        if data.len() < 4 {
            return CoapDecode::Failed(CoapError::MessageTooShort(data.len()));
        }
        let version = data[0] >> 6u8;
        if version != 1 {
            return CoapDecode::Failed(CoapError::InvalidVersion(version));
        }
        let token_len = (data[0] & 0x0fu8) as usize;
        let message_type = match CoapMessageType::from_u8((data[0] >> 4u8) & 0x03u8) {
            Ok(t) => t,
            Err(e) => return CoapDecode::Failed(e),
        };
        let code = data[1];
        let message_id = read_u16(data, 2);
        if 4 + token_len > data.len() {
            return CoapDecode::Failed(CoapError::Truncated("token"));
        }
        let token = copy_range(data, 4, 4 + token_len);
        let mut position: usize = 4 + token_len;
        let ghost start = position as int;
        let mut previous: u16 = 0;
        let mut options: Vec<CoapOption> = Vec::new();
        assert(spec_walk(data@, start, 0) == prepend_walk(
            options_view(options@),
            spec_walk(data@, start, 0),
        )) by {
            assert(options_view(options@) =~= seq![]);
            match spec_walk(data@, start, 0) {
                OptionWalk::Done(rest, fin) => assert(seq![] + rest =~= rest),
                _ => {},
            }
        }
        while position < data.len() && data[position] != 0xffu8
            invariant
                data@.len() >= 4,
                data@[0] >> 6u8 == 1,
                spec_type_from_bits((data@[0] >> 4u8) & 0x03u8) == Some(message_type),
                start == 4 + (data@[0] & 0x0fu8) as int,
                start <= position <= data@.len(),
                spec_walk(data@, start, 0) == prepend_walk(
                    options_view(options@),
                    spec_walk(data@, position as int, previous),
                ),
            decreases data@.len() - position,
        {
            let ghost here = position as int;
            let ghost acc = options_view(options@);
            let header = data[position];
            position = position + 1;
            let (delta, c1) = match decode_extended(header >> 4u8, data, position) {
                Ok(x) => x,
                Err(e) => return CoapDecode::Failed(e),
            };
            if delta > 0xffff {
                return CoapDecode::ExtensionOverflow;
            }
            position = position + c1;
            let (length, c2) = match decode_extended(header & 0x0fu8, data, position) {
                Ok(x) => x,
                Err(e) => return CoapDecode::Failed(e),
            };
            if length > 0xffff {
                return CoapDecode::ExtensionOverflow;
            }
            position = position + c2;
            if length as usize > data.len() - position {
                return CoapDecode::Failed(CoapError::Truncated("option value"));
            }
            let end = position + length as usize;
            if previous as u32 + delta > 0xffff {
                return CoapDecode::Failed(CoapError::OptionNumberOverflow);
            }
            let number = (previous as u32 + delta) as u16;
            let value = copy_range(data, position, end);
            let ghost item = (number, value@);
            options.push(CoapOption { number, value });
            proof {
                assert(options_view(options@) =~= acc.push(item));
                match spec_walk(data@, end as int, number) {
                    OptionWalk::Done(rest, fin) => {
                        assert(acc + (seq![item] + rest) =~= acc.push(item) + rest);
                    },
                    _ => {},
                }
            }
            previous = number;
            position = end;
        }
        let ghost opts = options_view(options@);
        assert(spec_walk(data@, start, 0) == OptionWalk::Done(opts, position as int)) by {
            assert(opts + seq![] =~= opts);
        }
        let payload = if position < data.len() {
            copy_range(data, position + 1, data.len())
        } else {
            Vec::new()
        };
        proof {
            if position >= data.len() {
                assert(payload@ =~= seq![]);
            }
        }
        CoapDecode::Decoded(
            CoapMessage { version, message_type, code, message_id, token, options, payload },
        )
    }

    /// Decodes a datagram. Defined on every datagram but those with an extended option field
    /// whose value does not fit in 16 bits.
    pub fn decode(data: &[u8]) -> (r: Result<CoapMessage, CoapError>)
        requires
            !(spec_decode(data@) is ExtensionOverflow),
        ensures
            match spec_decode(data@) {
                DecodeOutcome::Decoded(mv) => r matches Ok(m) && m@ == mv,
                DecodeOutcome::Failed(e) => r matches Err(f) && f == e,
                DecodeOutcome::ExtensionOverflow => false,
            },
    {
        match CoapMessage::decode_outcome(data) {
            CoapDecode::Decoded(m) => Ok(m),
            CoapDecode::Failed(e) => Err(e),
            CoapDecode::ExtensionOverflow => {
                assert(false);
                Err(CoapError::OptionNumberOverflow)
            },
        }
    }
}

/// Whether a message survives encoding and decoding: version 1, a token of at most 8 bytes,
/// options in ascending order of number, each value at most 65535 bytes long.
pub open spec fn well_formed_message(m: MessageView) -> bool {
    &&& m.version == 1
    &&& m.token.len() <= 8
    &&& options_ascending(m.options, 0)
}

/// Options numbered in ascending order from `previous`, each value at most 65535 bytes long.
pub open spec fn options_ascending(opts: Seq<(u16, Seq<u8>)>, previous: u16) -> bool {
    &&& forall|i: int| 0 <= i < opts.len() ==> previous <= #[trigger] opts[i].0
    &&& forall|i: int, j: int| 0 <= i <= j < opts.len() ==> #[trigger] opts[i].0 <= #[trigger] opts[j].0
    &&& forall|i: int| 0 <= i < opts.len() ==> (#[trigger] opts[i]).1.len() <= 0xffff
}

proof fn lemma_nibbles(d: u8, l: u8)
    requires
        d <= 14,
        l <= 14,
    ensures
        ((d * 16 + l) as u8) >> 4u8 == d,
        ((d * 16 + l) as u8) & 0x0fu8 == l,
        ((d * 16 + l) as u8) != 0xffu8,
{
    assert(((d * 16 + l) as u8) >> 4u8 == d) by (bit_vector)
        requires
            d <= 14,
            l <= 14,
    ;
    assert(((d * 16 + l) as u8) & 0x0fu8 == l) by (bit_vector)
        requires
            d <= 14,
            l <= 14,
    ;
    assert(((d * 16 + l) as u8) != 0xffu8) by (bit_vector)
        requires
            d <= 14,
            l <= 14,
    ;
}

proof fn lemma_ext_decode(v: u16, data: Seq<u8>, p: int)
    requires
        0 <= p,
        p + ext_bytes(v).len() <= data.len(),
        data.subrange(p, p + ext_bytes(v).len()) == ext_bytes(v),
    ensures
        spec_decode_ext(ext_nibble(v), data, p) == Ok::<(int, int), CoapError>(
            (v as int, ext_bytes(v).len() as int),
        ),
{
    if v <= 12 {
    } else if v <= 268 {
        assert(data.subrange(p, p + 1)[0] == data[p]);
    } else {
        crate::compat_stream::lemma_be16_at(data, p, (v - 269) as u16);
    }
}

proof fn lemma_encode_options_ok(opts: Seq<(u16, Seq<u8>)>, previous: u16)
    requires
        options_ascending(opts, previous),
    ensures
        spec_encode_options(opts, previous) is Ok,
    decreases opts.len(),
{
    if opts.len() > 0 {
        let rest = opts.drop_first();
        assert forall|i: int| 0 <= i < rest.len() implies opts[0].0 <= #[trigger] rest[i].0 by {
            assert(rest[i] == opts[i + 1]);
        }
        assert forall|i: int, j: int| 0 <= i <= j < rest.len() implies #[trigger] rest[i].0
            <= #[trigger] rest[j].0 by {
            assert(rest[i] == opts[i + 1]);
            assert(rest[j] == opts[j + 1]);
        }
        assert forall|i: int| 0 <= i < rest.len() implies (#[trigger] rest[i]).1.len() <= 0xffff by {
            assert(rest[i] == opts[i + 1]);
        }
        lemma_encode_options_ok(rest, opts[0].0);
    }
}

proof fn lemma_walk_options(opts: Seq<(u16, Seq<u8>)>, previous: u16, data: Seq<u8>, pos: int)
    requires
        options_ascending(opts, previous),
        spec_encode_options(opts, previous) is Ok,
        0 <= pos,
        pos + spec_encode_options(opts, previous)->Ok_0.len() <= data.len(),
        data.subrange(pos, pos + spec_encode_options(opts, previous)->Ok_0.len())
            == spec_encode_options(opts, previous)->Ok_0,
        pos + spec_encode_options(opts, previous)->Ok_0.len() == data.len() || data[pos
            + spec_encode_options(opts, previous)->Ok_0.len()] == 0xffu8,
    ensures
        spec_walk(data, pos, previous) == OptionWalk::Done(
            opts,
            pos + spec_encode_options(opts, previous)->Ok_0.len(),
        ),
    decreases opts.len(),
{
    let e = spec_encode_options(opts, previous)->Ok_0;
    if opts.len() == 0 {
        assert(e.len() == 0);
        assert(opts =~= seq![]);
    } else {
        let (number, value) = opts[0];
        let rest = opts.drop_first();
        assert forall|i: int| 0 <= i < rest.len() implies number <= #[trigger] rest[i].0 by {
            assert(rest[i] == opts[i + 1]);
        }
        assert forall|i: int, j: int| 0 <= i <= j < rest.len() implies #[trigger] rest[i].0
            <= #[trigger] rest[j].0 by {
            assert(rest[i] == opts[i + 1]);
            assert(rest[j] == opts[j + 1]);
        }
        assert forall|i: int| 0 <= i < rest.len() implies (#[trigger] rest[i]).1.len() <= 0xffff by {
            assert(rest[i] == opts[i + 1]);
        }
        assert(previous <= opts[0].0);
        assert(opts[0].1.len() <= 0xffff);
        let delta = (number - previous) as u16;
        let ob = option_bytes(delta, value);
        let re = spec_encode_options(rest, number)->Ok_0;
        assert(e == ob + re);
        let lf = length_field(value);
        assert(lf == value.len());
        let dn = ext_nibble(delta);
        let ln = ext_nibble(lf);
        let de = ext_bytes(delta);
        let le = ext_bytes(lf);
        let end = pos + ob.len();
        assert(data[pos] == e[0]) by {
            assert(data.subrange(pos, pos + e.len())[0] == data[pos]);
        }
        assert(e[0] == ob[0]);
        lemma_nibbles(dn, ln);
        assert(data.subrange(pos + 1, pos + 1 + de.len()) =~= de) by {
            assert forall|k: int| 0 <= k < de.len() implies data[pos + 1 + k] == de[k] by {
                assert(data.subrange(pos, pos + e.len())[1 + k] == data[pos + 1 + k]);
                assert(e[1 + k] == ob[1 + k]);
            }
        }
        lemma_ext_decode(delta, data, pos + 1);
        assert(data.subrange(pos + 1 + de.len(), pos + 1 + de.len() + le.len()) =~= le) by {
            assert forall|k: int| 0 <= k < le.len() implies data[pos + 1 + de.len() + k] == le[k] by {
                assert(data.subrange(pos, pos + e.len())[1 + de.len() + k] == data[pos + 1
                    + de.len() + k]);
                assert(e[1 + de.len() + k] == ob[1 + de.len() + k]);
            }
        }
        lemma_ext_decode(lf, data, pos + 1 + de.len());
        let vstart = pos + 1 + de.len() + le.len();
        assert(end == vstart + value.len());
        assert(data.subrange(vstart, end) =~= value) by {
            assert forall|k: int| 0 <= k < value.len() implies data[vstart + k] == value[k] by {
                assert(data.subrange(pos, pos + e.len())[1 + de.len() + le.len() + k] == data[vstart
                    + k]);
                assert(e[1 + de.len() + le.len() + k] == ob[1 + de.len() + le.len() + k]);
            }
        }
        assert(data.subrange(end, end + re.len()) =~= re) by {
            assert forall|k: int| 0 <= k < re.len() implies data[end + k] == re[k] by {
                assert(data.subrange(pos, pos + e.len())[ob.len() + k] == data[end + k]);
                assert(e[ob.len() + k] == re[k]);
            }
        }
        lemma_walk_options(rest, number, data, end);
        assert(seq![(number, value)] + rest =~= opts);
        let h = data[pos];
        assert(h >> 4u8 == dn && h & 0x0fu8 == ln && h != 0xffu8);
        assert(pos < data.len());
        assert(spec_decode_ext(h >> 4u8, data, pos + 1) == Ok::<(int, int), CoapError>(
            (delta as int, de.len() as int),
        ));
        assert(spec_decode_ext(h & 0x0fu8, data, pos + 1 + de.len()) == Ok::<(int, int), CoapError>(
            (lf as int, le.len() as int),
        ));
        assert(previous + delta == number);
        assert(end + re.len() == pos + e.len());
    }
}

/// Decoding the bytes of a well-formed message gives the message back.
pub proof fn lemma_coap_round_trip(m: MessageView)
    requires
        well_formed_message(m),
    ensures
        spec_encode(m) is Ok,
        spec_decode(spec_encode(m)->Ok_0) == DecodeOutcome::Decoded(m),
{
    lemma_encode_options_ok(m.options, 0);
    let ob = spec_encode_options(m.options, 0)->Ok_0;
    let head = seq![first_byte(m), m.code] + bytes16(m.message_id) + m.token;
    let tail = if m.payload.len() == 0 {
        seq![]
    } else {
        seq![0xffu8] + m.payload
    };
    let b = spec_encode(m)->Ok_0;
    assert(b == head + ob + tail);
    let tl = m.token.len();
    let x = first_byte(m);
    let t = spec_type_bits(m.message_type);
    let l = tl as u8;
    assert(x == (1u8 << 6u8) | (t << 4u8) | l);
    assert(x >> 6u8 == 1 && (x >> 4u8) & 0x03u8 == t && x & 0x0fu8 == l) by (bit_vector)
        requires
            x == (1u8 << 6u8) | (t << 4u8) | l,
            t <= 3,
            l <= 8,
    ;
    assert(b[0] == x);
    assert(spec_type_from_bits(t) == Some(m.message_type));
    assert(b.subrange(2, 4) =~= bytes16(m.message_id));
    crate::compat_stream::lemma_be16_at(b, 2, m.message_id);
    assert(b.subrange(4, 4 + tl as int) =~= m.token);
    let start = 4 + tl as int;
    assert(b.subrange(start, start + ob.len()) =~= ob);
    if m.payload.len() > 0 {
        assert(b[start + ob.len()] == 0xffu8);
        assert(b.subrange(start + ob.len() + 1, b.len() as int) =~= m.payload);
    } else {
        assert(start + ob.len() == b.len());
        assert(m.payload =~= seq![]);
    }
    lemma_walk_options(m.options, 0, b, start);
}

/// The text of a response code, for the codes a device answers with.
pub open spec fn spec_response_code_description(code: u8) -> Option<&'static str> {
    if code == 64 {
        Some("2.00 Success")
    } else if code == 68 {
        Some("2.04 Changed")
    } else if code == 69 {
        Some("2.05 Content")
    } else if code == 128 {
        Some("4.00 Bad Request")
    } else if code == 129 {
        Some("4.01 Unauthorized")
    } else if code == 130 {
        Some("4.02 Bad Option")
    } else if code == 131 {
        Some("4.03 Forbidden")
    } else if code == 132 {
        Some("4.04 Not Found")
    } else if code == 160 {
        Some("5.00 Internal Server Error")
    } else if code == 161 {
        Some("5.01 Not Implemented")
    } else {
        None
    }
}

/// The text of a response code, `None` for a code not in the list.
pub fn response_code_description(code: u8) -> (r: Option<&'static str>)
    ensures
        r == spec_response_code_description(code),
{
    match code {
        64 => Some("2.00 Success"),
        68 => Some("2.04 Changed"),
        69 => Some("2.05 Content"),
        128 => Some("4.00 Bad Request"),
        129 => Some("4.01 Unauthorized"),
        130 => Some("4.02 Bad Option"),
        131 => Some("4.03 Forbidden"),
        132 => Some("4.04 Not Found"),
        160 => Some("5.00 Internal Server Error"),
        161 => Some("5.01 Not Implemented"),
        _ => None,
    }
}

/// The human-readable text of an error.
pub open spec fn spec_coap_error_message(e: CoapError) -> Seq<char> {
    match e {
        CoapError::TokenTooLong(len) => "token length must not exceed 8 bytes, got "@
            + spec_decimal(len as nat),
        CoapError::OptionsOutOfOrder { previous, current } => "options must be in ascending order: "@
            + spec_decimal(current as nat) + " after "@ + spec_decimal(previous as nat),
        CoapError::MessageTooShort(len) => "message too short: "@ + spec_decimal(len as nat)
            + " bytes"@,
        CoapError::InvalidVersion(v) => "invalid CoAP version "@ + spec_decimal(v as nat),
        CoapError::InvalidType(kind) => "invalid CoAP message type "@ + spec_decimal(kind as nat),
        CoapError::InvalidOptionNibble(n) => "invalid CoAP option nibble "@ + spec_decimal(
            n as nat,
        ),
        CoapError::OptionNumberOverflow => "option number overflow"@,
        CoapError::Truncated(what) => "truncated "@ + what@,
    }
}

impl CoapError {
    /// The human-readable text of this error.
    pub fn message(&self) -> (r: String)
        ensures
            r@ == spec_coap_error_message(*self),
    {
        let mut out = String::new();
        match self {
            CoapError::TokenTooLong(len) => {
                push_str(&mut out, "token length must not exceed 8 bytes, got ");
                push_decimal(&mut out, *len as u64);
            },
            CoapError::OptionsOutOfOrder { previous, current } => {
                push_str(&mut out, "options must be in ascending order: ");
                push_decimal(&mut out, *current as u64);
                push_str(&mut out, " after ");
                push_decimal(&mut out, *previous as u64);
            },
            CoapError::MessageTooShort(len) => {
                push_str(&mut out, "message too short: ");
                push_decimal(&mut out, *len as u64);
                push_str(&mut out, " bytes");
            },
            CoapError::InvalidVersion(v) => {
                push_str(&mut out, "invalid CoAP version ");
                push_decimal(&mut out, *v as u64);
            },
            CoapError::InvalidType(kind) => {
                push_str(&mut out, "invalid CoAP message type ");
                push_decimal(&mut out, *kind as u64);
            },
            CoapError::InvalidOptionNibble(n) => {
                push_str(&mut out, "invalid CoAP option nibble ");
                push_decimal(&mut out, *n as u64);
            },
            CoapError::OptionNumberOverflow => {
                push_str(&mut out, "option number overflow");
            },
            CoapError::Truncated(what) => {
                push_str(&mut out, "truncated ");
                push_str(&mut out, what);
            },
        }
        proof {
            assert(out@ =~= spec_coap_error_message(*self));
        }
        out
    }
}

/// On the wire a message's type is the two bits 4-5 of its first byte, with the codes of
/// RFC 7252: Confirmable 0, Non-confirmable 1, Acknowledgement 2, Reset 3.
pub proof fn lemma_encoded_type_code(m: MessageView)
    requires
        spec_encode(m) is Ok,
    ensures
        spec_encode(m) matches Ok(b) && b.len() >= 4 && {
            let code = (b[0] >> 4u8) & 0x03u8;
            &&& (m.message_type == CoapMessageType::Confirmable <==> code == 0)
            &&& (m.message_type == CoapMessageType::NonConfirmable <==> code == 1)
            &&& (m.message_type == CoapMessageType::Acknowledgement <==> code == 2)
            &&& (m.message_type == CoapMessageType::Reset <==> code == 3)
        },
{
    let ob = spec_encode_options(m.options, 0)->Ok_0;
    let head = seq![first_byte(m), m.code] + bytes16(m.message_id) + m.token;
    let tail = if m.payload.len() == 0 {
        seq![]
    } else {
        seq![0xffu8] + m.payload
    };
    let b = spec_encode(m)->Ok_0;
    assert(b == head + ob + tail);
    assert(b[0] == first_byte(m));
    let x = first_byte(m);
    let v = m.version;
    let t = spec_type_bits(m.message_type);
    let l = m.token.len() as u8;
    assert((x >> 4u8) & 0x03u8 == t) by (bit_vector)
        requires
            x == (v << 6u8) | (t << 4u8) | l,
            t <= 3,
            l <= 8,
    ;
}

/// A received message's type is read from the two bits 4-5 of its first byte, with the codes
/// of RFC 7252: 0 Confirmable, 1 Non-confirmable, 2 Acknowledgement, 3 Reset.
pub proof fn lemma_decoded_type_code(data: Seq<u8>)
    requires
        spec_decode(data) is Decoded,
    ensures
        spec_decode(data) matches DecodeOutcome::Decoded(m) && {
            let code = (data[0] >> 4u8) & 0x03u8;
            &&& (m.message_type == CoapMessageType::Confirmable <==> code == 0)
            &&& (m.message_type == CoapMessageType::NonConfirmable <==> code == 1)
            &&& (m.message_type == CoapMessageType::Acknowledgement <==> code == 2)
            &&& (m.message_type == CoapMessageType::Reset <==> code == 3)
        },
{
}

/// The fixed header of an encoded message, as RFC 7252 lays it out: version in the top two
/// bits of the first byte, token length in its low four bits, then the code, the message id
/// big-endian, and the token.
pub proof fn lemma_encoded_header(m: MessageView)
    requires
        spec_encode(m) is Ok,
        m.version <= 3,
    ensures
        spec_encode(m) matches Ok(b) && b.len() >= 4 + m.token.len() && {
            &&& b[0] >> 6u8 == m.version
            &&& b[0] & 0x0fu8 == m.token.len()
            &&& b[1] == m.code
            &&& b[2] as int * 256 + b[3] as int == m.message_id as int
            &&& b.subrange(4, 4 + m.token.len() as int) == m.token
        },
{
    let ob = spec_encode_options(m.options, 0)->Ok_0;
    let head = seq![first_byte(m), m.code] + bytes16(m.message_id) + m.token;
    let tail = if m.payload.len() == 0 {
        seq![]
    } else {
        seq![0xffu8] + m.payload
    };
    let b = spec_encode(m)->Ok_0;
    assert(b == head + ob + tail);
    assert(b[0] == first_byte(m));
    let x = first_byte(m);
    let v = m.version;
    let t = spec_type_bits(m.message_type);
    let l = m.token.len() as u8;
    assert(x >> 6u8 == v && x & 0x0fu8 == l) by (bit_vector)
        requires
            x == (v << 6u8) | (t << 4u8) | l,
            v <= 3,
            t <= 3,
            l <= 8,
    ;
    let id = m.message_id;
    assert(b[2] == (id >> 8u16) as u8 && b[3] == (id & 0xffu16) as u8);
    assert(((id >> 8u16) as u8) as int * 256 + ((id & 0xffu16) as u8) as int == id as int) by (bit_vector);
    assert(b.subrange(4, 4 + m.token.len() as int) =~= m.token);
}

} // verus!
