use vstd::prelude::*;
use vstd::utf8::{decode_utf8, valid_utf8};

use crate::coap::{
    bytes_result, lemma_coap_round_trip, options_ascending, spec_coap_error_message, spec_encode,
    spec_response_code_description, response_code_description, CoapError, CoapMessage,
    CoapMessageType, CoapOption, MessageView, CODE_CHANGED, CODE_CONTENT, CODE_GET, CODE_PUT,
    OPTION_EEV_BINARY_ADDRESS, OPTION_EEV_REG_ACCESS,
};
use crate::compat_stream::{be32, bytes32, extend_from_range};
use crate::discovery::io_error_text;
use crate::text::{push_char, push_decimal, push_str, spec_decimal};

verus! {

#[verifier::external_type_specification]
#[verifier::external_body]
pub struct ExFromUtf8Error(std::string::FromUtf8Error);

/// `String::from_utf8`: the bytes as a string when they are valid UTF-8, else the error. The
/// contract claims the documented behaviour: success exactly on valid UTF-8, and then the
/// characters the bytes encode.
#[verifier::external_body]
fn string_from_utf8(bytes: Vec<u8>) -> (r: Result<String, std::string::FromUtf8Error>)
    ensures
        r is Ok <==> valid_utf8(bytes@),
        r matches Ok(s) ==> s@ == decode_utf8(bytes@),
{
    String::from_utf8(bytes)
}

/// The text of a UTF-8 conversion error (its `Display` rendering, which std does not pin down).
#[verifier::external_body]
pub(crate) fn from_utf8_error_text(e: &std::string::FromUtf8Error) -> String {
    format!("{}", e)
}

/// The kinds of register read.
#[derive(Clone, Copy, Debug, PartialEq, Eq, Structural)]
pub enum RegisterReadKind {
    Register,
    Fifo,
    RegisterIncrement,
    String,
}

/// The kinds of register write.
#[derive(Clone, Copy, Debug, PartialEq, Eq, Structural)]
pub enum RegisterWriteKind {
    Write,
    SetBits,
    Clear,
    Toggle,
    WriteIncrement,
    MaskWriteIncrement,
    ReadSetAdvanceIncrement,
}

/// The access-type code of a read kind.
pub open spec fn spec_read_code(k: RegisterReadKind) -> u8 {
    match k {
        RegisterReadKind::Register => 0,
        RegisterReadKind::Fifo => 1,
        RegisterReadKind::RegisterIncrement => 4,
        RegisterReadKind::String => 5,
    }
}

/// The access-type code of a write kind.
pub open spec fn spec_write_code(k: RegisterWriteKind) -> u8 {
    match k {
        RegisterWriteKind::Write => 0,
        RegisterWriteKind::SetBits => 1,
        RegisterWriteKind::Clear => 2,
        RegisterWriteKind::Toggle => 3,
        RegisterWriteKind::WriteIncrement => 5,
        RegisterWriteKind::MaskWriteIncrement => 6,
        RegisterWriteKind::ReadSetAdvanceIncrement => 7,
    }
}

impl RegisterReadKind {
    /// The access-type code of this read kind.
    pub fn code(self) -> (r: u8)
        ensures
            r == spec_read_code(self),
    {
        match self {
            RegisterReadKind::Register => 0,
            RegisterReadKind::Fifo => 1,
            RegisterReadKind::RegisterIncrement => 4,
            RegisterReadKind::String => 5,
        }
    }
}

impl RegisterWriteKind {
    /// The access-type code of this write kind.
    pub fn code(self) -> (r: u8)
        ensures
            r == spec_write_code(self),
    {
        match self {
            RegisterWriteKind::Write => 0,
            RegisterWriteKind::SetBits => 1,
            RegisterWriteKind::Clear => 2,
            RegisterWriteKind::Toggle => 3,
            RegisterWriteKind::WriteIncrement => 5,
            RegisterWriteKind::MaskWriteIncrement => 6,
            RegisterWriteKind::ReadSetAdvanceIncrement => 7,
        }
    }
}

/// How a register request accesses the register: whether the access option is sent, the word
/// count and the access-type code.
#[derive(Clone, Copy, Debug, PartialEq, Eq, Structural)]
pub struct RegisterAccess {
    pub insert: bool,
    pub count: u8,
    pub access_type: u8,
}

/// What can go wrong accessing a register.
#[derive(Debug)]
pub enum RegisterError {
    Io(std::io::Error),
    Coap(CoapError),
    InvalidAccess(String),
    UnknownRegister(String),
    InvalidString(std::string::FromUtf8Error),
    Response(String),
}

/// The value of the access option: the count in the low five bits and the access type above
/// them; none when the option is not sent.
pub open spec fn spec_access_option(a: RegisterAccess) -> Option<u8> {
    if !a.insert {
        None
    } else {
        Some(a.count | (a.access_type << 5u8))
    }
}

impl RegisterAccess {
    /// A read of `count` words; the access option is sent for every kind but a plain register
    /// read.
    pub fn read(kind: RegisterReadKind, count: u8) -> (r: RegisterAccess)
        ensures
            r == (RegisterAccess {
                insert: kind != RegisterReadKind::Register,
                count,
                access_type: spec_read_code(kind),
            }),
    {
        RegisterAccess { insert: kind != RegisterReadKind::Register, count, access_type: kind.code() }
    }

    /// A write of `count` words; the access option is not sent.
    pub fn write(kind: RegisterWriteKind, count: u8) -> (r: RegisterAccess)
        ensures
            r == (RegisterAccess { insert: false, count, access_type: spec_write_code(kind) }),
    {
        RegisterAccess { insert: false, count, access_type: kind.code() }
    }

    /// The value of the access option; an error for a count above 31.
    pub fn option_value(self) -> (r: Result<Option<u8>, RegisterError>)
        ensures
            self.count > 31 ==> (r matches Err(RegisterError::InvalidAccess(m)) && m@
                == "count must be 0-31, got "@ + spec_decimal(self.count as nat)),
            self.count <= 31 ==> (r matches Ok(v) && v == spec_access_option(self)),
    {
        if self.count > 31 {
            let mut m = String::new();
            push_str(&mut m, "count must be 0-31, got ");
            push_decimal(&mut m, self.count as u64);
            return Err(RegisterError::InvalidAccess(m));
        }
        if !self.insert {
            return Ok(None);
        }
        Ok(Some(self.count | (self.access_type << 5u8)))
    }
}

impl RegisterError {
    /// The human-readable text of this error. For an I/O or UTF-8 error it is std's text.
    pub fn message(&self) -> (r: String)
        ensures
            *self matches RegisterError::Coap(e) ==> r@ == spec_coap_error_message(e),
            *self matches RegisterError::InvalidAccess(m) ==> r@ == m@,
            *self matches RegisterError::UnknownRegister(n) ==> r@ == "unknown register "@ + n@,
            *self matches RegisterError::Response(m) ==> r@ == m@,
    {
        match self {
            RegisterError::Io(e) => io_error_text(e),
            RegisterError::Coap(e) => e.message(),
            RegisterError::InvalidAccess(m) => crate::text::owned(m.as_str()),
            RegisterError::UnknownRegister(n) => {
                let mut out = String::new();
                push_str(&mut out, "unknown register ");
                push_str(&mut out, n.as_str());
                out
            },
            RegisterError::InvalidString(e) => from_utf8_error_text(e),
            RegisterError::Response(m) => crate::text::owned(m.as_str()),
        }
    }
}

/// The token of a request: `len` bytes repeating the message id's high byte, low byte, low byte,
/// high byte.
pub open spec fn spec_token(len: u8, message_id: u16) -> Seq<u8> {
    let hi = (message_id >> 8u16) as u8;
    let lo = (message_id & 0xffu16) as u8;
    Seq::new(
        len as nat,
        |i: int|
            if i % 4 == 0 || i % 4 == 3 {
                hi
            } else {
                lo
            },
    )
}

/// The token of a request with the given message id.
pub fn build_token(token_len: u8, message_id: u16) -> (r: Vec<u8>)
    ensures
        r@ == spec_token(token_len, message_id),
{
    let hi = (message_id >> 8u16) as u8;
    let lo = (message_id & 0xffu16) as u8;
    if token_len == 0 {
        let r: Vec<u8> = Vec::new();
        assert(r@ =~= spec_token(token_len, message_id));
        return r;
    }
    let mut token: Vec<u8> = Vec::new();
    let mut first = hi;
    let mut second = lo;
    while token.len() < token_len as usize
        invariant
            token@.len() % 2 == 0,
            token@.len() <= token_len as int + 1,
            forall|i: int|
                0 <= i < token@.len() ==> #[trigger] token@[i] == (if i % 4 == 0 || i % 4 == 3 {
                    hi
                } else {
                    lo
                }),
            (token@.len() / 2) % 2 == 0 ==> first == hi && second == lo,
            (token@.len() / 2) % 2 == 1 ==> first == lo && second == hi,
        decreases token_len as int + 2 - token@.len(),
    {
        token.push(first);
        token.push(second);
        let t = first;
        first = second;
        second = t;
    }
    token.truncate(token_len as usize);
    assert(token@ =~= spec_token(token_len, message_id));
    token
}

/// The register request: a confirmable PUT of `payload` or GET, with the access option where
/// it is sent and the register address as a big-endian option.
pub open spec fn register_request(
    address: u32,
    payload: Option<Seq<u8>>,
    access_option: Option<u8>,
    message_id: u16,
    token: Seq<u8>,
) -> MessageView {
    MessageView {
        version: 1,
        message_type: CoapMessageType::Confirmable,
        code: if payload is Some {
            3
        } else {
            1
        },
        message_id,
        token,
        options: match access_option {
            Some(v) => seq![(65301u16, seq![v]), (65305u16, bytes32(address))],
            None => seq![(65305u16, bytes32(address))],
        },
        payload: match payload {
            Some(p) => p,
            None => seq![],
        },
    }
}

/// A payload that may be absent, viewed.
pub open spec fn payload_view(p: Option<&[u8]>) -> Option<Seq<u8>> {
    match p {
        Some(s) => Some(s@),
        None => None,
    }
}

/// The bytes of a register request and its token. Errors: the access option's
/// (`InvalidAccess`), then encoding's (`Coap`, for a token longer than 8 bytes).
pub fn build_register_request(
    address: u32,
    payload: Option<&[u8]>,
    access: RegisterAccess,
    message_id: u16,
    token_len: u8,
) -> (r: Result<(Vec<u8>, Vec<u8>), RegisterError>)
    ensures
        access.count > 31 ==> (r matches Err(RegisterError::InvalidAccess(m)) && m@
            == "count must be 0-31, got "@ + spec_decimal(access.count as nat)),
        access.count <= 31 ==> match spec_encode(
            register_request(
                address,
                payload_view(payload),
                spec_access_option(access),
                message_id,
                spec_token(token_len, message_id),
            ),
        ) {
            Ok(b) => r matches Ok((bytes, token)) && bytes@ == b && token@ == spec_token(
                token_len,
                message_id,
            ),
            Err(e) => r matches Err(RegisterError::Coap(f)) && f == e,
        },
        access.count <= 31 ==> (r is Ok <==> token_len <= 8),
{
    let token = build_token(token_len, message_id);
    let option_value = match access.option_value() {
        Ok(v) => v,
        Err(e) => return Err(e),
    };
    let mut address_bytes: Vec<u8> = Vec::new();
    crate::compat_stream::push_u32(&mut address_bytes, address);
    assert(address_bytes@ =~= bytes32(address));
    let mut options: Vec<CoapOption> = Vec::new();
    match option_value {
        Some(v) => {
            let value = vec![v];
            assert(value@ =~= seq![v]);
            options.push(CoapOption::new(OPTION_EEV_REG_ACCESS, value));
        },
        None => {},
    }
    let address_option = CoapOption::new(OPTION_EEV_BINARY_ADDRESS, address_bytes);
    options.push(address_option);
    proof {
        let ov = crate::coap::options_view(options@);
        match option_value {
            Some(v) => {
                assert(ov.len() == 2);
                assert(ov[0] == (65301u16, seq![v]));
                assert(ov[1] == (65305u16, bytes32(address)));
            },
            None => {
                assert(ov.len() == 1);
                assert(ov[0] == (65305u16, bytes32(address)));
            },
        }
    }
    let body: Vec<u8> = match payload {
        Some(p) => {
            let mut b: Vec<u8> = Vec::new();
            extend_from_range(&mut b, p, 0, p.len());
            assert(p@.subrange(0, p@.len() as int) =~= p@);
            b
        },
        None => Vec::new(),
    };
    let code = if payload.is_some() {
        CODE_PUT
    } else {
        CODE_GET
    };
    let token_copy = copy_vec(&token);
    let request = CoapMessage::new(
        CoapMessageType::Confirmable,
        code,
        message_id,
        token_copy,
        options,
        body,
    );
    let ghost m = register_request(
        address,
        payload_view(payload),
        spec_access_option(access),
        message_id,
        spec_token(token_len, message_id),
    );
    proof {
        assert(request@.options =~= m.options);
        assert(request@.payload =~= m.payload);
        assert(request@ == m);
        if token_len <= 8 {
            assert(crate::coap::well_formed_message(m));
            lemma_coap_round_trip(m);
        }
    }
    match request.encode() {
        Ok(bytes) => Ok((bytes, token)),
        Err(e) => Err(RegisterError::Coap(e)),
    }
}

fn copy_vec(v: &Vec<u8>) -> (r: Vec<u8>)
    ensures
        r@ == v@,
{
    let mut out: Vec<u8> = Vec::new();
    extend_from_range(&mut out, v.as_slice(), 0, v.len());
    assert(v@.subrange(0, v@.len() as int) =~= v@);
    out
}

fn bytes_equal(a: &[u8], b: &[u8]) -> (r: bool)
    ensures
        r == (a@ == b@),
{
    if a.len() != b.len() {
        return false;
    }
    let mut i: usize = 0;
    while i < a.len()
        invariant
            a@.len() == b@.len(),
            i <= a@.len(),
            forall|j: int| 0 <= j < i ==> a@[j] == b@[j],
        decreases a@.len() - i,
    {
        if a[i] != b[i] {
            return false;
        }
        i = i + 1;
    }
    assert(a@ =~= b@);
    true
}

/// The name a message type is shown by.
pub open spec fn spec_type_name(t: CoapMessageType) -> Seq<char> {
    match t {
        CoapMessageType::Confirmable => "Confirmable"@,
        CoapMessageType::NonConfirmable => "NonConfirmable"@,
        CoapMessageType::Acknowledgement => "Acknowledgement"@,
        CoapMessageType::Reset => "Reset"@,
    }
}

/// A number below 100 in two decimal digits.
pub open spec fn spec_two_digits(n: nat) -> Seq<char> {
    if n < 10 {
        "0"@ + spec_decimal(n)
    } else {
        spec_decimal(n)
    }
}

/// The text of a response code: its name where it has one, else `class.detail`.
pub open spec fn spec_code_text(code: u8) -> Seq<char> {
    match spec_response_code_description(code) {
        Some(s) => s@,
        None => spec_decimal((code >> 5u8) as nat) + "."@ + spec_two_digits((code & 0x1fu8) as nat),
    }
}

/// What is wrong with a response to a request with the given id and token, if anything: it must
/// be an acknowledgement with that id and token and the code Changed or Content.
pub open spec fn spec_response_problem(resp: MessageView, message_id: u16, token: Seq<u8>) -> Option<
    Seq<char>,
> {
    if resp.message_type != CoapMessageType::Acknowledgement {
        Some("unexpected response type "@ + spec_type_name(resp.message_type))
    } else if resp.message_id != message_id {
        Some(
            "response message id mismatch: expected "@ + spec_decimal(message_id as nat)
                + ", got "@ + spec_decimal(resp.message_id as nat),
        )
    } else if resp.token != token {
        Some("response token mismatch"@)
    } else if resp.code != 68 && resp.code != 69 {
        Some("unexpected response code "@ + spec_code_text(resp.code))
    } else {
        None
    }
}

fn push_type_name(out: &mut String, t: CoapMessageType)
    ensures
        final(out)@ == old(out)@ + spec_type_name(t),
{
    match t {
        CoapMessageType::Confirmable => push_str(out, "Confirmable"),
        CoapMessageType::NonConfirmable => push_str(out, "NonConfirmable"),
        CoapMessageType::Acknowledgement => push_str(out, "Acknowledgement"),
        CoapMessageType::Reset => push_str(out, "Reset"),
    }
}

fn push_code_text(out: &mut String, code: u8)
    ensures
        final(out)@ == old(out)@ + spec_code_text(code),
{
    match response_code_description(code) {
        Some(s) => push_str(out, s),
        None => {
            push_decimal(out, (code >> 5u8) as u64);
            push_str(out, ".");
            let detail = code & 0x1fu8;
            if detail < 10 {
                push_str(out, "0");
            }
            push_decimal(out, detail as u64);
            proof {
                if detail < 10 {
                    assert(final(out)@ =~= old(out)@ + spec_code_text(code));
                } else {
                    assert(final(out)@ =~= old(out)@ + spec_code_text(code));
                }
            }
        },
    }
}

/// The payload of a response to the request with the given id and token, or the problem with
/// the response.
pub fn check_register_response(response: CoapMessage, message_id: u16, token: &[u8]) -> (r: Result<
    Vec<u8>,
    RegisterError,
>)
    ensures
        match spec_response_problem(response@, message_id, token@) {
            Some(m) => r matches Err(RegisterError::Response(s)) && s@ == m,
            None => r matches Ok(p) && p@ == response@.payload,
        },
{
    let mut out = String::new();
    if response.message_type != CoapMessageType::Acknowledgement {
        push_str(&mut out, "unexpected response type ");
        push_type_name(&mut out, response.message_type);
        return Err(RegisterError::Response(out));
    }
    if response.message_id != message_id {
        push_str(&mut out, "response message id mismatch: expected ");
        push_decimal(&mut out, message_id as u64);
        push_str(&mut out, ", got ");
        push_decimal(&mut out, response.message_id as u64);
        return Err(RegisterError::Response(out));
    }
    if !bytes_equal(response.token.as_slice(), token) {
        push_str(&mut out, "response token mismatch");
        return Err(RegisterError::Response(out));
    }
    if response.code != CODE_CHANGED && response.code != CODE_CONTENT {
        push_str(&mut out, "unexpected response code ");
        push_code_text(&mut out, response.code);
        return Err(RegisterError::Response(out));
    }
    Ok(response.payload)
}

/// The 32-bit value a register read answered with: its first four bytes, big-endian; an error
/// for a shorter payload.
pub fn decode_u32_payload(payload: &[u8]) -> (r: Result<u32, RegisterError>)
    ensures
        payload@.len() < 4 ==> (r matches Err(RegisterError::Response(m)) && m@
            == "u32 register read requires 4 bytes, got "@ + spec_decimal(payload@.len())),
        payload@.len() >= 4 ==> (r matches Ok(v) && v == be32(payload@, 0)),
{
    if payload.len() < 4 {
        let mut m = String::new();
        push_str(&mut m, "u32 register read requires 4 bytes, got ");
        push_decimal(&mut m, payload.len() as u64);
        return Err(RegisterError::Response(m));
    }
    Ok(crate::compat_stream::read_u32(payload, 0))
}

/// The bytes of `s` before its first zero byte (all of them where there is none).
pub open spec fn spec_before_nul(s: Seq<u8>) -> Seq<u8>
    decreases s.len(),
{
    if s.len() == 0 {
        s
    } else if spec_before_nul(s.drop_last()).len() < s.len() - 1 {
        spec_before_nul(s.drop_last())
    } else if s.last() == 0 {
        s.drop_last()
    } else {
        s
    }
}

proof fn lemma_before_nul(s: Seq<u8>, i: int)
    requires
        0 <= i <= s.len(),
        forall|j: int| 0 <= j < i ==> s[j] != 0,
        i == s.len() || s[i] == 0,
    ensures
        spec_before_nul(s) == s.subrange(0, i),
    decreases s.len(),
{
    if s.len() > 0 {
        if i == s.len() {
            lemma_before_nul(s.drop_last(), i - 1);
            assert(s.drop_last().subrange(0, i - 1) =~= s.drop_last());
            assert(s.subrange(0, i) =~= s);
        } else {
            if i < s.len() - 1 {
                lemma_before_nul(s.drop_last(), i);
                assert(s.drop_last().subrange(0, i) =~= s.subrange(0, i));
            } else {
                lemma_before_nul(s.drop_last(), i);
                assert(s.drop_last().subrange(0, i) =~= s.drop_last());
                assert(s.subrange(0, i) =~= s.drop_last());
            }
        }
    }
}

/// The string a string-register read answered with: the bytes before the first zero byte as
/// UTF-8.
pub fn decode_string_payload(payload: &[u8]) -> (r: Result<String, RegisterError>)
    ensures
        valid_utf8(spec_before_nul(payload@)) ==> (r matches Ok(s) && s@ == decode_utf8(
            spec_before_nul(payload@),
        )),
        !valid_utf8(spec_before_nul(payload@)) ==> r matches Err(RegisterError::InvalidString(_)),
{
    let mut end: usize = 0;
    while end < payload.len() && payload[end] != 0
        invariant
            end <= payload@.len(),
            forall|j: int| 0 <= j < end ==> payload@[j] != 0,
        decreases payload@.len() - end,
    {
        end = end + 1;
    }
    proof {
        lemma_before_nul(payload@, end as int);
    }
    let mut bytes: Vec<u8> = Vec::new();
    extend_from_range(&mut bytes, payload, 0, end);
    assert(bytes@ =~= payload@.subrange(0, end as int));
    match string_from_utf8(bytes) {
        Ok(s) => Ok(s),
        Err(e) => Err(RegisterError::InvalidString(e)),
    }
}

} // verus!
