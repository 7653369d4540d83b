use vstd::prelude::*;
use vstd::utf8::{decode_utf8, valid_utf8};

use crate::coap::{
    bytes_result, lemma_coap_round_trip, spec_coap_error_message, spec_encode, well_formed_message,
    CoapError, CoapMessage, CoapMessageType, CoapOption, MessageView,
};
use crate::string_map::{string_values, StringMap};
use crate::text::{
    is_blank, owned, push_str, spec_split, spec_split_once, spec_trim, spec_trim_matches,
    split_char, split_once_char, trim, trim_matches_char,
};

verus! {

#[verifier::external_type_specification]
#[verifier::external_body]
pub struct ExUtf8Error(std::str::Utf8Error);

#[verifier::external_type_specification]
#[verifier::external_body]
pub struct ExIoError(std::io::Error);

/// The UDP port devices listen on for discovery.
pub const DISCOVERY_PORT: u16 = 5683;

/// The resource type a camera advertises.
pub const DISCOVERY_RESOURCE_TYPE: &'static str = "eev.cam";

/// `std::str::from_utf8`: the bytes as a string slice when they are valid UTF-8, else the error.
/// The contract claims the documented behaviour: success exactly on valid UTF-8, and then the
/// characters the bytes encode.
#[verifier::external_body]
pub(crate) fn str_from_utf8(bytes: &[u8]) -> (r: Result<&str, std::str::Utf8Error>)
    ensures
        r is Ok <==> valid_utf8(bytes@),
        r matches Ok(s) ==> s@ == decode_utf8(bytes@),
{
    std::str::from_utf8(bytes)
}

/// The text of an I/O error (its `Display` rendering, which std does not pin down).
#[verifier::external_body]
pub(crate) fn io_error_text(e: &std::io::Error) -> String {
    format!("{}", e)
}

/// The text of a UTF-8 error (its `Display` rendering, which std does not pin down).
#[verifier::external_body]
fn utf8_error_text(e: &std::str::Utf8Error) -> String {
    format!("{}", e)
}

/// One link of an advertisement: its target and its attributes.
#[derive(Debug, PartialEq, Eq)]
pub struct DiscoveryLink {
    pub target: String,
    pub attributes: StringMap<String>,
}

/// A link with its target as characters and its attributes as a map.
pub struct LinkView {
    pub target: Seq<char>,
    pub attributes: Map<Seq<char>, Seq<char>>,
}

impl View for DiscoveryLink {
    type V = LinkView;

    open spec fn view(&self) -> LinkView {
        LinkView { target: self.target@, attributes: string_values(self.attributes@) }
    }
}

/// The links a device advertises.
#[derive(Debug, PartialEq, Eq)]
pub struct DiscoveryAdvertisement {
    pub links: Vec<DiscoveryLink>,
}

impl View for DiscoveryAdvertisement {
    type V = Seq<LinkView>;

    open spec fn view(&self) -> Seq<LinkView> {
        self.links@.map_values(|l: DiscoveryLink| l@)
    }
}

/// What can go wrong discovering devices.
#[derive(Debug)]
pub enum DiscoveryError {
    Io(std::io::Error),
    Coap(CoapError),
    InvalidUtf8(std::str::Utf8Error),
    InvalidAdvertisement(String),
}

impl DiscoveryError {
    /// The human-readable text of this error. For an I/O or UTF-8 error it is std's text.
    pub fn message(&self) -> (r: String)
        ensures
            *self matches DiscoveryError::Coap(e) ==> r@ == spec_coap_error_message(e),
            *self matches DiscoveryError::InvalidAdvertisement(p) ==> r@
                == "invalid discovery advertisement payload: "@ + p@,
    {
        match self {
            DiscoveryError::Io(e) => io_error_text(e),
            DiscoveryError::Coap(e) => e.message(),
            DiscoveryError::InvalidUtf8(e) => utf8_error_text(e),
            DiscoveryError::InvalidAdvertisement(p) => {
                let mut out = String::new();
                push_str(&mut out, "invalid discovery advertisement payload: ");
                push_str(&mut out, p.as_str());
                out
            },
        }
    }
}

/// The bytes of `.well-known`.
pub open spec fn well_known_bytes() -> Seq<u8> {
    seq![0x2eu8, 0x77, 0x65, 0x6c, 0x6c, 0x2d, 0x6b, 0x6e, 0x6f, 0x77, 0x6e]
}

/// The bytes of `core`.
pub open spec fn core_bytes() -> Seq<u8> {
    seq![0x63u8, 0x6f, 0x72, 0x65]
}

/// The bytes of `rt=eev.cam`.
pub open spec fn resource_type_query_bytes() -> Seq<u8> {
    seq![0x72u8, 0x74, 0x3d, 0x65, 0x65, 0x76, 0x2e, 0x63, 0x61, 0x6d]
}

/// The discovery request: a non-confirmable GET of `/.well-known/core?rt=eev.cam`.
pub open spec fn discovery_request(token: Seq<u8>, message_id: u16) -> MessageView {
    MessageView {
        version: 1,
        message_type: CoapMessageType::NonConfirmable,
        code: 1,
        message_id,
        token,
        options: seq![(11u16, well_known_bytes()), (11u16, core_bytes()), (15u16, resource_type_query_bytes())],
        payload: seq![],
    }
}

/// The bytes of the discovery request; an error where the token is longer than 8 bytes.
pub fn build_discovery_request(token: &[u8], message_id: u16) -> (r: Result<Vec<u8>, CoapError>)
    ensures
        bytes_result(r) == spec_encode(discovery_request(token@, message_id)),
        r is Ok <==> token@.len() <= 8,
{
    let mut token_bytes: Vec<u8> = Vec::new();
    crate::compat_stream::extend_from_range(&mut token_bytes, token, 0, token.len());
    let options = vec![
        CoapOption::new(11, vec![0x2eu8, 0x77, 0x65, 0x6c, 0x6c, 0x2d, 0x6b, 0x6e, 0x6f, 0x77, 0x6e]),
        CoapOption::new(11, vec![0x63u8, 0x6f, 0x72, 0x65]),
        CoapOption::new(15, vec![0x72u8, 0x74, 0x3d, 0x65, 0x65, 0x76, 0x2e, 0x63, 0x61, 0x6d]),
    ];
    let message = CoapMessage::new(
        CoapMessageType::NonConfirmable,
        1,
        message_id,
        token_bytes,
        options,
        Vec::new(),
    );
    proof {
        assert(token@.subrange(0, token@.len() as int) =~= token@);
        let m = discovery_request(token@, message_id);
        assert(message@.options =~= m.options);
        assert(message@.payload =~= m.payload);
        assert(message@ == m);
        if token@.len() <= 8 {
            lemma_coap_round_trip(m);
        }
    }
    message.encode()
}

/// One attribute of a link: `key=value` (quotes round the value dropped) or a bare `key`; none
/// for a blank part.
pub open spec fn spec_attribute(part: Seq<char>) -> Option<(Seq<char>, Seq<char>)> {
    let t = spec_trim(part);
    if t.len() == 0 {
        None
    } else {
        match spec_split_once(t, '=') {
            Some((k, v)) => Some((k, spec_trim_matches(v, '"'))),
            None => Some((t, seq![])),
        }
    }
}

/// The attributes of the parts of a link after its target, a later key winning.
pub open spec fn spec_attributes(parts: Seq<Seq<char>>) -> Map<Seq<char>, Seq<char>>
    decreases parts.len(),
{
    if parts.len() == 0 {
        Map::empty()
    } else {
        let m = spec_attributes(parts.drop_last());
        match spec_attribute(parts.last()) {
            Some((k, v)) => m.insert(k, v),
            None => m,
        }
    }
}

/// The target of a link: the text between `<` and `>`.
pub open spec fn spec_target(t: Seq<char>) -> Option<Seq<char>> {
    if t.len() >= 2 && t[0] == '<' && t.last() == '>' {
        Some(t.subrange(1, t.len() - 1))
    } else {
        None
    }
}

/// The link an entry of the advertisement describes, if it is one.
pub open spec fn spec_link(entry: Seq<char>) -> Option<LinkView> {
    let parts = spec_split(spec_trim(entry), ';');
    match spec_target(parts[0]) {
        Some(target) => Some(LinkView { target, attributes: spec_attributes(parts.drop_first()) }),
        None => None,
    }
}

/// The links of the non-blank entries, or the first entry (trimmed) that is not a link.
pub open spec fn spec_links(entries: Seq<Seq<char>>) -> Result<Seq<LinkView>, Seq<char>>
    decreases entries.len(),
{
    if entries.len() == 0 {
        Ok(seq![])
    } else {
        match spec_links(entries.drop_last()) {
            Err(e) => Err(e),
            Ok(links) => {
                let e = entries.last();
                if spec_trim(e).len() == 0 {
                    Ok(links)
                } else {
                    match spec_link(e) {
                        Some(l) => Ok(links.push(l)),
                        None => Err(spec_trim(e)),
                    }
                }
            },
        }
    }
}

/// The links of an advertisement's text, or the text that makes it invalid: the first entry
/// that is not a link, or the whole text when it holds no link.
pub open spec fn spec_advertisement(text: Seq<char>) -> Result<Seq<LinkView>, Seq<char>> {
    match spec_links(spec_split(text, ',')) {
        Ok(links) => if links.len() == 0 {
            Err(text)
        } else {
            Ok(links)
        },
        Err(e) => Err(e),
    }
}

proof fn lemma_links_error_sticks(entries: Seq<Seq<char>>, k: int)
    requires
        0 <= k <= entries.len(),
        spec_links(entries.subrange(0, k)) is Err,
    ensures
        spec_links(entries) == spec_links(entries.subrange(0, k)),
    decreases entries.len() - k,
{
    if k == entries.len() {
        assert(entries.subrange(0, k) =~= entries);
    } else {
        assert(entries.subrange(0, k + 1).drop_last() =~= entries.subrange(0, k));
        lemma_links_error_sticks(entries, k + 1);
    }
}

/// Whether an entry of an advertisement holds anything once trimmed.
pub open spec fn spec_nonblank(e: Seq<char>) -> bool {
    spec_trim(e).len() > 0
}

/// An advertisement's entries yield one link per non-blank entry, in order: where they parse,
/// there are as many links as non-blank entries, and link `i` is the link the `i`-th
/// non-blank entry describes.
pub proof fn lemma_links_one_per_entry(entries: Seq<Seq<char>>)
    requires
        spec_links(entries) is Ok,
    ensures
        spec_links(entries) matches Ok(links) && {
            let filled = entries.filter(|e: Seq<char>| spec_nonblank(e));
            &&& links.len() == filled.len()
            &&& forall|i: int| 0 <= i < filled.len() ==> spec_link(filled[i]) == Some(#[trigger] links[i])
        },
    decreases entries.len(),
{
    let pred = |e: Seq<char>| spec_nonblank(e);
    if entries.len() > 0 {
        let rest = entries.drop_last();
        if spec_links(rest) is Err {
            assert(spec_links(entries) is Err);
        } else {
            lemma_links_one_per_entry(rest);
            let prev = spec_links(rest)->Ok_0;
            let filled_rest = rest.filter(pred);
            reveal(Seq::filter);
            assert(entries.filter(pred) == if pred(entries.last()) {
                filled_rest.push(entries.last())
            } else {
                filled_rest
            });
        }
    }
}

/// The links of an advertisement are one per non-blank comma-separated entry of its text, in
/// order, each the link its entry describes.
pub proof fn lemma_advertisement_links(text: Seq<char>)
    requires
        spec_advertisement(text) is Ok,
    ensures
        spec_advertisement(text) matches Ok(links) && {
            let filled = spec_split(text, ',').filter(|e: Seq<char>| spec_nonblank(e));
            &&& links.len() == filled.len()
            &&& forall|i: int| 0 <= i < filled.len() ==> spec_link(filled[i]) == Some(#[trigger] links[i])
        },
{
    lemma_links_one_per_entry(spec_split(text, ','));
}

fn parse_link(entry: &str) -> (r: Option<DiscoveryLink>)
    ensures
        match spec_link(entry@) {
            Some(l) => r matches Some(x) && x@ == l,
            None => r is None,
        },
{
    let t = trim(entry);
    let parts = split_char(t, ';');
    let ghost pv = spec_split(t@, ';');
    let target = parts[0];
    let n = target.unicode_len();
    if !(n >= 2 && target.get_char(0) == '<' && target.get_char(n - 1) == '>') {
        return None;
    }
    let inner = target.substring_char(1, n - 1);
    let mut attributes: StringMap<String> = StringMap::new();
    assert(string_values(attributes@) =~= Map::<Seq<char>, Seq<char>>::empty());
    let mut j: usize = 1;
    assert(pv.subrange(1, 1) =~= seq![]);
    while j < parts.len()
        invariant
            parts@.len() == pv.len(),
            forall|i: int| 0 <= i < parts@.len() ==> (#[trigger] parts@[i])@ == pv[i],
            1 <= j <= parts@.len(),
            string_values(attributes@) == spec_attributes(pv.subrange(1, j as int)),
        decreases parts@.len() - j,
    {
        let part = trim(parts[j]);
        assert(pv.subrange(1, j + 1).drop_last() =~= pv.subrange(1, j as int));
        assert(pv.subrange(1, j + 1).last() == pv[j as int]);
        if part.unicode_len() > 0 {
            match split_once_char(part, '=') {
                Some((k, v)) => {
                    let value = trim_matches_char(v, '"');
                    let key = owned(k);
                    let value = owned(value);
                    let ghost before = attributes@;
                    attributes.insert(key, value);
                    assert(string_values(attributes@) =~= string_values(before).insert(key@, value@));
                },
                None => {
                    let key = owned(part);
                    let value = String::new();
                    let ghost before = attributes@;
                    attributes.insert(key, value);
                    assert(string_values(attributes@) =~= string_values(before).insert(key@, value@));
                },
            }
        }
        j = j + 1;
    }
    assert(pv.subrange(1, pv.len() as int) =~= pv.drop_first());
    Some(DiscoveryLink { target: owned(inner), attributes })
}

/// Parses the link-format payload of a discovery answer.
pub fn parse_discovery_advertisement(payload: &[u8]) -> (r: Result<
    DiscoveryAdvertisement,
    DiscoveryError,
>)
    ensures
        !valid_utf8(payload@) <==> r matches Err(DiscoveryError::InvalidUtf8(_)),
        valid_utf8(payload@) ==> match spec_advertisement(decode_utf8(payload@)) {
            Ok(links) => r matches Ok(a) && a@ == links,
            Err(t) => r matches Err(DiscoveryError::InvalidAdvertisement(s)) && s@ == t,
        },
{
    let text = match str_from_utf8(payload) {
        Ok(t) => t,
        Err(e) => return Err(DiscoveryError::InvalidUtf8(e)),
    };
    let entries = split_char(text, ',');
    let ghost ev = spec_split(text@, ',');
    let mut links: Vec<DiscoveryLink> = Vec::new();
    let mut i: usize = 0;
    assert(ev.subrange(0, 0) =~= seq![]);
    assert(links@.map_values(|l: DiscoveryLink| l@) =~= seq![]);
    while i < entries.len()
        invariant
            valid_utf8(payload@),
            text@ == decode_utf8(payload@),
            ev == spec_split(text@, ','),
            entries@.len() == ev.len(),
            forall|k: int| 0 <= k < entries@.len() ==> (#[trigger] entries@[k])@ == ev[k],
            i <= entries@.len(),
            spec_links(ev.subrange(0, i as int)) == Ok::<Seq<LinkView>, Seq<char>>(
                links@.map_values(|l: DiscoveryLink| l@),
            ),
        decreases entries@.len() - i,
    {
        let entry = entries[i];
        assert(ev.subrange(0, i + 1).drop_last() =~= ev.subrange(0, i as int));
        assert(ev.subrange(0, i + 1).last() == ev[i as int]);
        if !is_blank(entry) {
            match parse_link(entry) {
                Some(link) => {
                    let ghost before = links@.map_values(|l: DiscoveryLink| l@);
                    links.push(link);
                    assert(links@.map_values(|l: DiscoveryLink| l@) =~= before.push(link@));
                },
                None => {
                    proof {
                        lemma_links_error_sticks(ev, i + 1);
                    }
                    return Err(DiscoveryError::InvalidAdvertisement(owned(trim(entry))));
                },
            }
        }
        i = i + 1;
    }
    assert(ev.subrange(0, ev.len() as int) =~= ev);
    if links.len() == 0 {
        return Err(DiscoveryError::InvalidAdvertisement(owned(text)));
    }
    Ok(DiscoveryAdvertisement { links })
}

} // verus!
