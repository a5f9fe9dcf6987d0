//! Reading the parameters of a session out of the address a client connects to.
//!
//! The last path segment names the protocol version as `v` followed by a 16-bit number; the
//! query names the client, its datacenter and its flavor. A connection whose address does not
//! give all four is turned away before anything else happens.

use vstd::prelude::*;
use vstd::string::*;

use crate::text::{
    all_digits, decimal_value, parse_u16, same_text, spec_parse_u16, texts_of,
};

verus! {

/// The kind of workload a client runs.
#[derive(Clone, Copy, Debug, PartialEq, Eq, Structural)]
pub enum ClientFlavor {
    Container,
    Isolate,
}

impl ClientFlavor {
    /// The flavor a query value names, if it names one.
    pub open spec fn spec_parse(text: Seq<char>) -> Option<ClientFlavor> {
        if text == "container"@ {
            Some(ClientFlavor::Container)
        } else if text == "isolate"@ {
            Some(ClientFlavor::Isolate)
        } else {
            None
        }
    }

    /// The number under which the store keeps a flavor.
    pub open spec fn spec_repr(self) -> i32 {
        match self {
            ClientFlavor::Container => 0,
            ClientFlavor::Isolate => 1,
        }
    }

    /// Reads a flavor from its name.
    pub fn parse(text: &str) -> (flavor: Option<ClientFlavor>)
        ensures
            flavor == Self::spec_parse(text@),
    {
        if same_text(text, "container") {
            Some(ClientFlavor::Container)
        } else if same_text(text, "isolate") {
            Some(ClientFlavor::Isolate)
        } else {
            None
        }
    }

    /// The name of a flavor, which `parse` reads back.
    pub fn as_str(&self) -> (name: &'static str)
        ensures
            Self::spec_parse(name@) == Some(*self),
    {
        proof {
            reveal_strlit("container");
            reveal_strlit("isolate");
        }
        match self {
            ClientFlavor::Container => "container",
            ClientFlavor::Isolate => {
                assert("isolate"@ != "container"@) by {
                    assert("isolate"@.len() != "container"@.len());
                }
                "isolate"
            },
        }
    }

    /// The number under which the store keeps this flavor.
    pub fn repr(&self) -> (number: i32)
        ensures
            number == self.spec_repr(),
    {
        match self {
            ClientFlavor::Container => 0,
            ClientFlavor::Isolate => 1,
        }
    }
}

/// Why a handshake was refused.
#[derive(Clone, Copy, Debug, PartialEq, Eq, Structural)]
pub enum HandshakeError {
    /// The socket came without an upgrade request.
    NoRequest,
    /// The address is no URL.
    MalformedUrl,
    /// The URL has no path that could be split into segments.
    NoPath,
    /// The path has no segment at all.
    NoPathSegments,
    /// The last path segment does not begin with `v`.
    MissingVersionPrefix,
    /// What follows the `v` is no 16-bit number.
    InvalidVersionNumber,
    /// The query has no `client_id`.
    MissingClientId,
    /// The `client_id` is no UUID.
    InvalidClientId,
    /// The query has no `datacenter_id`.
    MissingDatacenterId,
    /// The `datacenter_id` is no UUID.
    InvalidDatacenterId,
    /// The query has no `flavor`.
    MissingFlavor,
    /// The `flavor` names no known flavor.
    InvalidFlavor,
}

/// What a handshake settles for the whole life of a connection.
#[derive(Clone, Copy, Debug, PartialEq, Eq, Structural)]
pub struct UrlData {
    pub protocol_version: u16,
    pub client_id: u128,
    pub datacenter_id: u128,
    pub flavor: ClientFlavor,
}

/// Whether a path segment is `v` followed by a 16-bit number: the letter, then at least one
/// decimal digit and nothing but digits, the number not above 65535.
pub open spec fn is_version_segment(segment: Seq<char>) -> bool {
    &&& segment.len() > 1
    &&& segment[0] == 'v'
    &&& all_digits(segment.skip(1))
    &&& decimal_value(segment.skip(1)) <= u16::MAX
}

/// The protocol version that a path segment names: `v`, then a 16-bit number written with
/// digits only.
pub open spec fn spec_protocol_version(segment: Seq<char>) -> Result<u16, HandshakeError> {
    if segment.len() > 0 && segment[0] == 'v' {
        match spec_parse_u16(segment.skip(1)) {
            Some(version) => Ok(version),
            None => Err(HandshakeError::InvalidVersionNumber),
        }
    } else {
        Err(HandshakeError::MissingVersionPrefix)
    }
}

/// A version is read from the segments of the form `v` and digits, and from no others: a
/// segment with a sign, a blank or any other character after the `v` is refused.
pub proof fn lemma_version_needs_v_and_digits(segment: Seq<char>)
    ensures
        spec_protocol_version(segment) is Ok <==> is_version_segment(segment),
        is_version_segment(segment) ==> spec_protocol_version(segment) == Ok::<
            u16,
            HandshakeError,
        >(decimal_value(segment.skip(1)) as u16),
{
}

/// Reads the protocol version from the last path segment.
pub fn protocol_version_of(segment: &str) -> (version: Result<u16, HandshakeError>)
    ensures
        version == spec_protocol_version(segment@),
{
    let n = segment.unicode_len();
    if n == 0 || segment.get_char(0) != 'v' {
        return Err(HandshakeError::MissingVersionPrefix);
    }
    let number = segment.substring_char(1, n);
    assert(number@ == segment@.skip(1));
    match parse_u16(number) {
        Some(version) => Ok(version),
        None => Err(HandshakeError::InvalidVersionNumber),
    }
}

/// The query of a URL as text: each pair of a name and its value, in the order written.
pub open spec fn pairs_text(pairs: Seq<(String, String)>) -> Seq<(Seq<char>, Seq<char>)> {
    Seq::new(pairs.len(), |i: int| (pairs[i].0@, pairs[i].1@))
}

/// The value of the first pair named `name`, if the query has such a pair.
pub open spec fn first_value(pairs: Seq<(Seq<char>, Seq<char>)>, name: Seq<char>) -> Option<
    Seq<char>,
>
    decreases pairs.len(),
{
    if pairs.len() == 0 {
        None
    } else if pairs[0].0 == name {
        Some(pairs[0].1)
    } else {
        first_value(pairs.skip(1), name)
    }
}

/// Where a name first occurs decides its value: pairs before it that bear another name do not
/// count.
pub proof fn lemma_first_value_skips(pairs: Seq<(Seq<char>, Seq<char>)>, name: Seq<char>, k: int)
    requires
        0 <= k <= pairs.len(),
        forall|j: int| 0 <= j < k ==> (#[trigger] pairs[j]).0 != name,
    ensures
        first_value(pairs, name) == first_value(pairs.skip(k), name),
    decreases k,
{
    if k == 0 {
        assert(pairs.skip(0) == pairs);
    } else {
        lemma_first_value_skips(pairs, name, k - 1);
        let rest = pairs.skip(k - 1);
        assert(rest[0] == pairs[k - 1]);
        assert(rest.skip(1) == pairs.skip(k));
    }
}

/// Looks a query parameter up by name; of several with that name the first one counts.
pub fn find_param<'a>(pairs: &'a Vec<(String, String)>, name: &str) -> (value: Option<&'a String>)
    ensures
        match value {
            Some(text) => first_value(pairs_text(pairs@), name@) == Some(text@),
            None => first_value(pairs_text(pairs@), name@) is None,
        },
{
    let ghost all = pairs_text(pairs@);
    let mut i: usize = 0;
    while i < pairs.len()
        invariant
            i <= pairs.len(),
            all == pairs_text(pairs@),
            forall|j: int| 0 <= j < i ==> (#[trigger] all[j]).0 != name@,
        decreases pairs.len() - i,
    {
        if same_text(pairs[i].0.as_str(), name) {
            proof {
                lemma_first_value_skips(all, name@, i as int);
                assert(all.skip(i as int)[0] == all[i as int]);
            }
            return Some(&pairs[i].1);
        }
        i += 1;
    }
    proof {
        lemma_first_value_skips(all, name@, pairs.len() as int);
    }
    None
}

/// What of a URL the handshake reads: the segments of its path, where it has a path of
/// segments, and the pairs of its query.
pub struct UrlParts {
    pub path_segments: Option<Vec<String>>,
    pub query_pairs: Vec<(String, String)>,
}

/// `UrlParts` as text.
pub struct UrlPartsView {
    pub path_segments: Option<Seq<Seq<char>>>,
    pub query_pairs: Seq<(Seq<char>, Seq<char>)>,
}

impl View for UrlParts {
    type V = UrlPartsView;

    open spec fn view(&self) -> UrlPartsView {
        UrlPartsView {
            path_segments: match self.path_segments {
                Some(segments) => Some(texts_of(segments@)),
                None => None,
            },
            query_pairs: pairs_text(self.query_pairs@),
        }
    }
}

/// Whether `text` is a UUID in one of the forms that are accepted, and if so which.
pub uninterp spec fn uuid_parse_str(text: Seq<char>) -> Option<u128>;

/// The identifier that a query value holds.
pub open spec fn spec_identifier(
    pairs: Seq<(Seq<char>, Seq<char>)>,
    name: Seq<char>,
    missing: HandshakeError,
    invalid: HandshakeError,
) -> Result<u128, HandshakeError> {
    match first_value(pairs, name) {
        None => Err(missing),
        Some(text) => match uuid_parse_str(text) {
            Some(id) => Ok(id),
            None => Err(invalid),
        },
    }
}

/// The flavor that the query names.
pub open spec fn spec_flavor(pairs: Seq<(Seq<char>, Seq<char>)>) -> Result<
    ClientFlavor,
    HandshakeError,
> {
    match first_value(pairs, "flavor"@) {
        None => Err(HandshakeError::MissingFlavor),
        Some(text) => match ClientFlavor::spec_parse(text) {
            Some(flavor) => Ok(flavor),
            None => Err(HandshakeError::InvalidFlavor),
        },
    }
}

/// The protocol version that a path names in its last segment.
pub open spec fn spec_path_version(path_segments: Option<Seq<Seq<char>>>) -> Result<
    u16,
    HandshakeError,
> {
    match path_segments {
        None => Err(HandshakeError::NoPath),
        Some(segments) => if segments.len() == 0 {
            Err(HandshakeError::NoPathSegments)
        } else {
            spec_protocol_version(segments.last())
        },
    }
}

/// The session parameters that the parts of a URL give. The parts are read in a fixed order
/// (version, client, datacenter, flavor) and the first one that is missing or malformed
/// decides the error.
pub open spec fn spec_url_data(parts: UrlPartsView) -> Result<UrlData, HandshakeError> {
    match spec_path_version(parts.path_segments) {
        Err(e) => Err(e),
        Ok(protocol_version) => match spec_identifier(
            parts.query_pairs,
            "client_id"@,
            HandshakeError::MissingClientId,
            HandshakeError::InvalidClientId,
        ) {
            Err(e) => Err(e),
            Ok(client_id) => match spec_identifier(
                parts.query_pairs,
                "datacenter_id"@,
                HandshakeError::MissingDatacenterId,
                HandshakeError::InvalidDatacenterId,
            ) {
                Err(e) => Err(e),
                Ok(datacenter_id) => match spec_flavor(parts.query_pairs) {
                    Err(e) => Err(e),
                    Ok(flavor) => Ok(
                        UrlData { protocol_version, client_id, datacenter_id, flavor },
                    ),
                },
            },
        },
    }
}

/// `uuid::Error`, the error of `Uuid::parse_str`. Nothing is known of what it holds.
#[verifier::external_type_specification]
#[verifier::external_body]
pub struct ExUuidError(uuid::Error);

/// `uuid::Uuid::parse_str`, with the UUID handed back as the 128-bit number that
/// `Uuid::as_u128` gives. The contract only names the outcome: the same text always parses
/// alike.
#[verifier::external_body]
fn parse_uuid(text: &str) -> (id: Result<u128, uuid::Error>)
    ensures
        match id {
            Ok(value) => uuid_parse_str(text@) == Some(value),
            Err(_) => uuid_parse_str(text@) is None,
        },
{
    match uuid::Uuid::parse_str(text) {
        Ok(id) => Ok(id.as_u128()),
        Err(e) => Err(e),
    }
}

/// Reads the identifier that the query gives under `name`.
fn identifier_of(
    pairs: &Vec<(String, String)>,
    name: &str,
    missing: HandshakeError,
    invalid: HandshakeError,
) -> (id: Result<u128, HandshakeError>)
    ensures
        id == spec_identifier(pairs_text(pairs@), name@, missing, invalid),
{
    match find_param(pairs, name) {
        None => Err(missing),
        Some(text) => match parse_uuid(text.as_str()) {
            Ok(id) => Ok(id),
            Err(_) => Err(invalid),
        },
    }
}

/// Reads the session parameters from the parts of a URL.
pub fn url_data_from_parts(parts: &UrlParts) -> (data: Result<UrlData, HandshakeError>)
    ensures
        data == spec_url_data(parts@),
{
    let protocol_version = match &parts.path_segments {
        None => {
            return Err(HandshakeError::NoPath);
        },
        Some(segments) => {
            if segments.len() == 0 {
                return Err(HandshakeError::NoPathSegments);
            }
            let last = &segments[segments.len() - 1];
            assert(texts_of(segments@).last() == last@);
            match protocol_version_of(last.as_str()) {
                Ok(version) => version,
                Err(e) => {
                    return Err(e);
                },
            }
        },
    };
    let client_id = match identifier_of(
        &parts.query_pairs,
        "client_id",
        HandshakeError::MissingClientId,
        HandshakeError::InvalidClientId,
    ) {
        Ok(id) => id,
        Err(e) => {
            return Err(e);
        },
    };
    let datacenter_id = match identifier_of(
        &parts.query_pairs,
        "datacenter_id",
        HandshakeError::MissingDatacenterId,
        HandshakeError::InvalidDatacenterId,
    ) {
        Ok(id) => id,
        Err(e) => {
            return Err(e);
        },
    };
    let flavor = match find_param(&parts.query_pairs, "flavor") {
        None => {
            return Err(HandshakeError::MissingFlavor);
        },
        Some(text) => match ClientFlavor::parse(text.as_str()) {
            Some(flavor) => flavor,
            None => {
                return Err(HandshakeError::InvalidFlavor);
            },
        },
    };
    Ok(UrlData { protocol_version, client_id, datacenter_id, flavor })
}

/// Whether `text` is an absolute URL.
pub uninterp spec fn url_parses(text: Seq<char>) -> bool;

/// The path segments of the URL written in `text`; `None` where its path cannot be split.
pub uninterp spec fn url_path_segments(text: Seq<char>) -> Option<Seq<Seq<char>>>;

/// The name and value pairs of the query of the URL written in `text`, decoded.
pub uninterp spec fn url_query_pairs(text: Seq<char>) -> Seq<(Seq<char>, Seq<char>)>;

/// `url::ParseError`, the error of `Url::parse`. Nothing is known of what it holds.
#[verifier::external_type_specification]
#[verifier::external_body]
pub struct ExUrlParseError(url::ParseError);

/// `url::Url::parse`, then `Url::path_segments` and `Url::query_pairs` on the URL it gives,
/// each item copied into a `String`. The contract only names the three outcomes: whether the
/// text is a URL, and the segments and the pairs of that URL.
#[verifier::external_body]
fn split_url(text: &str) -> (parts: Result<UrlParts, url::ParseError>)
    ensures
        parts is Ok <==> url_parses(text@),
        parts matches Ok(p) ==> p@.path_segments == url_path_segments(text@),
        parts matches Ok(p) ==> p@.query_pairs == url_query_pairs(text@),
{
    let url = url::Url::parse(text)?;
    let path_segments = url.path_segments().map(|segments| segments.map(String::from).collect());
    let query_pairs = url.query_pairs().map(|(name, value)| (name.into(), value.into())).collect();
    Ok(UrlParts { path_segments, query_pairs })
}

/// The address that a connection was opened to: the socket address it arrived at and the URI
/// it asked for, as one WebSocket URL.
pub open spec fn spec_session_url(addr: Seq<char>, uri: Seq<char>) -> Seq<char> {
    "ws://"@ + addr + uri
}

/// The session parameters that the URL written in `text` gives.
pub open spec fn spec_parse_url_text(text: Seq<char>) -> Result<UrlData, HandshakeError> {
    if url_parses(text) {
        spec_url_data(
            UrlPartsView {
                path_segments: url_path_segments(text),
                query_pairs: url_query_pairs(text),
            },
        )
    } else {
        Err(HandshakeError::MalformedUrl)
    }
}

/// Reads the session parameters of a connection from the socket address it arrived at and
/// the URI of its upgrade request.
pub fn parse_url(addr: &str, uri: &str) -> (data: Result<UrlData, HandshakeError>)
    ensures
        data == spec_parse_url_text(spec_session_url(addr@, uri@)),
{
    let text = String::from_str("ws://").concat(addr).concat(uri);
    match split_url(text.as_str()) {
        Ok(parts) => url_data_from_parts(&parts),
        Err(_) => Err(HandshakeError::MalformedUrl),
    }
}

} // verus!
