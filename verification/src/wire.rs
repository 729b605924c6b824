//! The byte form of control frames.
//!
//! A control frame is written as the number of its variant followed by its fields, each in
//! the `bincode` standard configuration. Writing goes field by field; reading hands the
//! whole frame to `bincode`, one call for each shape of frame.

use vstd::prelude::*;
use vstd::utf8::encode_utf8;

use crate::frame::{CloseReason, CloseReasonView, ErrorCode, Frame, FrameView, HandshakeFrame,
    HandshakeStatus, Metadata, OpenStreamFrame, Protocol, RegisterStatus, StreamPriority,
    StreamStatus, distinct_keys, pairs_map};
use crate::text::{append_decimal, byte_len, decimal_text, opt_text, same_text, text_pairs,
    texts};

verus! {

/// What `bincode` reports when it cannot write a value.
#[verifier::external_type_specification]
#[verifier::external_body]
pub struct ExEncodeError(bincode_next::error::EncodeError);

/// Ceiling on the bytes that reading one control frame may claim.
pub const CLAIM_LIMIT: usize = 16_777_216;

/// The bytes of an unsigned number: one byte below 251, else a marker byte and two, four or
/// eight bytes, least significant first.
#[verifier::opaque]
pub open spec fn uint_bytes(n: u64) -> Seq<u8> {
    if n < 251 {
        seq![n as u8]
    } else if n <= 0xffff {
        seq![251u8, (n % 256) as u8, (n / 256) as u8]
    } else if n <= 0xffff_ffff {
        seq![
            252u8,
            (n % 256) as u8,
            (n / 256 % 256) as u8,
            (n / 65536 % 256) as u8,
            (n / 16777216) as u8,
        ]
    } else {
        seq![
            253u8,
            (n % 256) as u8,
            (n / 256 % 256) as u8,
            (n / 65536 % 256) as u8,
            (n / 16777216 % 256) as u8,
            (n / 4294967296 % 256) as u8,
            (n / 1099511627776 % 256) as u8,
            (n / 281474976710656 % 256) as u8,
            (n / 72057594037927936) as u8,
        ]
    }
}

/// The bytes of a byte string: its length and the bytes themselves.
pub open spec fn blob_bytes(b: Seq<u8>) -> Seq<u8> {
    uint_bytes(b.len() as u64) + b
}

/// The bytes of a text: its length in UTF-8 and the UTF-8 bytes.
pub open spec fn text_bytes(s: Seq<char>) -> Seq<u8> {
    blob_bytes(encode_utf8(s))
}

/// The 16 bytes of a session id, most significant first.
pub open spec fn id_bytes(id: u128) -> Seq<u8> {
    Seq::new(16, |i: int| (id >> ((120 - 8 * i) as u128)) as u8)
}

/// The bytes of an optional value, given those of the value.
pub open spec fn option_bytes(value: Option<Seq<u8>>) -> Seq<u8> {
    match value {
        Some(b) => seq![1u8] + b,
        None => seq![0u8],
    }
}

/// The bytes of a list's texts, one after the other.
pub open spec fn concat_texts(list: Seq<Seq<char>>) -> Seq<u8>
    decreases list.len(),
{
    if list.len() == 0 {
        Seq::empty()
    } else {
        concat_texts(list.drop_last()) + text_bytes(list.last())
    }
}

/// The bytes of a list of texts: their number and each of them.
pub open spec fn texts_bytes(list: Seq<Seq<char>>) -> Seq<u8> {
    uint_bytes(list.len() as u64) + concat_texts(list)
}

/// The bytes of a list's pairs, one after the other.
pub open spec fn concat_pairs(list: Seq<(Seq<char>, Seq<char>)>) -> Seq<u8>
    decreases list.len(),
{
    if list.len() == 0 {
        Seq::empty()
    } else {
        concat_pairs(list.drop_last()) + (text_bytes(list.last().0) + text_bytes(list.last().1))
    }
}

/// The bytes of a list of pairs: their number and each of them.
pub open spec fn pairs_bytes(list: Seq<(Seq<char>, Seq<char>)>) -> Seq<u8> {
    uint_bytes(list.len() as u64) + concat_pairs(list)
}

/// What reading a text claims of the ceiling: eight bytes for its length, and its bytes.
pub open spec fn text_claim(s: Seq<char>) -> nat {
    8 + byte_len(s)
}

/// What reading a list of texts claims of the ceiling.
pub open spec fn texts_claim(list: Seq<Seq<char>>) -> nat
    decreases list.len(),
{
    if list.len() == 0 {
        8
    } else {
        texts_claim(list.drop_last()) + text_claim(list.last())
    }
}

/// What reading a list of pairs claims of the ceiling.
pub open spec fn pairs_claim(list: Seq<(Seq<char>, Seq<char>)>) -> nat
    decreases list.len(),
{
    if list.len() == 0 {
        8
    } else {
        pairs_claim(list.drop_last()) + text_claim(list.last().0) + text_claim(list.last().1)
    }
}

/// Writes an unsigned number.
///
/// Calls `bincode_next::serde::encode_to_vec`: a `u64` in the standard configuration is
/// written as [`uint_bytes`] says, and so is a `u32`, a length or a variant number of the
/// same value; writing to a vector does not fail.
#[verifier::external_body]
fn encode_uint(n: u64) -> (r: Result<Vec<u8>, bincode_next::error::EncodeError>)
    ensures
        r is Ok,
        r->Ok_0@ == uint_bytes(n),
{
    bincode_next::serde::encode_to_vec(n, bincode_next::config::standard())
}

/// Writes a text.
///
/// Calls `bincode_next::serde::encode_to_vec`: a string is written as its length in bytes
/// and its UTF-8 bytes; writing to a vector does not fail.
#[verifier::external_body]
fn encode_text(s: &str) -> (r: Result<Vec<u8>, bincode_next::error::EncodeError>)
    ensures
        r is Ok,
        r->Ok_0@ == text_bytes(s@),
{
    bincode_next::serde::encode_to_vec(s, bincode_next::config::standard())
}

/// Writes a byte string.
///
/// Calls `bincode_next::serde::encode_to_vec`: a byte slice is written as its length and its
/// bytes; writing to a vector does not fail.
#[verifier::external_body]
fn encode_blob(b: &[u8]) -> (r: Result<Vec<u8>, bincode_next::error::EncodeError>)
    ensures
        r is Ok,
        r->Ok_0@ == blob_bytes(b@),
{
    bincode_next::serde::encode_to_vec(b, bincode_next::config::standard())
}

/// Writes a session id.
///
/// Calls `bincode_next::serde::encode_to_vec` on a `uuid::Uuid`, which is written as a byte
/// string of its 16 bytes; writing to a vector does not fail.
#[verifier::external_body]
fn encode_id(id: u128) -> (r: Result<Vec<u8>, bincode_next::error::EncodeError>)
    ensures
        r is Ok,
        r->Ok_0@ == blob_bytes(id_bytes(id)),
{
    bincode_next::serde::encode_to_vec(
        uuid::Uuid::from_u128(id),
        bincode_next::config::standard(),
    )
}

/// How reading a number failed.
#[derive(Debug, Clone, PartialEq, Eq)]
pub struct ReadFailure {
    /// Whether the input ended before the number did.
    pub ends_early: bool,
    /// What went wrong, in words.
    pub words: String,
}

/// What `bincode` reads as a `u32` at the start of the given bytes, or else whether they end
/// early and what is wrong in words.
pub uninterp spec fn decoded_number(bytes: Seq<u8>) -> Result<u32, (bool, Seq<char>)>;

/// Reads a number from the start of `bytes`.
///
/// Calls `bincode_next::serde::decode_from_slice` for a `u32`. The result is
/// [`decoded_number`], the error as its message; it is the number whose bytes the input starts
/// with, and nothing can be read from no bytes.
#[verifier::external_body]
fn decode_number(bytes: &[u8]) -> (r: Result<u32, ReadFailure>)
    ensures
        match r {
            Ok(n) => decoded_number(bytes@) == Ok::<u32, (bool, Seq<char>)>(n),
            Err(e) => decoded_number(bytes@) == Err::<u32, (bool, Seq<char>)>(
                (e.ends_early, e.words@),
            ),
        },
        forall|n: u32, rest: Seq<u8>|
            #![trigger uint_bytes(n as u64) + rest]
            bytes@ == uint_bytes(n as u64) + rest ==> r is Ok && r->Ok_0 == n,
        bytes@.len() == 0 ==> r is Err && r->Err_0.ends_early,
{
    let config = bincode_next::config::standard().with_limit::<CLAIM_LIMIT>();
    let read: Result<(u32, usize), _> = bincode_next::serde::decode_from_slice(bytes, config);
    match read {
        Ok((n, _)) => Ok(n),
        Err(e) => Err(
            ReadFailure {
                ends_early: matches!(e, bincode_next::error::DecodeError::UnexpectedEnd { .. }),
                words: e.to_string(),
            },
        ),
    }
}

/// The bytes of a handshake frame.
pub open spec fn handshake_bytes(
    token: Seq<char>,
    tunnel_id: Option<Seq<char>>,
    min_version: u8,
    max_version: u8,
    capabilities: Seq<Seq<char>>,
) -> Seq<u8> {
    uint_bytes(0) + (text_bytes(token) + (option_bytes(
        match tunnel_id {
            Some(t) => Some(text_bytes(t)),
            None => None,
        },
    ) + (seq![min_version, max_version] + texts_bytes(capabilities))))
}

/// What reading a handshake frame claims of the ceiling.
pub open spec fn handshake_claim(
    token: Seq<char>,
    tunnel_id: Option<Seq<char>>,
    capabilities: Seq<Seq<char>>,
) -> nat {
    text_claim(token) + match tunnel_id {
        Some(t) => text_claim(t),
        None => 0,
    } + texts_claim(capabilities)
}

/// What `bincode` reads as a handshake frame: token, tunnel id, oldest and newest version,
/// capabilities.
pub uninterp spec fn decoded_handshake(bytes: Seq<u8>) -> Result<
    (Seq<char>, Option<Seq<char>>, u8, u8, Seq<Seq<char>>),
    Seq<char>,
>;

/// Reads a handshake frame.
///
/// Calls `bincode_next::serde::decode_from_slice` for the variant number and the fields of a
/// handshake. The result is [`decoded_handshake`]; bytes that were written for a handshake
/// are read as that handshake, within the ceiling on claimed bytes.
///
/// An error is given as its message.
#[verifier::external_body]
fn decode_handshake(bytes: &[u8]) -> (r: Result<
    (String, Option<String>, u8, u8, Vec<String>),
    String,
>)
    ensures
        match r {
            Ok(v) => decoded_handshake(bytes@) matches Ok(t) && t == (
                v.0@,
                opt_text(v.1),
                v.2,
                v.3,
                texts(v.4@),
            ),
            Err(e) => decoded_handshake(bytes@) matches Err(words) && words == e@,
        },
        forall|
            token: Seq<char>,
            tunnel_id: Option<Seq<char>>,
            min_version: u8,
            max_version: u8,
            capabilities: Seq<Seq<char>>,
        |
            #![trigger handshake_bytes(token, tunnel_id, min_version, max_version, capabilities)]
            bytes@ == handshake_bytes(token, tunnel_id, min_version, max_version, capabilities)
                && handshake_claim(token, tunnel_id, capabilities) <= CLAIM_LIMIT ==> r is Ok
                && r->Ok_0.0@ == token && opt_text(r->Ok_0.1) == tunnel_id && r->Ok_0.2
                == min_version && r->Ok_0.3 == max_version && texts(r->Ok_0.4@) == capabilities,
{
    let config = bincode_next::config::standard().with_limit::<CLAIM_LIMIT>();
    let (v, _): ((u32, String, Option<String>, u8, u8, Vec<String>), usize) =
        bincode_next::serde::decode_from_slice(bytes, config).map_err(|e| e.to_string())?;
    Ok((v.1, v.2, v.3, v.4, v.5))
}

/// The bytes of a handshake acknowledgment.
pub open spec fn handshake_ack_bytes(
    id: u128,
    status: u32,
    version: u8,
    capabilities: Seq<Seq<char>>,
) -> Seq<u8> {
    uint_bytes(1) + (blob_bytes(id_bytes(id)) + (uint_bytes(status as u64) + (seq![version]
        + texts_bytes(capabilities))))
}

/// What `bincode` reads as a handshake acknowledgment: session id, status number, version,
/// capabilities.
pub uninterp spec fn decoded_handshake_ack(bytes: Seq<u8>) -> Result<
    (u128, u32, u8, Seq<Seq<char>>),
    Seq<char>,
>;

/// Reads a handshake acknowledgment.
///
/// Calls `bincode_next::serde::decode_from_slice` for the variant number and the fields of
/// the frame, the session id as a `uuid::Uuid`. The result is [`decoded_handshake_ack`];
/// bytes that were written for such a frame are read as that frame, within the ceiling on
/// claimed bytes (the id claims 24).
///
/// An error is given as its message.
#[verifier::external_body]
fn decode_handshake_ack(bytes: &[u8]) -> (r: Result<
    (u128, u32, u8, Vec<String>),
    String,
>)
    ensures
        match r {
            Ok(v) => decoded_handshake_ack(bytes@) matches Ok(t) && t == (v.0, v.1, v.2, texts(v.3@)),
            Err(e) => decoded_handshake_ack(bytes@) matches Err(words) && words == e@,
        },
        forall|id: u128, status: u32, version: u8, capabilities: Seq<Seq<char>>|
            #![trigger handshake_ack_bytes(id, status, version, capabilities)]
            bytes@ == handshake_ack_bytes(id, status, version, capabilities) && 24 + texts_claim(
                capabilities,
            ) <= CLAIM_LIMIT ==> r is Ok && r->Ok_0.0 == id && r->Ok_0.1 == status && r->Ok_0.2
                == version && texts(r->Ok_0.3@) == capabilities,
{
    let config = bincode_next::config::standard().with_limit::<CLAIM_LIMIT>();
    let (v, _): ((u32, uuid::Uuid, u32, u8, Vec<String>), usize) =
        bincode_next::serde::decode_from_slice(bytes, config).map_err(|e| e.to_string())?;
    Ok((v.1.as_u128(), v.2, v.3, v.4))
}

/// The bytes of a registration whose metadata is written in the order `metadata`.
pub open spec fn register_bytes(
    service_name: Seq<char>,
    protocol: u32,
    metadata: Seq<(Seq<char>, Seq<char>)>,
) -> Seq<u8> {
    uint_bytes(2) + (text_bytes(service_name) + (uint_bytes(protocol as u64) + pairs_bytes(
        metadata,
    )))
}

/// What `bincode` reads as a registration: service name, protocol number, metadata in the
/// order of its keys.
pub uninterp spec fn decoded_register(bytes: Seq<u8>) -> Result<
    (Seq<char>, u32, Seq<(Seq<char>, Seq<char>)>),
    Seq<char>,
>;

/// Reads a registration.
///
/// Calls `bincode_next::serde::decode_from_slice` for the variant number and the fields of
/// the frame, the metadata as an ordered map. The result is [`decoded_register`]; no key
/// occurs twice in it, and bytes that were written for such a frame are read as a frame with
/// the same metadata, within the ceiling on claimed bytes.
///
/// An error is given as its message.
#[verifier::external_body]
fn decode_register(bytes: &[u8]) -> (r: Result<
    (String, u32, Vec<(String, String)>),
    String,
>)
    ensures
        match r {
            Ok(v) => decoded_register(bytes@) matches Ok(t) && t == (v.0@, v.1, text_pairs(v.2@)),
            Err(e) => decoded_register(bytes@) matches Err(words) && words == e@,
        },
        r matches Ok(v) ==> distinct_keys(text_pairs(v.2@)),
        forall|service_name: Seq<char>, protocol: u32, metadata: Seq<(Seq<char>, Seq<char>)>|
            #![trigger register_bytes(service_name, protocol, metadata)]
            bytes@ == register_bytes(service_name, protocol, metadata) && text_claim(service_name)
                + pairs_claim(metadata) <= CLAIM_LIMIT ==> r is Ok && r->Ok_0.0@ == service_name
                && r->Ok_0.1 == protocol && pairs_map(text_pairs(r->Ok_0.2@)) == pairs_map(metadata),
{
    let config = bincode_next::config::standard().with_limit::<CLAIM_LIMIT>();
    let (v, _): ((u32, String, u32, std::collections::BTreeMap<String, String>), usize) =
        bincode_next::serde::decode_from_slice(bytes, config).map_err(|e| e.to_string())?;
    Ok((v.1, v.2, v.3.into_iter().collect()))
}

/// The bytes of a registration response.
pub open spec fn register_ack_bytes(url: Seq<char>, status: u32) -> Seq<u8> {
    uint_bytes(3) + (text_bytes(url) + uint_bytes(status as u64))
}

/// What `bincode` reads as a registration response: URL and status number.
pub uninterp spec fn decoded_register_ack(bytes: Seq<u8>) -> Result<(Seq<char>, u32), Seq<char>>;

/// Reads a registration response.
///
/// Calls `bincode_next::serde::decode_from_slice` for the variant number and the fields of
/// the frame. The result is [`decoded_register_ack`]; bytes that were written for such a
/// frame are read as that frame, within the ceiling on claimed bytes.
///
/// An error is given as its message.
#[verifier::external_body]
fn decode_register_ack(bytes: &[u8]) -> (r: Result<
    (String, u32),
    String,
>)
    ensures
        match r {
            Ok(v) => decoded_register_ack(bytes@) matches Ok(t) && t == (v.0@, v.1),
            Err(e) => decoded_register_ack(bytes@) matches Err(words) && words == e@,
        },
        forall|url: Seq<char>, status: u32|
            #![trigger register_ack_bytes(url, status)]
            bytes@ == register_ack_bytes(url, status) && text_claim(url) <= CLAIM_LIMIT ==> r is Ok
                && r->Ok_0.0@ == url && r->Ok_0.1 == status,
{
    let config = bincode_next::config::standard().with_limit::<CLAIM_LIMIT>();
    let (v, _): ((u32, String, u32), usize) =
        bincode_next::serde::decode_from_slice(bytes, config).map_err(|e| e.to_string())?;
    Ok((v.1, v.2))
}

/// The bytes of a stream open request up to its priority.
pub open spec fn open_head_bytes(
    stream_id: u32,
    protocol: u32,
    headers: Seq<(Seq<char>, Seq<char>)>,
    body_hint: Option<u64>,
) -> Seq<u8> {
    uint_bytes(4) + (uint_bytes(stream_id as u64) + (uint_bytes(protocol as u64) + (pairs_bytes(
        headers,
    ) + option_bytes(
        match body_hint {
            Some(n) => Some(uint_bytes(n)),
            None => None,
        },
    ))))
}

/// What `bincode` reads as a stream open request up to its priority: stream id, protocol
/// number, headers, body hint, and the number of bytes read.
pub uninterp spec fn decoded_open_head(bytes: Seq<u8>) -> Result<
    (u32, u32, Seq<(Seq<char>, Seq<char>)>, Option<u64>, usize),
    Seq<char>,
>;

/// Reads a stream open request up to its priority.
///
/// Calls `bincode_next::serde::decode_from_slice` for the variant number and the fields
/// before the priority. The result is [`decoded_open_head`]; it does not reach beyond the
/// input, and an input that starts with bytes written for such fields is read as those
/// fields, within the ceiling on claimed bytes.
///
/// An error is given as its message.
#[verifier::external_body]
fn decode_open_head(bytes: &[u8]) -> (r: Result<
    (u32, u32, Vec<(String, String)>, Option<u64>, usize),
    String,
>)
    ensures
        match r {
            Ok(v) => decoded_open_head(bytes@) matches Ok(t) && t == (v.0, v.1, text_pairs(v.2@), v.3, v.4),
            Err(e) => decoded_open_head(bytes@) matches Err(words) && words == e@,
        },
        r matches Ok(v) ==> v.4 <= bytes@.len(),
        forall|
            stream_id: u32,
            protocol: u32,
            headers: Seq<(Seq<char>, Seq<char>)>,
            body_hint: Option<u64>,
            rest: Seq<u8>,
        |
            #![trigger open_head_bytes(stream_id, protocol, headers, body_hint) + rest]
            bytes@ == open_head_bytes(stream_id, protocol, headers, body_hint) + rest
                && pairs_claim(headers) <= CLAIM_LIMIT ==> r is Ok && r->Ok_0.0 == stream_id
                && r->Ok_0.1 == protocol && text_pairs(r->Ok_0.2@) == headers && r->Ok_0.3
                == body_hint && r->Ok_0.4 == open_head_bytes(
                stream_id,
                protocol,
                headers,
                body_hint,
            ).len(),
{
    let config = bincode_next::config::standard().with_limit::<CLAIM_LIMIT>();
    let (v, n): ((u32, u32, u32, Vec<(String, String)>, Option<u64>), usize) =
        bincode_next::serde::decode_from_slice(bytes, config).map_err(|e| e.to_string())?;
    Ok((v.1, v.2, v.3, v.4, n))
}

/// The bytes of a frame of variant `index` with two numbers.
pub open spec fn two_numbers_bytes(index: u32, first: u32, second: u32) -> Seq<u8> {
    uint_bytes(index as u64) + (uint_bytes(first as u64) + uint_bytes(second as u64))
}

/// What `bincode` reads as two numbers behind a variant number.
pub uninterp spec fn decoded_two_numbers(bytes: Seq<u8>) -> Result<(u32, u32), Seq<char>>;

/// Reads the two numbers of a stream acknowledgment, or those that a stream close starts with.
///
/// Calls `bincode_next::serde::decode_from_slice` for three numbers. The result is
/// [`decoded_two_numbers`]; an input that starts with bytes written for three numbers is read
/// as those numbers.
///
/// An error is given as its message.
#[verifier::external_body]
fn decode_two_numbers(bytes: &[u8]) -> (r: Result<(u32, u32), String>)
    ensures
        match r {
            Ok(v) => decoded_two_numbers(bytes@) matches Ok(t) && t == v,
            Err(e) => decoded_two_numbers(bytes@) matches Err(words) && words == e@,
        },
        forall|index: u32, first: u32, second: u32, rest: Seq<u8>|
            #![trigger two_numbers_bytes(index, first, second) + rest]
            bytes@ == two_numbers_bytes(index, first, second) + rest ==> r is Ok && r->Ok_0 == (
                first,
                second,
            ),
{
    let config = bincode_next::config::standard().with_limit::<CLAIM_LIMIT>();
    let (v, _): ((u32, u32, u32), usize) =
        bincode_next::serde::decode_from_slice(bytes, config).map_err(|e| e.to_string())?;
    Ok((v.1, v.2))
}

/// The bytes of a stream close that carries a message.
pub open spec fn close_error_bytes(stream_id: u32, message: Seq<char>) -> Seq<u8> {
    two_numbers_bytes(7, stream_id, 2) + text_bytes(message)
}

/// What `bincode` reads as the message of a stream close that carries one.
pub uninterp spec fn decoded_close_message(bytes: Seq<u8>) -> Result<Seq<char>, Seq<char>>;

/// Reads the message of a stream close that carries one.
///
/// Calls `bincode_next::serde::decode_from_slice` for three numbers and a text. The text is
/// [`decoded_close_message`]; bytes that were written for such a frame are read as that
/// frame, within the ceiling on claimed bytes.
///
/// An error is given as its message.
#[verifier::external_body]
fn decode_close_message(bytes: &[u8]) -> (r: Result<String, String>)
    ensures
        match r {
            Ok(v) => decoded_close_message(bytes@) matches Ok(t) && t == v@,
            Err(e) => decoded_close_message(bytes@) matches Err(words) && words == e@,
        },
        forall|stream_id: u32, message: Seq<char>|
            #![trigger close_error_bytes(stream_id, message)]
            bytes@ == close_error_bytes(stream_id, message) && text_claim(message) <= CLAIM_LIMIT
                ==> r is Ok && r->Ok_0@ == message,
{
    let config = bincode_next::config::standard().with_limit::<CLAIM_LIMIT>();
    let (v, _): ((u32, u32, u32, String), usize) =
        bincode_next::serde::decode_from_slice(bytes, config).map_err(|e| e.to_string())?;
    Ok(v.3)
}

/// The bytes of a heartbeat of variant `index`.
pub open spec fn heartbeat_bytes(index: u32, timestamp: u64) -> Seq<u8> {
    uint_bytes(index as u64) + uint_bytes(timestamp)
}

/// What `bincode` reads as the timestamp of a heartbeat.
pub uninterp spec fn decoded_heartbeat(bytes: Seq<u8>) -> Result<u64, Seq<char>>;

/// Reads the timestamp of a heartbeat or of its acknowledgment.
///
/// Calls `bincode_next::serde::decode_from_slice` for a `u32` and a `u64`. The second is
/// [`decoded_heartbeat`]; bytes that were written for such a frame are read as that frame.
///
/// An error is given as its message.
#[verifier::external_body]
fn decode_heartbeat(bytes: &[u8]) -> (r: Result<u64, String>)
    ensures
        match r {
            Ok(v) => decoded_heartbeat(bytes@) matches Ok(t) && t == v,
            Err(e) => decoded_heartbeat(bytes@) matches Err(words) && words == e@,
        },
        forall|index: u32, timestamp: u64|
            #![trigger heartbeat_bytes(index, timestamp)]
            bytes@ == heartbeat_bytes(index, timestamp) ==> r is Ok && r->Ok_0 == timestamp,
{
    let config = bincode_next::config::standard().with_limit::<CLAIM_LIMIT>();
    let (v, _): ((u32, u64), usize) = bincode_next::serde::decode_from_slice(bytes, config).map_err(|e| e.to_string())?;
    Ok(v.1)
}

/// The bytes of an error frame.
pub open spec fn error_bytes(stream_id: Option<u32>, code: u32, message: Seq<char>) -> Seq<u8> {
    uint_bytes(10) + (option_bytes(
        match stream_id {
            Some(n) => Some(uint_bytes(n as u64)),
            None => None,
        },
    ) + (uint_bytes(code as u64) + text_bytes(message)))
}

/// What `bincode` reads as an error frame: stream id, error number, message.
pub uninterp spec fn decoded_error(bytes: Seq<u8>) -> Result<(Option<u32>, u32, Seq<char>), Seq<char>>;

/// Reads an error frame.
///
/// Calls `bincode_next::serde::decode_from_slice` for the variant number and the fields of
/// the frame. The result is [`decoded_error`]; bytes that were written for such a frame are
/// read as that frame, within the ceiling on claimed bytes.
///
/// An error is given as its message.
#[verifier::external_body]
fn decode_error(bytes: &[u8]) -> (r: Result<
    (Option<u32>, u32, String),
    String,
>)
    ensures
        match r {
            Ok(v) => decoded_error(bytes@) matches Ok(t) && t == (v.0, v.1, v.2@),
            Err(e) => decoded_error(bytes@) matches Err(words) && words == e@,
        },
        forall|stream_id: Option<u32>, code: u32, message: Seq<char>|
            #![trigger error_bytes(stream_id, code, message)]
            bytes@ == error_bytes(stream_id, code, message) && text_claim(message) <= CLAIM_LIMIT
                ==> r is Ok && r->Ok_0.0 == stream_id && r->Ok_0.1 == code && r->Ok_0.2@ == message,
{
    let config = bincode_next::config::standard().with_limit::<CLAIM_LIMIT>();
    let (v, _): ((u32, Option<u32>, u32, String), usize) =
        bincode_next::serde::decode_from_slice(bytes, config).map_err(|e| e.to_string())?;
    Ok((v.1, v.2, v.3))
}

/// The bytes of a data frame in control form.
pub open spec fn data_bytes(stream_id: u32, data: Seq<u8>, end_of_stream: bool) -> Seq<u8> {
    uint_bytes(6) + (uint_bytes(stream_id as u64) + (blob_bytes(data) + seq![
        if end_of_stream {
            1u8
        } else {
            0u8
        },
    ]))
}

/// What `bincode` reads as a data frame in control form: stream id, payload, end of stream.
pub uninterp spec fn decoded_data(bytes: Seq<u8>) -> Result<(u32, Seq<u8>, bool), Seq<char>>;

/// Reads a data frame in control form.
///
/// Calls `bincode_next::serde::decode_from_slice` for the variant number and the fields of
/// the frame, the payload as `bytes::Bytes`. The result is [`decoded_data`]; bytes that were
/// written for such a frame are read as that frame, within the ceiling on claimed bytes.
///
/// An error is given as its message.
#[verifier::external_body]
fn decode_data(bytes: &[u8]) -> (r: Result<
    (u32, Vec<u8>, bool),
    String,
>)
    ensures
        match r {
            Ok(v) => decoded_data(bytes@) matches Ok(t) && t == (v.0, v.1@, v.2),
            Err(e) => decoded_data(bytes@) matches Err(words) && words == e@,
        },
        forall|stream_id: u32, data: Seq<u8>, end_of_stream: bool|
            #![trigger data_bytes(stream_id, data, end_of_stream)]
            bytes@ == data_bytes(stream_id, data, end_of_stream) && 8 + data.len() <= CLAIM_LIMIT
                ==> r is Ok && r->Ok_0.0 == stream_id && r->Ok_0.1@ == data && r->Ok_0.2
                == end_of_stream,
{
    let config = bincode_next::config::standard().with_limit::<CLAIM_LIMIT>();
    let (v, _): ((u32, u32, bytes::Bytes, bool), usize) =
        bincode_next::serde::decode_from_slice(bytes, config).map_err(|e| e.to_string())?;
    Ok((v.1, v.2.to_vec(), v.3))
}

/// The bytes of a plugin data frame.
pub open spec fn plugin_bytes(plugin_id: Seq<char>, data: Seq<u8>) -> Seq<u8> {
    uint_bytes(11) + (text_bytes(plugin_id) + blob_bytes(data))
}

/// What `bincode` reads as a plugin data frame: plugin id and payload.
pub uninterp spec fn decoded_plugin(bytes: Seq<u8>) -> Result<(Seq<char>, Seq<u8>), Seq<char>>;

/// Reads a plugin data frame.
///
/// Calls `bincode_next::serde::decode_from_slice` for the variant number and the fields of
/// the frame, the payload as `bytes::Bytes`. The result is [`decoded_plugin`]; bytes that
/// were written for such a frame are read as that frame, within the ceiling on claimed bytes.
///
/// An error is given as its message.
#[verifier::external_body]
fn decode_plugin(bytes: &[u8]) -> (r: Result<
    (String, Vec<u8>),
    String,
>)
    ensures
        match r {
            Ok(v) => decoded_plugin(bytes@) matches Ok(t) && t == (v.0@, v.1@),
            Err(e) => decoded_plugin(bytes@) matches Err(words) && words == e@,
        },
        forall|plugin_id: Seq<char>, data: Seq<u8>|
            #![trigger plugin_bytes(plugin_id, data)]
            bytes@ == plugin_bytes(plugin_id, data) && text_claim(plugin_id) + 8 + data.len()
                <= CLAIM_LIMIT ==> r is Ok && r->Ok_0.0@ == plugin_id && r->Ok_0.1@ == data,
{
    let config = bincode_next::config::standard().with_limit::<CLAIM_LIMIT>();
    let (v, _): ((u32, String, bytes::Bytes), usize) =
        bincode_next::serde::decode_from_slice(bytes, config).map_err(|e| e.to_string())?;
    Ok((v.1, v.2.to_vec()))
}

/// What `bincode` reads as the status number of a handshake acknowledgment.
pub uninterp spec fn decoded_ack_status(bytes: Seq<u8>) -> Result<u32, Seq<char>>;

/// Reads a handshake acknowledgment up to its status.
///
/// Calls `bincode_next::serde::decode_from_slice` for the variant number, a `uuid::Uuid` and a
/// number. The last is [`decoded_ack_status`].
///
/// An error is given as its message.
#[verifier::external_body]
fn decode_ack_status(bytes: &[u8]) -> (r: Result<u32, String>)
    ensures
        match r {
            Ok(v) => decoded_ack_status(bytes@) matches Ok(t) && t == v,
            Err(e) => decoded_ack_status(bytes@) matches Err(words) && words == e@,
        },
{
    let config = bincode_next::config::standard().with_limit::<CLAIM_LIMIT>();
    let (v, _): ((u32, uuid::Uuid, u32), usize) =
        bincode_next::serde::decode_from_slice(bytes, config).map_err(|e| e.to_string())?;
    Ok(v.2)
}

/// What `bincode` reads as the protocol number of a registration.
pub uninterp spec fn decoded_register_protocol(bytes: Seq<u8>) -> Result<u32, Seq<char>>;

/// Reads a registration up to its protocol.
///
/// Calls `bincode_next::serde::decode_from_slice` for the variant number, a text and a number.
/// The last is [`decoded_register_protocol`].
///
/// An error is given as its message.
#[verifier::external_body]
fn decode_register_protocol(bytes: &[u8]) -> (r: Result<u32, String>)
    ensures
        match r {
            Ok(v) => decoded_register_protocol(bytes@) matches Ok(t) && t == v,
            Err(e) => decoded_register_protocol(bytes@) matches Err(words) && words == e@,
        },
{
    let config = bincode_next::config::standard().with_limit::<CLAIM_LIMIT>();
    let (v, _): ((u32, String, u32), usize) =
        bincode_next::serde::decode_from_slice(bytes, config).map_err(|e| e.to_string())?;
    Ok(v.2)
}

/// What `bincode` reads as the error number of an error frame.
pub uninterp spec fn decoded_error_number(bytes: Seq<u8>) -> Result<u32, Seq<char>>;

/// Reads an error frame up to its error number.
///
/// Calls `bincode_next::serde::decode_from_slice` for the variant number, an optional number and
/// a number. The last is [`decoded_error_number`].
///
/// An error is given as its message.
#[verifier::external_body]
fn decode_error_number(bytes: &[u8]) -> (r: Result<u32, String>)
    ensures
        match r {
            Ok(v) => decoded_error_number(bytes@) matches Ok(t) && t == v,
            Err(e) => decoded_error_number(bytes@) matches Err(words) && words == e@,
        },
{
    let config = bincode_next::config::standard().with_limit::<CLAIM_LIMIT>();
    let (v, _): ((u32, Option<u32>, u32), usize) =
        bincode_next::serde::decode_from_slice(bytes, config).map_err(|e| e.to_string())?;
    Ok(v.2)
}

/// What is wrong with a number that stands for none of `count` variants, in the words of the
/// serialiser.
pub open spec fn no_variant(n: u32, count: nat) -> Seq<char> {
    "OtherString(\"invalid value: integer `"@ + decimal_text(n as nat)
        + "`, expected variant index 0 <= i < "@ + decimal_text(count) + "\")"@
}

fn no_variant_words(n: u32, count: u64) -> (r: String)
    ensures
        r@ == no_variant(n, count as nat),
{
    let mut text = "OtherString(\"invalid value: integer `".to_owned();
    append_decimal(&mut text, n as u64);
    text.append("`, expected variant index 0 <= i < ");
    append_decimal(&mut text, count);
    text.append("\")");
    text
}

/// What is wrong with a frame that ends after so many of its parts, in the words of the
/// serialiser.
pub open spec fn ends_after(parts: nat, what: Seq<char>) -> Seq<char> {
    "OtherString(\"invalid length "@ + decimal_text(parts) + ", expected "@ + what + "\")"@
}

fn ends_after_words(parts: u64, what: &str) -> (r: String)
    ensures
        r@ == ends_after(parts as nat, what@),
{
    let mut text = "OtherString(\"invalid length ".to_owned();
    append_decimal(&mut text, parts);
    text.append(", expected ");
    text.append(what);
    text.append("\")");
    text
}

/// How the serialiser calls a row of parts.
pub open spec fn row_of(size: nat) -> Seq<char> {
    "a tuple of size "@ + decimal_text(size)
}

/// The words about a frame, where those about a row of `size` parts say that it ends after `k`
/// of them or more.
pub open spec fn named_from(
    words: Seq<char>,
    k: nat,
    size: nat,
    lead: nat,
    what: Seq<char>,
) -> Seq<char>
    decreases size - k,
{
    if k >= size {
        words
    } else if words == ends_after(k, row_of(size)) {
        ends_after((k - lead) as nat, what)
    } else {
        named_from(words, k + 1, size, lead, what)
    }
}

/// What is wrong with a frame that was read as a row of `size` parts, `lead` of them before its
/// fields: where the row ends early, the frame does, after that many parts less. Other words
/// stay as they are.
pub open spec fn named(words: Seq<char>, size: nat, lead: nat, what: Seq<char>) -> Seq<char> {
    named_from(words, lead, size, lead, what)
}

fn name_frame(words: String, size: u64, lead: u64, what: &str) -> (r: String)
    ensures
        r@ == named(words@, size as nat, lead as nat, what@),
{
    let mut row = "a tuple of size ".to_owned();
    append_decimal(&mut row, size);
    let mut k: u64 = lead;
    while k < size
        invariant
            lead <= k,
            row@ == row_of(size as nat),
            named(words@, size as nat, lead as nat, what@) == named_from(
                words@,
                k as nat,
                size as nat,
                lead as nat,
                what@,
            ),
        decreases size - k,
    {
        let early = ends_after_words(k, row.as_str());
        if same_text(words.as_str(), early.as_str()) {
            return ends_after_words(k - lead, what);
        }
        k += 1;
    }
    words
}

/// The number of a handshake status on the wire.
pub open spec fn handshake_status_number(v: HandshakeStatus) -> u32 {
    match v {
        HandshakeStatus::Success => 0,
        HandshakeStatus::InvalidToken => 1,
        HandshakeStatus::UnsupportedVersion => 2,
        HandshakeStatus::VersionMismatch => 3,
        HandshakeStatus::RateLimited => 4,
        HandshakeStatus::TunnelIdTaken => 5,
    }
}

fn handshake_status_to_number(v: HandshakeStatus) -> (r: u32)
    ensures
        r == handshake_status_number(v),
{
    match v {
        HandshakeStatus::Success => 0,
        HandshakeStatus::InvalidToken => 1,
        HandshakeStatus::UnsupportedVersion => 2,
        HandshakeStatus::VersionMismatch => 3,
        HandshakeStatus::RateLimited => 4,
        HandshakeStatus::TunnelIdTaken => 5,
    }
}

/// The handshake status with the given number, where there is one.
pub open spec fn handshake_status_of(n: u32) -> Option<HandshakeStatus> {
    if n == 0 {
        Some(HandshakeStatus::Success)
    } else if n == 1 {
        Some(HandshakeStatus::InvalidToken)
    } else if n == 2 {
        Some(HandshakeStatus::UnsupportedVersion)
    } else if n == 3 {
        Some(HandshakeStatus::VersionMismatch)
    } else if n == 4 {
        Some(HandshakeStatus::RateLimited)
    } else if n == 5 {
        Some(HandshakeStatus::TunnelIdTaken)
    } else {
        None
    }
}

fn handshake_status_from_number(n: u32) -> (r: Option<HandshakeStatus>)
    ensures
        r == handshake_status_of(n),
{
    match n {
        0 => Some(HandshakeStatus::Success),
        1 => Some(HandshakeStatus::InvalidToken),
        2 => Some(HandshakeStatus::UnsupportedVersion),
        3 => Some(HandshakeStatus::VersionMismatch),
        4 => Some(HandshakeStatus::RateLimited),
        5 => Some(HandshakeStatus::TunnelIdTaken),
        _ => None,
    }
}

/// The number of a registration status on the wire.
pub open spec fn register_status_number(v: RegisterStatus) -> u32 {
    match v {
        RegisterStatus::Success => 0,
        RegisterStatus::ServiceNameTaken => 1,
        RegisterStatus::InvalidServiceName => 2,
        RegisterStatus::QuotaExceeded => 3,
    }
}

fn register_status_to_number(v: RegisterStatus) -> (r: u32)
    ensures
        r == register_status_number(v),
{
    match v {
        RegisterStatus::Success => 0,
        RegisterStatus::ServiceNameTaken => 1,
        RegisterStatus::InvalidServiceName => 2,
        RegisterStatus::QuotaExceeded => 3,
    }
}

/// The registration status with the given number, where there is one.
pub open spec fn register_status_of(n: u32) -> Option<RegisterStatus> {
    if n == 0 {
        Some(RegisterStatus::Success)
    } else if n == 1 {
        Some(RegisterStatus::ServiceNameTaken)
    } else if n == 2 {
        Some(RegisterStatus::InvalidServiceName)
    } else if n == 3 {
        Some(RegisterStatus::QuotaExceeded)
    } else {
        None
    }
}

fn register_status_from_number(n: u32) -> (r: Option<RegisterStatus>)
    ensures
        r == register_status_of(n),
{
    match n {
        0 => Some(RegisterStatus::Success),
        1 => Some(RegisterStatus::ServiceNameTaken),
        2 => Some(RegisterStatus::InvalidServiceName),
        3 => Some(RegisterStatus::QuotaExceeded),
        _ => None,
    }
}

/// The number of a stream status on the wire.
pub open spec fn stream_status_number(v: StreamStatus) -> u32 {
    match v {
        StreamStatus::Accepted => 0,
        StreamStatus::Rejected => 1,
        StreamStatus::BackpressureApplied => 2,
    }
}

fn stream_status_to_number(v: StreamStatus) -> (r: u32)
    ensures
        r == stream_status_number(v),
{
    match v {
        StreamStatus::Accepted => 0,
        StreamStatus::Rejected => 1,
        StreamStatus::BackpressureApplied => 2,
    }
}

/// The stream status with the given number, where there is one.
pub open spec fn stream_status_of(n: u32) -> Option<StreamStatus> {
    if n == 0 {
        Some(StreamStatus::Accepted)
    } else if n == 1 {
        Some(StreamStatus::Rejected)
    } else if n == 2 {
        Some(StreamStatus::BackpressureApplied)
    } else {
        None
    }
}

fn stream_status_from_number(n: u32) -> (r: Option<StreamStatus>)
    ensures
        r == stream_status_of(n),
{
    match n {
        0 => Some(StreamStatus::Accepted),
        1 => Some(StreamStatus::Rejected),
        2 => Some(StreamStatus::BackpressureApplied),
        _ => None,
    }
}

/// The number of a protocol on the wire.
pub open spec fn protocol_number(v: Protocol) -> u32 {
    match v {
        Protocol::HTTP => 0,
        Protocol::HTTPS => 1,
        Protocol::HTTP2 => 2,
        Protocol::WebSocket => 3,
        Protocol::GRPC => 4,
        Protocol::TCP => 5,
        Protocol::QUIC => 6,
    }
}

fn protocol_to_number(v: Protocol) -> (r: u32)
    ensures
        r == protocol_number(v),
{
    match v {
        Protocol::HTTP => 0,
        Protocol::HTTPS => 1,
        Protocol::HTTP2 => 2,
        Protocol::WebSocket => 3,
        Protocol::GRPC => 4,
        Protocol::TCP => 5,
        Protocol::QUIC => 6,
    }
}

/// The protocol with the given number, where there is one.
pub open spec fn protocol_of(n: u32) -> Option<Protocol> {
    if n == 0 {
        Some(Protocol::HTTP)
    } else if n == 1 {
        Some(Protocol::HTTPS)
    } else if n == 2 {
        Some(Protocol::HTTP2)
    } else if n == 3 {
        Some(Protocol::WebSocket)
    } else if n == 4 {
        Some(Protocol::GRPC)
    } else if n == 5 {
        Some(Protocol::TCP)
    } else if n == 6 {
        Some(Protocol::QUIC)
    } else {
        None
    }
}

fn protocol_from_number(n: u32) -> (r: Option<Protocol>)
    ensures
        r == protocol_of(n),
{
    match n {
        0 => Some(Protocol::HTTP),
        1 => Some(Protocol::HTTPS),
        2 => Some(Protocol::HTTP2),
        3 => Some(Protocol::WebSocket),
        4 => Some(Protocol::GRPC),
        5 => Some(Protocol::TCP),
        6 => Some(Protocol::QUIC),
        _ => None,
    }
}

/// The number of an error code on the wire.
pub open spec fn error_code_number(v: ErrorCode) -> u32 {
    match v {
        ErrorCode::ProtocolError => 0,
        ErrorCode::AuthenticationFailed => 1,
        ErrorCode::SessionNotFound => 2,
        ErrorCode::StreamNotFound => 3,
        ErrorCode::Timeout => 4,
        ErrorCode::InternalServerError => 5,
        ErrorCode::ServiceUnavailable => 6,
    }
}

fn error_code_to_number(v: ErrorCode) -> (r: u32)
    ensures
        r == error_code_number(v),
{
    match v {
        ErrorCode::ProtocolError => 0,
        ErrorCode::AuthenticationFailed => 1,
        ErrorCode::SessionNotFound => 2,
        ErrorCode::StreamNotFound => 3,
        ErrorCode::Timeout => 4,
        ErrorCode::InternalServerError => 5,
        ErrorCode::ServiceUnavailable => 6,
    }
}

/// The error code with the given number, where there is one.
pub open spec fn error_code_of(n: u32) -> Option<ErrorCode> {
    if n == 0 {
        Some(ErrorCode::ProtocolError)
    } else if n == 1 {
        Some(ErrorCode::AuthenticationFailed)
    } else if n == 2 {
        Some(ErrorCode::SessionNotFound)
    } else if n == 3 {
        Some(ErrorCode::StreamNotFound)
    } else if n == 4 {
        Some(ErrorCode::Timeout)
    } else if n == 5 {
        Some(ErrorCode::InternalServerError)
    } else if n == 6 {
        Some(ErrorCode::ServiceUnavailable)
    } else {
        None
    }
}

fn error_code_from_number(n: u32) -> (r: Option<ErrorCode>)
    ensures
        r == error_code_of(n),
{
    match n {
        0 => Some(ErrorCode::ProtocolError),
        1 => Some(ErrorCode::AuthenticationFailed),
        2 => Some(ErrorCode::SessionNotFound),
        3 => Some(ErrorCode::StreamNotFound),
        4 => Some(ErrorCode::Timeout),
        5 => Some(ErrorCode::InternalServerError),
        6 => Some(ErrorCode::ServiceUnavailable),
        _ => None,
    }
}

/// The number of a priority on the wire.
pub open spec fn priority_number(v: StreamPriority) -> u32 {
    match v {
        StreamPriority::Normal => 0,
        StreamPriority::Low => 1,
        StreamPriority::High => 2,
        StreamPriority::Critical => 3,
    }
}

fn priority_to_number(v: StreamPriority) -> (r: u32)
    ensures
        r == priority_number(v),
{
    match v {
        StreamPriority::Normal => 0,
        StreamPriority::Low => 1,
        StreamPriority::High => 2,
        StreamPriority::Critical => 3,
    }
}

/// The priority with the given number, where there is one.
pub open spec fn priority_of(n: u32) -> Option<StreamPriority> {
    if n == 0 {
        Some(StreamPriority::Normal)
    } else if n == 1 {
        Some(StreamPriority::Low)
    } else if n == 2 {
        Some(StreamPriority::High)
    } else if n == 3 {
        Some(StreamPriority::Critical)
    } else {
        None
    }
}

fn priority_from_number(n: u32) -> (r: Option<StreamPriority>)
    ensures
        r == priority_of(n),
{
    match n {
        0 => Some(StreamPriority::Normal),
        1 => Some(StreamPriority::Low),
        2 => Some(StreamPriority::High),
        3 => Some(StreamPriority::Critical),
        _ => None,
    }
}

/// The number of a close reason on the wire.
pub open spec fn close_reason_number(v: CloseReasonView) -> u32 {
    match v {
        CloseReasonView::Normal => 0,
        CloseReasonView::Timeout => 1,
        CloseReasonView::Error(_) => 2,
        CloseReasonView::LocalServiceUnreachable => 3,
        CloseReasonView::ProtocolViolation => 4,
    }
}

/// The bytes of a frame in control form.
pub open spec fn control_bytes(frame: Frame) -> Seq<u8> {
    match frame {
        Frame::Handshake(h) => handshake_bytes(
            h.token@,
            opt_text(h.tunnel_id),
            h.min_version,
            h.max_version,
            texts(h.capabilities@),
        ),
        Frame::HandshakeAck { session_id, status, version, server_capabilities } =>
            handshake_ack_bytes(
            session_id,
            handshake_status_number(status),
            version,
            texts(server_capabilities@),
        ),
        Frame::Register { service_name, protocol, metadata } => register_bytes(
            service_name@,
            protocol_number(protocol),
            metadata.pairs(),
        ),
        Frame::RegisterAck { public_url, status } => register_ack_bytes(
            public_url@,
            register_status_number(status),
        ),
        Frame::OpenStream(o) => open_head_bytes(
            o.stream_id,
            protocol_number(o.protocol),
            text_pairs(o.headers@),
            o.body_hint,
        ) + uint_bytes(priority_number(o.priority) as u64),
        Frame::StreamAck { stream_id, status } => two_numbers_bytes(
            5,
            stream_id,
            stream_status_number(status),
        ),
        Frame::Data { stream_id, data, end_of_stream } => data_bytes(
            stream_id,
            data@,
            end_of_stream,
        ),
        Frame::CloseStream { stream_id, reason } => match reason {
            CloseReason::Error(m) => close_error_bytes(stream_id, m@),
            _ => two_numbers_bytes(7, stream_id, close_reason_number(reason@)),
        },
        Frame::Heartbeat { timestamp } => heartbeat_bytes(8, timestamp),
        Frame::HeartbeatAck { timestamp } => heartbeat_bytes(9, timestamp),
        Frame::Error { stream_id, code, message } => error_bytes(
            stream_id,
            error_code_number(code),
            message@,
        ),
        Frame::PluginData { plugin_id, data } => plugin_bytes(plugin_id@, data@),
    }
}

/// What reading the bytes of a frame claims of the ceiling.
pub open spec fn control_claim(frame: Frame) -> nat {
    match frame {
        Frame::Handshake(h) => handshake_claim(
            h.token@,
            opt_text(h.tunnel_id),
            texts(h.capabilities@),
        ),
        Frame::HandshakeAck { server_capabilities, .. } => 24 + texts_claim(
            texts(server_capabilities@),
        ),
        Frame::Register { service_name, metadata, .. } => text_claim(service_name@) + pairs_claim(
            metadata.pairs(),
        ),
        Frame::RegisterAck { public_url, .. } => text_claim(public_url@),
        Frame::OpenStream(o) => pairs_claim(text_pairs(o.headers@)),
        Frame::Data { data, .. } => 8 + data@.len(),
        Frame::CloseStream { reason, .. } => match reason {
            CloseReason::Error(m) => text_claim(m@),
            _ => 0,
        },
        Frame::Error { message, .. } => text_claim(message@),
        Frame::PluginData { plugin_id, data } => text_claim(plugin_id@) + 8 + data@.len(),
        Frame::StreamAck { .. } | Frame::Heartbeat { .. } | Frame::HeartbeatAck { .. } => 0,
    }
}

fn put_uint(out: &mut Vec<u8>, n: u64)
    ensures
        final(out)@ == old(out)@ + uint_bytes(n),
{
    if let Ok(b) = encode_uint(n) {
        out.extend_from_slice(b.as_slice());
    }
}

fn put_text(out: &mut Vec<u8>, s: &str)
    ensures
        final(out)@ == old(out)@ + text_bytes(s@),
{
    if let Ok(b) = encode_text(s) {
        out.extend_from_slice(b.as_slice());
    }
}

fn put_blob(out: &mut Vec<u8>, data: &[u8])
    ensures
        final(out)@ == old(out)@ + blob_bytes(data@),
{
    if let Ok(b) = encode_blob(data) {
        out.extend_from_slice(b.as_slice());
    }
}

fn put_id(out: &mut Vec<u8>, id: u128)
    ensures
        final(out)@ == old(out)@ + blob_bytes(id_bytes(id)),
{
    if let Ok(b) = encode_id(id) {
        out.extend_from_slice(b.as_slice());
    }
}

fn put_texts(out: &mut Vec<u8>, list: &Vec<String>)
    ensures
        final(out)@ == old(out)@ + texts_bytes(texts(list@)),
{
    put_uint(out, list.len() as u64);
    let ghost all = texts(list@);
    let ghost head = old(out)@ + uint_bytes(list@.len() as u64);
    let mut i: usize = 0;
    proof {
        assert(all.take(0) =~= Seq::empty());
        assert(out@ =~= head + concat_texts(all.take(0)));
    }
    while i < list.len()
        invariant
            i <= list@.len(),
            all == texts(list@),
            out@ == head + concat_texts(all.take(i as int)),
        decreases list@.len() - i,
    {
        put_text(out, list[i].as_str());
        proof {
            assert(all.take(i + 1).drop_last() =~= all.take(i as int));
            assert(all.take(i + 1).last() == list@[i as int]@);
            assert(out@ =~= head + concat_texts(all.take(i + 1)));
        }
        i += 1;
    }
    proof {
        assert(all.take(i as int) =~= all);
        assert(out@ =~= old(out)@ + texts_bytes(all));
    }
}

fn put_pairs(out: &mut Vec<u8>, list: &Vec<(String, String)>)
    ensures
        final(out)@ == old(out)@ + pairs_bytes(text_pairs(list@)),
{
    put_uint(out, list.len() as u64);
    let ghost all = text_pairs(list@);
    let ghost head = old(out)@ + uint_bytes(list@.len() as u64);
    let mut i: usize = 0;
    proof {
        assert(all.take(0) =~= Seq::empty());
        assert(out@ =~= head + concat_pairs(all.take(0)));
    }
    while i < list.len()
        invariant
            i <= list@.len(),
            all == text_pairs(list@),
            out@ == head + concat_pairs(all.take(i as int)),
        decreases list@.len() - i,
    {
        let pair = &list[i];
        put_text(out, pair.0.as_str());
        put_text(out, pair.1.as_str());
        proof {
            assert(all.take(i + 1).drop_last() =~= all.take(i as int));
            assert(all.take(i + 1).last() == (pair.0@, pair.1@));
            assert(out@ =~= head + concat_pairs(all.take(i + 1)));
        }
        i += 1;
    }
    proof {
        assert(all.take(i as int) =~= all);
        assert(out@ =~= old(out)@ + pairs_bytes(all));
    }
}

fn put_metadata(out: &mut Vec<u8>, metadata: &Metadata)
    ensures
        final(out)@ == old(out)@ + pairs_bytes(metadata.pairs()),
{
    put_uint(out, metadata.len() as u64);
    let ghost all = metadata.pairs();
    let ghost head = old(out)@ + uint_bytes(all.len() as u64);
    let mut i: usize = 0;
    proof {
        assert(all.take(0) =~= Seq::empty());
        assert(out@ =~= head + concat_pairs(all.take(0)));
    }
    while i < metadata.len()
        invariant
            i <= all.len(),
            all == metadata.pairs(),
            out@ == head + concat_pairs(all.take(i as int)),
        decreases all.len() - i,
    {
        let (key, value) = metadata.entry(i);
        put_text(out, key);
        put_text(out, value);
        proof {
            assert(all.take(i + 1).drop_last() =~= all.take(i as int));
            assert(all.take(i + 1).last() == (key@, value@));
            assert(out@ =~= head + concat_pairs(all.take(i + 1)));
        }
        i += 1;
    }
    proof {
        assert(all.take(i as int) =~= all);
        assert(out@ =~= old(out)@ + pairs_bytes(all));
    }
}

fn write_handshake(h: &HandshakeFrame) -> (r: Vec<u8>)
    ensures
        r@ == handshake_bytes(
            h.token@,
            opt_text(h.tunnel_id),
            h.min_version,
            h.max_version,
            texts(h.capabilities@),
        ),
{
    let mut out: Vec<u8> = Vec::new();
    put_uint(&mut out, 0);
    put_text(&mut out, h.token.as_str());
    let ghost head = out@;
    match &h.tunnel_id {
        Some(t) => {
            out.push(1);
            put_text(&mut out, t.as_str());
            proof {
                assert(out@ =~= head + option_bytes(Some(text_bytes(t@))));
            }
        },
        None => {
            out.push(0);
            proof {
                assert(out@ =~= head + option_bytes(None));
            }
        },
    }
    out.push(h.min_version);
    out.push(h.max_version);
    put_texts(&mut out, &h.capabilities);
    proof {
        assert(out@ =~= handshake_bytes(
            h.token@,
            opt_text(h.tunnel_id),
            h.min_version,
            h.max_version,
            texts(h.capabilities@),
        ));
    }
    out
}

fn write_handshake_ack(
    session_id: u128,
    status: HandshakeStatus,
    version: u8,
    server_capabilities: &Vec<String>,
) -> (r: Vec<u8>)
    ensures
        r@ == handshake_ack_bytes(
            session_id,
            handshake_status_number(status),
            version,
            texts(server_capabilities@),
        ),
{
    let mut out: Vec<u8> = Vec::new();
    put_uint(&mut out, 1);
    put_id(&mut out, session_id);
    put_uint(&mut out, handshake_status_to_number(status) as u64);
    out.push(version);
    put_texts(&mut out, server_capabilities);
    proof {
        assert(out@ =~= handshake_ack_bytes(
            session_id,
            handshake_status_number(status),
            version,
            texts(server_capabilities@),
        ));
    }
    out
}

fn write_register(service_name: &str, protocol: Protocol, metadata: &Metadata) -> (r: Vec<u8>)
    ensures
        r@ == register_bytes(service_name@, protocol_number(protocol), metadata.pairs()),
{
    let mut out: Vec<u8> = Vec::new();
    put_uint(&mut out, 2);
    put_text(&mut out, service_name);
    put_uint(&mut out, protocol_to_number(protocol) as u64);
    put_metadata(&mut out, metadata);
    proof {
        assert(out@ =~= register_bytes(
            service_name@,
            protocol_number(protocol),
            metadata.pairs(),
        ));
    }
    out
}

fn write_register_ack(public_url: &str, status: RegisterStatus) -> (r: Vec<u8>)
    ensures
        r@ == register_ack_bytes(public_url@, register_status_number(status)),
{
    let mut out: Vec<u8> = Vec::new();
    put_uint(&mut out, 3);
    put_text(&mut out, public_url);
    put_uint(&mut out, register_status_to_number(status) as u64);
    proof {
        assert(out@ =~= register_ack_bytes(public_url@, register_status_number(status)));
    }
    out
}

fn write_open(o: &OpenStreamFrame) -> (r: Vec<u8>)
    ensures
        r@ == open_head_bytes(
            o.stream_id,
            protocol_number(o.protocol),
            text_pairs(o.headers@),
            o.body_hint,
        ) + uint_bytes(priority_number(o.priority) as u64),
{
    let mut out: Vec<u8> = Vec::new();
    put_uint(&mut out, 4);
    put_uint(&mut out, o.stream_id as u64);
    put_uint(&mut out, protocol_to_number(o.protocol) as u64);
    put_pairs(&mut out, &o.headers);
    let ghost head = out@;
    match o.body_hint {
        Some(n) => {
            out.push(1);
            put_uint(&mut out, n);
            proof {
                assert(out@ =~= head + option_bytes(Some(uint_bytes(n))));
            }
        },
        None => {
            out.push(0);
            proof {
                assert(out@ =~= head + option_bytes(None));
            }
        },
    }
    proof {
        assert(out@ =~= open_head_bytes(
            o.stream_id,
            protocol_number(o.protocol),
            text_pairs(o.headers@),
            o.body_hint,
        ));
    }
    put_uint(&mut out, priority_to_number(o.priority) as u64);
    out
}

fn write_two_numbers(index: u32, first: u32, second: u32) -> (r: Vec<u8>)
    ensures
        r@ == two_numbers_bytes(index, first, second),
{
    let mut out: Vec<u8> = Vec::new();
    put_uint(&mut out, index as u64);
    put_uint(&mut out, first as u64);
    put_uint(&mut out, second as u64);
    proof {
        assert(out@ =~= two_numbers_bytes(index, first, second));
    }
    out
}

fn write_data(stream_id: u32, data: &[u8], end_of_stream: bool) -> (r: Vec<u8>)
    ensures
        r@ == data_bytes(stream_id, data@, end_of_stream),
{
    let mut out: Vec<u8> = Vec::new();
    put_uint(&mut out, 6);
    put_uint(&mut out, stream_id as u64);
    put_blob(&mut out, data);
    out.push(
        if end_of_stream {
            1
        } else {
            0
        },
    );
    proof {
        assert(out@ =~= data_bytes(stream_id, data@, end_of_stream));
    }
    out
}

fn write_close(stream_id: u32, reason: &CloseReason) -> (r: Vec<u8>)
    ensures
        r@ == match *reason {
            CloseReason::Error(m) => close_error_bytes(stream_id, m@),
            _ => two_numbers_bytes(7, stream_id, close_reason_number(reason@)),
        },
{
    match reason {
        CloseReason::Normal => write_two_numbers(7, stream_id, 0),
        CloseReason::Timeout => write_two_numbers(7, stream_id, 1),
        CloseReason::Error(m) => {
            let mut out = write_two_numbers(7, stream_id, 2);
            put_text(&mut out, m.as_str());
            out
        },
        CloseReason::LocalServiceUnreachable => write_two_numbers(7, stream_id, 3),
        CloseReason::ProtocolViolation => write_two_numbers(7, stream_id, 4),
    }
}

fn write_heartbeat(index: u32, timestamp: u64) -> (r: Vec<u8>)
    ensures
        r@ == heartbeat_bytes(index, timestamp),
{
    let mut out: Vec<u8> = Vec::new();
    put_uint(&mut out, index as u64);
    put_uint(&mut out, timestamp);
    proof {
        assert(out@ =~= heartbeat_bytes(index, timestamp));
    }
    out
}

fn write_error(stream_id: Option<u32>, code: ErrorCode, message: &str) -> (r: Vec<u8>)
    ensures
        r@ == error_bytes(stream_id, error_code_number(code), message@),
{
    let mut out: Vec<u8> = Vec::new();
    put_uint(&mut out, 10);
    let ghost head = out@;
    match stream_id {
        Some(n) => {
            out.push(1);
            put_uint(&mut out, n as u64);
            proof {
                assert(out@ =~= head + option_bytes(Some(uint_bytes(n as u64))));
            }
        },
        None => {
            out.push(0);
            proof {
                assert(out@ =~= head + option_bytes(None));
            }
        },
    }
    put_uint(&mut out, error_code_to_number(code) as u64);
    put_text(&mut out, message);
    proof {
        assert(out@ =~= error_bytes(stream_id, error_code_number(code), message@));
    }
    out
}

fn write_plugin(plugin_id: &str, data: &[u8]) -> (r: Vec<u8>)
    ensures
        r@ == plugin_bytes(plugin_id@, data@),
{
    let mut out: Vec<u8> = Vec::new();
    put_uint(&mut out, 11);
    put_text(&mut out, plugin_id);
    put_blob(&mut out, data);
    proof {
        assert(out@ =~= plugin_bytes(plugin_id@, data@));
    }
    out
}

/// Writes a frame in control form.
pub fn encode_control(frame: &Frame) -> (r: Vec<u8>)
    ensures
        r@ == control_bytes(*frame),
{
    match frame {
        Frame::Handshake(h) => write_handshake(h),
        Frame::HandshakeAck { session_id, status, version, server_capabilities } =>
            write_handshake_ack(*session_id, *status, *version, server_capabilities),
        Frame::Register { service_name, protocol, metadata } => write_register(
            service_name.as_str(),
            *protocol,
            metadata,
        ),
        Frame::RegisterAck { public_url, status } => write_register_ack(
            public_url.as_str(),
            *status,
        ),
        Frame::OpenStream(o) => write_open(o),
        Frame::StreamAck { stream_id, status } => write_two_numbers(
            5,
            *stream_id,
            stream_status_to_number(*status),
        ),
        Frame::Data { stream_id, data, end_of_stream } => write_data(
            *stream_id,
            data.as_slice(),
            *end_of_stream,
        ),
        Frame::CloseStream { stream_id, reason } => write_close(*stream_id, reason),
        Frame::Heartbeat { timestamp } => write_heartbeat(8, *timestamp),
        Frame::HeartbeatAck { timestamp } => write_heartbeat(9, *timestamp),
        Frame::Error { stream_id, code, message } => write_error(
            *stream_id,
            *code,
            message.as_str(),
        ),
        Frame::PluginData { plugin_id, data } => write_plugin(
            plugin_id.as_str(),
            data.as_slice(),
        ),
    }
}

/// Why a frame cannot be read whose parts cannot: a number among the parts before that stands
/// for no variant comes first.
pub open spec fn first_fault(
    number: Result<u32, Seq<char>>,
    known: bool,
    count: nat,
    words: Seq<char>,
) -> Seq<char> {
    match number {
        Ok(n) => if known {
            words
        } else {
            no_variant(n, count)
        },
        Err(_) => words,
    }
}

/// What a control payload says, or what is wrong with it, in words, where it is no frame.
///
/// A stream open request that ends before its priority has the default priority.
pub open spec fn decoded_control(bytes: Seq<u8>) -> Result<FrameView, Seq<char>> {
    match decoded_number(bytes) {
        Err((_, words)) => Err(words),
        Ok(index) => if index == 0 {
            match decoded_handshake(bytes) {
                Ok((token, tunnel_id, min_version, max_version, capabilities)) => Ok(
                    FrameView::Handshake {
                        token,
                        tunnel_id,
                        min_version,
                        max_version,
                        capabilities,
                    },
                ),
                Err(words) => Err(named(words, 6, 1, "struct HandshakeFrame with 5 elements"@)),
            }
        } else if index == 1 {
            match decoded_handshake_ack(bytes) {
                Ok((session_id, number, version, server_capabilities)) => match handshake_status_of(
                    number,
                ) {
                    Some(status) => Ok(
                        FrameView::HandshakeAck {
                            session_id,
                            status,
                            version,
                            server_capabilities,
                        },
                    ),
                    None => Err(no_variant(number, 6)),
                },
                Err(words) => {
                    let number = decoded_ack_status(bytes);
                    Err(first_fault(number, handshake_status_of(number->Ok_0) is Some, 6, named(words, 5, 1, "struct variant Frame::HandshakeAck with 4 elements"@)))
                },
            }
        } else if index == 2 {
            match decoded_register(bytes) {
                Ok((service_name, number, pairs)) => match protocol_of(number) {
                    Some(protocol) => Ok(
                        FrameView::Register { service_name, protocol, metadata: pairs_map(pairs) },
                    ),
                    None => Err(no_variant(number, 7)),
                },
                Err(words) => {
                    let number = decoded_register_protocol(bytes);
                    Err(first_fault(number, protocol_of(number->Ok_0) is Some, 7, named(words, 4, 1, "struct variant Frame::Register with 3 elements"@)))
                },
            }
        } else if index == 3 {
            match decoded_register_ack(bytes) {
                Ok((public_url, number)) => match register_status_of(number) {
                    Some(status) => Ok(FrameView::RegisterAck { public_url, status }),
                    None => Err(no_variant(number, 4)),
                },
                Err(words) => Err(named(words, 3, 1, "struct variant Frame::RegisterAck with 2 elements"@)),
            }
        } else if index == 4 {
            decoded_open(bytes)
        } else if index == 5 {
            match decoded_two_numbers(bytes) {
                Ok((stream_id, number)) => match stream_status_of(number) {
                    Some(status) => Ok(FrameView::StreamAck { stream_id, status }),
                    None => Err(no_variant(number, 3)),
                },
                Err(words) => Err(named(words, 3, 1, "struct variant Frame::StreamAck with 2 elements"@)),
            }
        } else if index == 6 {
            match decoded_data(bytes) {
                Ok((stream_id, data, end_of_stream)) => Ok(
                    FrameView::Data { stream_id, data, end_of_stream },
                ),
                Err(words) => Err(named(words, 4, 1, "struct variant Frame::Data with 3 elements"@)),
            }
        } else if index == 7 {
            decoded_close(bytes)
        } else if index == 8 {
            match decoded_heartbeat(bytes) {
                Ok(timestamp) => Ok(FrameView::Heartbeat { timestamp }),
                Err(words) => Err(named(words, 2, 1, "struct variant Frame::Heartbeat with 1 element"@)),
            }
        } else if index == 9 {
            match decoded_heartbeat(bytes) {
                Ok(timestamp) => Ok(FrameView::HeartbeatAck { timestamp }),
                Err(words) => Err(named(words, 2, 1, "struct variant Frame::HeartbeatAck with 1 element"@)),
            }
        } else if index == 10 {
            match decoded_error(bytes) {
                Ok((stream_id, number, message)) => match error_code_of(number) {
                    Some(code) => Ok(FrameView::Error { stream_id, code, message }),
                    None => Err(no_variant(number, 7)),
                },
                Err(words) => {
                    let number = decoded_error_number(bytes);
                    Err(first_fault(number, error_code_of(number->Ok_0) is Some, 7, named(words, 4, 1, "struct variant Frame::Error with 3 elements"@)))
                },
            }
        } else if index == 11 {
            match decoded_plugin(bytes) {
                Ok((plugin_id, data)) => Ok(FrameView::PluginData { plugin_id, data }),
                Err(words) => Err(named(words, 3, 1, "struct variant Frame::PluginData with 2 elements"@)),
            }
        } else {
            Err(no_variant(index, 12))
        },
    }
}

/// The priority that the bytes behind the other fields of a stream open request say: the
/// default one where they end early.
pub open spec fn decoded_priority(bytes: Seq<u8>) -> Result<StreamPriority, Seq<char>> {
    match decoded_number(bytes) {
        Ok(n) => match priority_of(n) {
            Some(priority) => Ok(priority),
            None => Err(no_variant(n, 4)),
        },
        Err((ends_early, words)) => if ends_early {
            Ok(StreamPriority::Normal)
        } else {
            Err(words)
        },
    }
}

/// What a payload of the stream open variant says.
pub open spec fn decoded_open(bytes: Seq<u8>) -> Result<FrameView, Seq<char>> {
    match decoded_open_head(bytes) {
        Err(row) => {
            let words = named(row, 5, 1, "struct OpenStreamFrame with 5 elements"@);
            Err(
                match decoded_two_numbers(bytes) {
                    Ok((_, number)) => first_fault(
                        Ok(number),
                        protocol_of(number) is Some,
                        7,
                        words,
                    ),
                    Err(_) => words,
                },
            )
        },
        Ok((stream_id, number, headers, body_hint, used)) => match protocol_of(number) {
            Some(protocol) => match decoded_priority(bytes.skip(used as int)) {
                Ok(priority) => Ok(
                    FrameView::OpenStream { stream_id, protocol, headers, body_hint, priority },
                ),
                Err(words) => Err(words),
            },
            None => Err(no_variant(number, 7)),
        },
    }
}

/// What a payload of the stream close variant says.
pub open spec fn decoded_close(bytes: Seq<u8>) -> Result<FrameView, Seq<char>> {
    match decoded_two_numbers(bytes) {
        Err(words) => Err(named(words, 3, 1, "struct variant Frame::CloseStream with 2 elements"@)),
        Ok((stream_id, reason)) => if reason == 0 {
            Ok(FrameView::CloseStream { stream_id, reason: CloseReasonView::Normal })
        } else if reason == 1 {
            Ok(FrameView::CloseStream { stream_id, reason: CloseReasonView::Timeout })
        } else if reason == 2 {
            match decoded_close_message(bytes) {
                Ok(m) => Ok(
                    FrameView::CloseStream { stream_id, reason: CloseReasonView::Error(m) },
                ),
                Err(words) => Err(named(words, 4, 2, "struct variant Frame::CloseStream with 2 elements"@)),
            }
        } else if reason == 3 {
            Ok(
                FrameView::CloseStream {
                    stream_id,
                    reason: CloseReasonView::LocalServiceUnreachable,
                },
            )
        } else if reason == 4 {
            Ok(FrameView::CloseStream { stream_id, reason: CloseReasonView::ProtocolViolation })
        } else {
            Err(no_variant(reason, 5))
        },
    }
}

/// The number of a frame's variant on the wire.
pub open spec fn variant_number(frame: Frame) -> u32 {
    match frame {
        Frame::Handshake(_) => 0,
        Frame::HandshakeAck { .. } => 1,
        Frame::Register { .. } => 2,
        Frame::RegisterAck { .. } => 3,
        Frame::OpenStream(_) => 4,
        Frame::StreamAck { .. } => 5,
        Frame::Data { .. } => 6,
        Frame::CloseStream { .. } => 7,
        Frame::Heartbeat { .. } => 8,
        Frame::HeartbeatAck { .. } => 9,
        Frame::Error { .. } => 10,
        Frame::PluginData { .. } => 11,
    }
}

/// The bytes of a frame start with the number of its variant.
proof fn lemma_variant_first(frame: Frame)
    ensures
        control_bytes(frame) == uint_bytes(variant_number(frame) as u64) + control_bytes(
            frame,
        ).skip(uint_bytes(variant_number(frame) as u64).len() as int),
{
    let head = uint_bytes(variant_number(frame) as u64);
    let whole = control_bytes(frame);
    assert(whole.len() >= head.len() && whole.take(head.len() as int) =~= head);
    assert(whole =~= head + whole.skip(head.len() as int));
}

/// Whether what was read says what it should: the frame, or what is wrong in words.
pub open spec fn says(read: Result<Frame, String>, expected: Result<FrameView, Seq<char>>) -> bool {
    match read {
        Ok(frame) => expected matches Ok(view) && view == frame@,
        Err(words) => expected matches Err(w) && w == words@,
    }
}

fn read_handshake(bytes: &[u8]) -> (r: Result<Frame, String>)
    requires
        decoded_number(bytes@) == Ok::<u32, (bool, Seq<char>)>(0),
    ensures
        says(r, decoded_control(bytes@)),
        forall|f: Frame| #[trigger]
            control_bytes(f) == bytes@ && f is Handshake && control_claim(f) <= CLAIM_LIMIT ==> r
                is Ok && r->Ok_0@ == f@,
{
    match decode_handshake(bytes) {
        Ok((token, tunnel_id, min_version, max_version, capabilities)) => {
            let h = HandshakeFrame { token, tunnel_id, min_version, max_version, capabilities };
            Ok(Frame::Handshake(Box::new(h)))
        },
        Err(words) => Err(name_frame(words, 6, 1, "struct HandshakeFrame with 5 elements")),
    }
}

fn read_handshake_ack(bytes: &[u8]) -> (r: Result<Frame, String>)
    requires
        decoded_number(bytes@) == Ok::<u32, (bool, Seq<char>)>(1),
    ensures
        says(r, decoded_control(bytes@)),
        forall|f: Frame| #[trigger]
            control_bytes(f) == bytes@ && f is HandshakeAck && control_claim(f) <= CLAIM_LIMIT ==> r
                is Ok && r->Ok_0@ == f@,
{
    match decode_handshake_ack(bytes) {
        Ok((session_id, number, version, server_capabilities)) => {
            match handshake_status_from_number(number) {
                Some(status) => Ok(
                    Frame::HandshakeAck { session_id, status, version, server_capabilities },
                ),
                None => Err(no_variant_words(number, 6)),
            }
        },
        Err(row) => {
            let words = name_frame(row, 5, 1, "struct variant Frame::HandshakeAck with 4 elements");
            match decode_ack_status(bytes) {
                Ok(number) => match handshake_status_from_number(number) {
                    Some(_) => Err(words),
                    None => Err(no_variant_words(number, 6)),
                },
                Err(_) => Err(words),
            }
        },
    }
}

fn read_register(bytes: &[u8]) -> (r: Result<Frame, String>)
    requires
        decoded_number(bytes@) == Ok::<u32, (bool, Seq<char>)>(2),
    ensures
        says(r, decoded_control(bytes@)),
        forall|f: Frame| #[trigger]
            control_bytes(f) == bytes@ && f is Register && control_claim(f) <= CLAIM_LIMIT ==> r
                is Ok && r->Ok_0@ == f@,
{
    match decode_register(bytes) {
        Ok((service_name, number, pairs)) => {
            match protocol_from_number(number) {
                Some(protocol) => {
                    let metadata = Metadata::from_entries(pairs);
                    Ok(Frame::Register { service_name, protocol, metadata })
                },
                None => Err(no_variant_words(number, 7)),
            }
        },
        Err(row) => {
            let words = name_frame(row, 4, 1, "struct variant Frame::Register with 3 elements");
            match decode_register_protocol(bytes) {
                Ok(number) => match protocol_from_number(number) {
                    Some(_) => Err(words),
                    None => Err(no_variant_words(number, 7)),
                },
                Err(_) => Err(words),
            }
        },
    }
}

fn read_register_ack(bytes: &[u8]) -> (r: Result<Frame, String>)
    requires
        decoded_number(bytes@) == Ok::<u32, (bool, Seq<char>)>(3),
    ensures
        says(r, decoded_control(bytes@)),
        forall|f: Frame| #[trigger]
            control_bytes(f) == bytes@ && f is RegisterAck && control_claim(f) <= CLAIM_LIMIT ==> r
                is Ok && r->Ok_0@ == f@,
{
    match decode_register_ack(bytes) {
        Ok((public_url, number)) => {
            match register_status_from_number(number) {
                Some(status) => Ok(Frame::RegisterAck { public_url, status }),
                None => Err(no_variant_words(number, 4)),
            }
        },
        Err(words) => Err(name_frame(words, 3, 1, "struct variant Frame::RegisterAck with 2 elements")),
    }
}

fn read_open(bytes: &[u8]) -> (r: Result<Frame, String>)
    requires
        decoded_number(bytes@) == Ok::<u32, (bool, Seq<char>)>(4),
    ensures
        says(r, decoded_control(bytes@)),
        forall|f: Frame| #[trigger]
            control_bytes(f) == bytes@ && f is OpenStream && control_claim(f) <= CLAIM_LIMIT ==> r
                is Ok && r->Ok_0@ == f@,
        forall|f: Frame| #[trigger]
            open_without_priority(f) == bytes@ && f is OpenStream && control_claim(f) <= CLAIM_LIMIT
                ==> r is Ok && r->Ok_0@ == with_normal_priority(f@),
{
    match decode_open_head(bytes) {
        Ok((stream_id, number, headers, body_hint, used)) => {
            let rest = vstd::slice::slice_subrange(bytes, used, bytes.len());
            let tail = decode_number(rest);
            proof {
                assert(rest@ =~= bytes@.skip(used as int));
                assert forall|f: Frame| #[trigger]
                    control_bytes(f) == bytes@ && f is OpenStream && control_claim(f)
                        <= CLAIM_LIMIT implies tail is Ok && tail->Ok_0 == priority_number(
                    f->OpenStream_0.priority,
                ) by {
                    let o = f->OpenStream_0;
                    let head = open_head_bytes(
                        o.stream_id,
                        protocol_number(o.protocol),
                        text_pairs(o.headers@),
                        o.body_hint,
                    );
                    let last = uint_bytes(priority_number(o.priority) as u64);
                    assert(bytes@ == head + last);
                    assert(used == head.len());
                    assert(rest@ =~= last + Seq::<u8>::empty());
                }
                assert forall|f: Frame| #[trigger]
                    open_without_priority(f) == bytes@ && f is OpenStream && control_claim(f)
                        <= CLAIM_LIMIT implies rest@.len() == 0 && text_pairs(headers@)
                    == text_pairs(f->OpenStream_0.headers@) && stream_id
                    == f->OpenStream_0.stream_id && number == protocol_number(
                    f->OpenStream_0.protocol,
                ) && body_hint == f->OpenStream_0.body_hint by {
                    assert(bytes@ =~= open_without_priority(f) + Seq::<u8>::empty());
                }
            }
            let protocol = match protocol_from_number(number) {
                Some(protocol) => protocol,
                None => {
                    return Err(no_variant_words(number, 7));
                },
            };
            let priority = match tail {
                Ok(n) => match priority_from_number(n) {
                    Some(priority) => priority,
                    None => {
                        return Err(no_variant_words(n, 4));
                    },
                },
                Err(failure) => {
                    if !failure.ends_early {
                        return Err(failure.words);
                    }
                    StreamPriority::Normal
                },
            };
            let o = OpenStreamFrame { stream_id, protocol, headers, body_hint, priority };
            Ok(Frame::OpenStream(Box::new(o)))
        },
        Err(row) => {
            let words = name_frame(row, 5, 1, "struct OpenStreamFrame with 5 elements");
            proof {
                assert forall|f: Frame| #[trigger]
                    open_without_priority(f) == bytes@ && f is OpenStream && control_claim(f)
                        <= CLAIM_LIMIT implies false by {
                    assert(bytes@ =~= open_without_priority(f) + Seq::<u8>::empty());
                }
            }
            match decode_two_numbers(bytes) {
                Ok((_, number)) => match protocol_from_number(number) {
                    Some(_) => Err(words),
                    None => Err(no_variant_words(number, 7)),
                },
                Err(_) => Err(words),
            }
        },
    }
}

/// The bytes of a stream open request whose sender does not know priorities.
pub open spec fn open_without_priority(frame: Frame) -> Seq<u8> {
    match frame {
        Frame::OpenStream(o) => open_head_bytes(
            o.stream_id,
            protocol_number(o.protocol),
            text_pairs(o.headers@),
            o.body_hint,
        ),
        _ => Seq::empty(),
    }
}

/// The same stream open request at the default priority.
pub open spec fn with_normal_priority(frame: FrameView) -> FrameView {
    match frame {
        FrameView::OpenStream { stream_id, protocol, headers, body_hint, .. } =>
            FrameView::OpenStream {
            stream_id,
            protocol,
            headers,
            body_hint,
            priority: StreamPriority::Normal,
        },
        other => other,
    }
}

fn read_stream_ack(bytes: &[u8]) -> (r: Result<Frame, String>)
    requires
        decoded_number(bytes@) == Ok::<u32, (bool, Seq<char>)>(5),
    ensures
        says(r, decoded_control(bytes@)),
        forall|f: Frame| #[trigger]
            control_bytes(f) == bytes@ && f is StreamAck ==> r is Ok && r->Ok_0@ == f@,
{
    match decode_two_numbers(bytes) {
        Ok((stream_id, number)) => {
            proof {
                assert forall|f: Frame| #[trigger]
                    control_bytes(f) == bytes@ && f is StreamAck implies stream_id
                    == f->StreamAck_stream_id && number == stream_status_number(
                    f->StreamAck_status,
                ) by {
                    assert(bytes@ =~= two_numbers_bytes(
                        5,
                        f->StreamAck_stream_id,
                        stream_status_number(f->StreamAck_status),
                    ) + Seq::<u8>::empty());
                }
            }
            match stream_status_from_number(number) {
                Some(status) => Ok(Frame::StreamAck { stream_id, status }),
                None => Err(no_variant_words(number, 3)),
            }
        },
        Err(words) => {
            proof {
                assert forall|f: Frame| #[trigger]
                    control_bytes(f) == bytes@ && f is StreamAck implies false by {
                    assert(bytes@ =~= two_numbers_bytes(
                        5,
                        f->StreamAck_stream_id,
                        stream_status_number(f->StreamAck_status),
                    ) + Seq::<u8>::empty());
                }
            }
            Err(name_frame(words, 3, 1, "struct variant Frame::StreamAck with 2 elements"))
        },
    }
}

fn read_data(bytes: &[u8]) -> (r: Result<Frame, String>)
    requires
        decoded_number(bytes@) == Ok::<u32, (bool, Seq<char>)>(6),
    ensures
        says(r, decoded_control(bytes@)),
        forall|f: Frame| #[trigger]
            control_bytes(f) == bytes@ && f is Data && control_claim(f) <= CLAIM_LIMIT ==> r is Ok
                && r->Ok_0@ == f@,
{
    match decode_data(bytes) {
        Ok((stream_id, data, end_of_stream)) => Ok(
            Frame::Data { stream_id, data, end_of_stream },
        ),
        Err(words) => Err(name_frame(words, 4, 1, "struct variant Frame::Data with 3 elements")),
    }
}

/// The start of a stream close: its stream and the number of its reason.
proof fn lemma_close_head(f: Frame)
    requires
        f is CloseStream,
    ensures
        control_bytes(f) == two_numbers_bytes(
            7,
            f->CloseStream_stream_id,
            close_reason_number(f->CloseStream_reason@),
        ) + (match f->CloseStream_reason {
            CloseReason::Error(m) => text_bytes(m@),
            _ => Seq::empty(),
        }),
{
    assert(control_bytes(f) =~= two_numbers_bytes(
        7,
        f->CloseStream_stream_id,
        close_reason_number(f->CloseStream_reason@),
    ) + (match f->CloseStream_reason {
        CloseReason::Error(m) => text_bytes(m@),
        _ => Seq::empty(),
    }));
}

fn read_close(bytes: &[u8]) -> (r: Result<Frame, String>)
    requires
        decoded_number(bytes@) == Ok::<u32, (bool, Seq<char>)>(7),
    ensures
        says(r, decoded_control(bytes@)),
        forall|f: Frame| #[trigger]
            control_bytes(f) == bytes@ && f is CloseStream && control_claim(f) <= CLAIM_LIMIT ==> r
                is Ok && r->Ok_0@ == f@,
{
    let head = decode_two_numbers(bytes);
    proof {
        assert forall|f: Frame| #[trigger]
            control_bytes(f) == bytes@ && f is CloseStream implies head is Ok && head->Ok_0 == (
            f->CloseStream_stream_id,
            close_reason_number(f->CloseStream_reason@),
        ) by {
            lemma_close_head(f);
        }
    }
    match head {
        Ok((stream_id, number)) => {
            let reason: CloseReason = match number {
                0 => CloseReason::Normal,
                1 => CloseReason::Timeout,
                2 => match decode_close_message(bytes) {
                    Ok(message) => CloseReason::Error(message),
                    Err(words) => {
                        return Err(name_frame(words, 4, 2, "struct variant Frame::CloseStream with 2 elements"));
                    },
                },
                3 => CloseReason::LocalServiceUnreachable,
                4 => CloseReason::ProtocolViolation,
                _ => {
                    return Err(no_variant_words(number, 5));
                },
            };
            Ok(Frame::CloseStream { stream_id, reason })
        },
        Err(words) => Err(name_frame(words, 3, 1, "struct variant Frame::CloseStream with 2 elements")),
    }
}

fn read_heartbeat(bytes: &[u8]) -> (r: Result<Frame, String>)
    requires
        decoded_number(bytes@) == Ok::<u32, (bool, Seq<char>)>(8),
    ensures
        says(r, decoded_control(bytes@)),
        forall|f: Frame| #[trigger]
            control_bytes(f) == bytes@ && f is Heartbeat ==> r is Ok && r->Ok_0@ == f@,
{
    match decode_heartbeat(bytes) {
        Ok(timestamp) => Ok(Frame::Heartbeat { timestamp }),
        Err(words) => Err(name_frame(words, 2, 1, "struct variant Frame::Heartbeat with 1 element")),
    }
}

fn read_heartbeat_ack(bytes: &[u8]) -> (r: Result<Frame, String>)
    requires
        decoded_number(bytes@) == Ok::<u32, (bool, Seq<char>)>(9),
    ensures
        says(r, decoded_control(bytes@)),
        forall|f: Frame| #[trigger]
            control_bytes(f) == bytes@ && f is HeartbeatAck ==> r is Ok && r->Ok_0@ == f@,
{
    match decode_heartbeat(bytes) {
        Ok(timestamp) => Ok(Frame::HeartbeatAck { timestamp }),
        Err(words) => Err(name_frame(words, 2, 1, "struct variant Frame::HeartbeatAck with 1 element")),
    }
}

fn read_error(bytes: &[u8]) -> (r: Result<Frame, String>)
    requires
        decoded_number(bytes@) == Ok::<u32, (bool, Seq<char>)>(10),
    ensures
        says(r, decoded_control(bytes@)),
        forall|f: Frame| #[trigger]
            control_bytes(f) == bytes@ && f is Error && control_claim(f) <= CLAIM_LIMIT ==> r
                is Ok && r->Ok_0@ == f@,
{
    match decode_error(bytes) {
        Ok((stream_id, number, message)) => {
            match error_code_from_number(number) {
                Some(code) => Ok(Frame::Error { stream_id, code, message }),
                None => Err(no_variant_words(number, 7)),
            }
        },
        Err(row) => {
            let words = name_frame(row, 4, 1, "struct variant Frame::Error with 3 elements");
            match decode_error_number(bytes) {
                Ok(number) => match error_code_from_number(number) {
                    Some(_) => Err(words),
                    None => Err(no_variant_words(number, 7)),
                },
                Err(_) => Err(words),
            }
        },
    }
}

fn read_plugin(bytes: &[u8]) -> (r: Result<Frame, String>)
    requires
        decoded_number(bytes@) == Ok::<u32, (bool, Seq<char>)>(11),
    ensures
        says(r, decoded_control(bytes@)),
        forall|f: Frame| #[trigger]
            control_bytes(f) == bytes@ && f is PluginData && control_claim(f) <= CLAIM_LIMIT ==> r
                is Ok && r->Ok_0@ == f@,
{
    match decode_plugin(bytes) {
        Ok((plugin_id, data)) => Ok(Frame::PluginData { plugin_id, data }),
        Err(words) => Err(name_frame(words, 3, 1, "struct variant Frame::PluginData with 2 elements")),
    }
}

/// Reads a frame in control form; bytes behind the frame are ignored.
///
/// Bytes that [`encode_control`] wrote are read as the frame they were written for, as long
/// as reading it stays within [`CLAIM_LIMIT`]. A stream open request from a sender that does
/// not know priorities is read at the default priority.
pub fn decode_control(bytes: &[u8]) -> (r: Result<Frame, String>)
    ensures
        says(r, decoded_control(bytes@)),
        forall|f: Frame| #[trigger]
            control_bytes(f) == bytes@ && control_claim(f) <= CLAIM_LIMIT ==> r is Ok && r->Ok_0@
                == f@,
        forall|f: Frame| #[trigger]
            open_without_priority(f) == bytes@ && f is OpenStream && control_claim(f) <= CLAIM_LIMIT
                ==> r is Ok && r->Ok_0@ == with_normal_priority(f@),
{
    let index = decode_number(bytes);
    proof {
        assert forall|f: Frame| #[trigger] control_bytes(f) == bytes@ implies index is Ok
            && index->Ok_0 == variant_number(f) by {
            lemma_variant_first(f);
        }
        assert forall|f: Frame| #[trigger]
            open_without_priority(f) == bytes@ && f is OpenStream implies index is Ok
            && index->Ok_0 == 4 by {
            let n: u32 = 4;
            assert(bytes@ =~= uint_bytes(n as u64) + bytes@.skip(
                uint_bytes(n as u64).len() as int,
            ));
        }
    }
    match index {
        Ok(0) => read_handshake(bytes),
        Ok(1) => read_handshake_ack(bytes),
        Ok(2) => read_register(bytes),
        Ok(3) => read_register_ack(bytes),
        Ok(4) => read_open(bytes),
        Ok(5) => read_stream_ack(bytes),
        Ok(6) => read_data(bytes),
        Ok(7) => read_close(bytes),
        Ok(8) => read_heartbeat(bytes),
        Ok(9) => read_heartbeat_ack(bytes),
        Ok(10) => read_error(bytes),
        Ok(11) => read_plugin(bytes),
        Ok(n) => Err(no_variant_words(n, 12)),
        Err(failure) => Err(failure.words),
    }
}

/// The control form of a frame reads back as that frame, as long as reading it stays within 16 MiB.
pub proof fn law_control_form_reads_back(
    frame: &Frame,
    form: Vec<u8>,
    bytes: &[u8],
    r: Result<Frame, String>,
)
    requires
        call_ensures(encode_control, (frame,), form),
        bytes@ == form@,
        call_ensures(decode_control, (bytes,), r),
        control_claim(*frame) <= 16 * 1024 * 1024,
    ensures
        r is Ok,
        r->Ok_0@ == frame@,
{
    assert(control_bytes(*frame) == bytes@);
}

proof fn lemma_small(n: u64)
    requires
        n < 251,
    ensures
        uint_bytes(n) == seq![n as u8],
{
    reveal(uint_bytes);
}

/// The control form of a frame starts with the number of its kind.
pub proof fn law_kinds_of_frames_are_numbered(frame: &Frame, form: Vec<u8>)
    requires
        call_ensures(encode_control, (frame,), form),
    ensures
        form@.len() > 0,
        form@[0] == (match *frame {
            Frame::Handshake(_) => 0u8,
            Frame::HandshakeAck { .. } => 1,
            Frame::Register { .. } => 2,
            Frame::RegisterAck { .. } => 3,
            Frame::OpenStream(_) => 4,
            Frame::StreamAck { .. } => 5,
            Frame::Data { .. } => 6,
            Frame::CloseStream { .. } => 7,
            Frame::Heartbeat { .. } => 8,
            Frame::HeartbeatAck { .. } => 9,
            Frame::Error { .. } => 10,
            Frame::PluginData { .. } => 11,
        }),
{
    lemma_variant_first(*frame);
    lemma_small(variant_number(*frame) as u64);
    let head = uint_bytes(variant_number(*frame) as u64);
    assert(control_bytes(*frame)[0] == head[0]);
}

/// The numbers of statuses, protocols, priorities, reasons and error codes, each at the end of the
/// shortest frame that carries it.
pub proof fn law_codes_are_numbered(
    stream_status: StreamStatus,
    register_status: RegisterStatus,
    reason: CloseReason,
    stream_id: u32,
    url: String,
    ack: &Frame,
    registered: &Frame,
    close: &Frame,
    ack_form: Vec<u8>,
    registered_form: Vec<u8>,
    close_form: Vec<u8>,
)
    requires
        *ack == (Frame::StreamAck { stream_id, status: stream_status }),
        *registered == (Frame::RegisterAck { public_url: url, status: register_status }),
        *close == (Frame::CloseStream { stream_id, reason }),
        call_ensures(encode_control, (ack,), ack_form),
        call_ensures(encode_control, (registered,), registered_form),
        call_ensures(encode_control, (close,), close_form),
    ensures
        ack_form@.last() == (match stream_status {
            StreamStatus::Accepted => 0u8,
            StreamStatus::Rejected => 1,
            StreamStatus::BackpressureApplied => 2,
        }),
        registered_form@.last() == (match register_status {
            RegisterStatus::Success => 0u8,
            RegisterStatus::ServiceNameTaken => 1,
            RegisterStatus::InvalidServiceName => 2,
            RegisterStatus::QuotaExceeded => 3,
        }),
        !(reason is Error) ==> close_form@.last() == (match reason {
            CloseReason::Normal => 0u8,
            CloseReason::Timeout => 1,
            CloseReason::Error(_) => 2,
            CloseReason::LocalServiceUnreachable => 3,
            CloseReason::ProtocolViolation => 4,
        }),
{
    lemma_small(stream_status_number(stream_status) as u64);
    lemma_small(register_status_number(register_status) as u64);
    lemma_small(close_reason_number(reason@) as u64);
}

/// A stream open request ends with the number of its priority, and the number of its protocol
/// stands between its stream id and its headers.
pub proof fn law_open_request_is_laid_out(o: OpenStreamFrame, frame: &Frame, form: Vec<u8>)
    requires
        *frame == Frame::OpenStream(Box::new(o)),
        call_ensures(encode_control, (frame,), form),
        o.stream_id < 251,
        o.headers@.len() == 0,
        o.body_hint is None,
    ensures
        form@ == seq![
            4u8,
            o.stream_id as u8,
            match o.protocol {
                Protocol::HTTP => 0u8,
                Protocol::HTTPS => 1,
                Protocol::HTTP2 => 2,
                Protocol::WebSocket => 3,
                Protocol::GRPC => 4,
                Protocol::TCP => 5,
                Protocol::QUIC => 6,
            },
            0u8,
            0u8,
            match o.priority {
                StreamPriority::Normal => 0u8,
                StreamPriority::Low => 1,
                StreamPriority::High => 2,
                StreamPriority::Critical => 3,
            },
        ],
{
    lemma_small(4);
    lemma_small(0);
    lemma_small(o.stream_id as u64);
    lemma_small(protocol_number(o.protocol) as u64);
    lemma_small(priority_number(o.priority) as u64);
    assert(text_pairs(o.headers@) =~= Seq::empty());
    assert(concat_pairs(text_pairs(o.headers@)) =~= Seq::<u8>::empty());
    assert(form@ =~= seq![
        4u8,
        o.stream_id as u8,
        protocol_number(o.protocol) as u8,
        0u8,
        0u8,
        priority_number(o.priority) as u8,
    ]);
}

/// A heartbeat is its kind and its time in as few bytes as hold it, least significant first behind
/// a byte that tells how many; an error without a stream is its code and its message with its
/// length before it.
pub proof fn law_numbers_and_texts_are_laid_out(
    timestamp: u64,
    heartbeat: &Frame,
    heartbeat_form: Vec<u8>,
    code: ErrorCode,
    message: String,
    error: &Frame,
    error_form: Vec<u8>,
)
    requires
        *heartbeat == (Frame::Heartbeat { timestamp }),
        call_ensures(encode_control, (heartbeat,), heartbeat_form),
        *error == (Frame::Error { stream_id: None, code, message }),
        encode_utf8(message@).len() < 251,
        call_ensures(encode_control, (error,), error_form),
    ensures
        timestamp < 251 ==> heartbeat_form@ == seq![8u8, timestamp as u8],
        251 <= timestamp <= 0xffff ==> heartbeat_form@ == seq![
            8u8,
            251u8,
            (timestamp % 256) as u8,
            (timestamp / 256) as u8,
        ],
        0xffff < timestamp <= 0xffff_ffff ==> heartbeat_form@.len() == 6 && heartbeat_form@[1]
            == 252 && heartbeat_form@[2] as int == timestamp % 256 && heartbeat_form@[5] as int
            == timestamp / 0x100_0000,
        timestamp > 0xffff_ffff ==> heartbeat_form@.len() == 10 && heartbeat_form@[1] == 253
            && heartbeat_form@[2] as int == timestamp % 256,
        error_form@ == seq![
            10u8,
            0u8,
            match code {
                ErrorCode::ProtocolError => 0u8,
                ErrorCode::AuthenticationFailed => 1,
                ErrorCode::SessionNotFound => 2,
                ErrorCode::StreamNotFound => 3,
                ErrorCode::Timeout => 4,
                ErrorCode::InternalServerError => 5,
                ErrorCode::ServiceUnavailable => 6,
            },
            encode_utf8(message@).len() as u8,
        ] + encode_utf8(message@),
{
    reveal(uint_bytes);
    let text = encode_utf8(message@);
    lemma_small(text.len() as u64);
    assert(error_form@ =~= seq![
        10u8,
        0u8,
        error_code_number(code) as u8,
        text.len() as u8,
    ] + text);
    if timestamp < 251 {
        assert(heartbeat_form@ =~= seq![8u8, timestamp as u8]);
    } else if timestamp <= 0xffff {
        assert(heartbeat_form@ =~= seq![
            8u8,
            251u8,
            (timestamp % 256) as u8,
            (timestamp / 256) as u8,
        ]);
    }
}

/// A handshake is its token, an optional tunnel id behind a byte that tells whether there is one,
/// its versions and its capabilities; texts and lists have their lengths before them.
pub proof fn law_handshake_is_laid_out(h: HandshakeFrame, frame: &Frame, form: Vec<u8>)
    requires
        *frame == Frame::Handshake(Box::new(h)),
        call_ensures(encode_control, (frame,), form),
        encode_utf8(h.token@).len() < 251,
        h.tunnel_id is Some ==> encode_utf8((h.tunnel_id->0)@).len() < 251,
        h.capabilities@.len() == 0,
    ensures
        ({
            let token = encode_utf8(h.token@);
            let tunnel = match h.tunnel_id {
                Some(t) => seq![1u8, encode_utf8(t@).len() as u8] + encode_utf8(t@),
                None => seq![0u8],
            };
            form@ == seq![0u8, token.len() as u8] + token + tunnel + seq![
                h.min_version,
                h.max_version,
                0u8,
            ]
        }),
{
    lemma_small(0);
    let token = encode_utf8(h.token@);
    lemma_small(token.len() as u64);
    assert(texts(h.capabilities@) =~= Seq::empty());
    if let Some(t) = h.tunnel_id {
        lemma_small(encode_utf8(t@).len() as u64);
    }
    let tunnel = match h.tunnel_id {
        Some(t) => seq![1u8, encode_utf8(t@).len() as u8] + encode_utf8(t@),
        None => seq![0u8],
    };
    assert(form@ =~= seq![0u8, token.len() as u8] + token + tunnel + seq![
        h.min_version,
        h.max_version,
        0u8,
    ]);
}

/// A handshake acknowledgment is the 16 bytes of its session id, most significant first and with
/// their number before them, the number of its status, the version and the capabilities.
pub proof fn law_acknowledgment_is_laid_out(
    session_id: u128,
    status: HandshakeStatus,
    version: u8,
    server_capabilities: Vec<String>,
    frame: &Frame,
    form: Vec<u8>,
)
    requires
        *frame == (Frame::HandshakeAck { session_id, status, version, server_capabilities }),
        call_ensures(encode_control, (frame,), form),
        server_capabilities@.len() == 0,
    ensures
        form@.len() == 21,
        form@[0] == 1,
        form@[1] == 16,
        form@[2] == (session_id >> 120) as u8,
        form@[17] == (session_id >> 0) as u8,
        form@[18] == (match status {
            HandshakeStatus::Success => 0u8,
            HandshakeStatus::InvalidToken => 1,
            HandshakeStatus::UnsupportedVersion => 2,
            HandshakeStatus::VersionMismatch => 3,
            HandshakeStatus::RateLimited => 4,
            HandshakeStatus::TunnelIdTaken => 5,
        }),
        form@[19] == version,
        form@[20] == 0,
{
    lemma_small(0);
    lemma_small(1);
    lemma_small(16);
    lemma_small(handshake_status_number(status) as u64);
    assert(texts(server_capabilities@) =~= Seq::empty());
    assert(form@ =~= seq![1u8, 16u8] + id_bytes(session_id) + seq![
        handshake_status_number(status) as u8,
        version,
        0u8,
    ]);
}

/// A stream open request of a sender that knows no priorities, which ends before its priority, is
/// read at the normal one.
pub proof fn law_missing_priority_is_normal(
    frame: &Frame,
    form: Vec<u8>,
    bytes: &[u8],
    r: Result<Frame, String>,
)
    requires
        *frame is OpenStream,
        call_ensures(encode_control, (frame,), form),
        bytes@ == form@.drop_last(),
        call_ensures(decode_control, (bytes,), r),
        control_claim(*frame) <= 16 * 1024 * 1024,
    ensures
        r is Ok,
        r->Ok_0 is OpenStream,
        r->Ok_0->OpenStream_0.stream_id == frame->OpenStream_0.stream_id,
        r->Ok_0->OpenStream_0.protocol == frame->OpenStream_0.protocol,
        r->Ok_0->OpenStream_0.body_hint == frame->OpenStream_0.body_hint,
        r->Ok_0->OpenStream_0.priority == StreamPriority::Normal,
{
    let o = frame->OpenStream_0;
    lemma_small(priority_number(o.priority) as u64);
    assert(bytes@ =~= open_without_priority(*frame));
}

/// A number that stands for no kind of frame, status, protocol, reason, code or priority is refused,
/// and every other is read as what it stands for.
pub proof fn law_unknown_numbers_are_refused(
    bytes: &[u8],
    kind: u32,
    id: u32,
    n: u32,
    url: Seq<char>,
    session_id: u128,
    version: u8,
    capabilities: Seq<Seq<char>>,
    name: Seq<char>,
    pairs: Seq<(Seq<char>, Seq<char>)>,
    message: Seq<char>,
    r: Result<Frame, String>,
)
    requires
        call_ensures(decode_control, (bytes,), r),
        decoded_number(bytes@) == Ok::<u32, (bool, Seq<char>)>(kind),
    ensures
        kind > 11 ==> r is Err,
        kind == 5 && decoded_two_numbers(bytes@) == Ok::<(u32, u32), Seq<char>>((id, n)) ==> {
            &&& r is Ok <==> n <= 2
            &&& r is Ok ==> r->Ok_0 is StreamAck && r->Ok_0->StreamAck_stream_id == id
        },
        kind == 7 && decoded_two_numbers(bytes@) == Ok::<(u32, u32), Seq<char>>((id, n)) ==> {
            &&& n > 4 ==> r is Err
            &&& n <= 4 && n != 2 ==> r is Ok && r->Ok_0 is CloseStream
                && r->Ok_0->CloseStream_stream_id == id && !(r->Ok_0->CloseStream_reason is Error)
        },
        kind == 3 && decoded_register_ack(bytes@) == Ok::<(Seq<char>, u32), Seq<char>>((url, n))
            ==> {
            &&& r is Ok <==> n <= 3
            &&& r is Ok ==> r->Ok_0 is RegisterAck && r->Ok_0->RegisterAck_public_url@ == url
        },
        kind == 1 && decoded_handshake_ack(bytes@) == Ok::<
            (u128, u32, u8, Seq<Seq<char>>),
            Seq<char>,
        >((session_id, n, version, capabilities)) ==> {
            &&& r is Ok <==> n <= 5
            &&& r is Ok ==> r->Ok_0 is HandshakeAck && r->Ok_0->HandshakeAck_session_id == session_id
                && r->Ok_0->HandshakeAck_version == version
        },
        kind == 2 && decoded_register(bytes@) == Ok::<
            (Seq<char>, u32, Seq<(Seq<char>, Seq<char>)>),
            Seq<char>,
        >((name, n, pairs)) ==> {
            &&& r is Ok <==> n <= 6
            &&& r is Ok ==> r->Ok_0 is Register && r->Ok_0->Register_service_name@ == name
        },
        kind == 10 && decoded_error(bytes@) == Ok::<(Option<u32>, u32, Seq<char>), Seq<char>>(
            (Some(id), n, message),
        ) ==> {
            &&& r is Ok <==> n <= 6
            &&& r is Ok ==> r->Ok_0 is Error && r->Ok_0->Error_stream_id == Some(id)
                && r->Ok_0->Error_message@ == message
        },
{
}

} // verus!
