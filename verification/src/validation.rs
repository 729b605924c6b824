//! Validation of frame contents.
//!
//! The length prefix already caps the encoded size of a frame. These checks also bound how
//! many entries a frame holds and how long each of them is, so that a frame which fits the
//! byte budget cannot force outsized allocations.

use vstd::prelude::*;

use crate::config::LimitsConfig;
use crate::frame::{CloseReason, CloseReasonView, Frame, FrameView, HandshakeFrame, Metadata,
    OpenStreamFrame, pairs_map};
use crate::text::{append_decimal, byte_len, decimal_text, opt_text, text_pairs, texts, utf8_len};

verus! {

/// Why a frame was refused.
#[allow(inconsistent_fields)]
#[derive(Debug, Clone, Copy, PartialEq, Eq, Structural)]
pub enum ValidationError {
    FrameTooLarge { size: u64, limit: u64 },
    TokenTooLong { len: usize, limit: usize },
    TooManyCapabilities { count: usize, limit: usize },
    CapabilityTooLong { len: usize, limit: usize },
    PayloadTooLarge { size: usize, limit: usize },
    TooManyEntries { count: usize, limit: usize },
    FieldTooLong { len: usize, limit: usize },
    InvalidVersionRange { min: u8, max: u8 },
}

/// A sentence about a number and the bound that it breaks.
pub open spec fn sentence(
    start: Seq<char>,
    number: nat,
    middle: Seq<char>,
    bound: nat,
    end: Seq<char>,
) -> Seq<char> {
    start + decimal_text(number) + middle + decimal_text(bound) + end
}

fn write_sentence(start: &str, number: u64, middle: &str, bound: u64, end: &str) -> (r: String)
    ensures
        r@ == sentence(start@, number as nat, middle@, bound as nat, end@),
{
    let mut text = start.to_owned();
    append_decimal(&mut text, number);
    text.append(middle);
    append_decimal(&mut text, bound);
    text.append(end);
    text
}

impl ValidationError {
    /// The error as a message.
    pub open spec fn text(self) -> Seq<char> {
        match self {
            ValidationError::FrameTooLarge { size, limit } => sentence(
                "Frame too large: "@,
                size as nat,
                " bytes exceeds limit of "@,
                limit as nat,
                " bytes"@,
            ),
            ValidationError::TokenTooLong { len, limit } => sentence(
                "Token too long: "@,
                len as nat,
                " bytes exceeds limit of "@,
                limit as nat,
                " bytes"@,
            ),
            ValidationError::TooManyCapabilities { count, limit } => sentence(
                "Too many capabilities: "@,
                count as nat,
                " exceeds limit of "@,
                limit as nat,
                ""@,
            ),
            ValidationError::CapabilityTooLong { len, limit } => sentence(
                "Capability too long: "@,
                len as nat,
                " bytes exceeds limit of "@,
                limit as nat,
                " bytes"@,
            ),
            ValidationError::PayloadTooLarge { size, limit } => sentence(
                "Payload too large: "@,
                size as nat,
                " bytes exceeds limit of "@,
                limit as nat,
                " bytes"@,
            ),
            ValidationError::TooManyEntries { count, limit } => sentence(
                "Too many entries: "@,
                count as nat,
                " exceeds limit of "@,
                limit as nat,
                ""@,
            ),
            ValidationError::FieldTooLong { len, limit } => sentence(
                "Field too long: "@,
                len as nat,
                " bytes exceeds limit of "@,
                limit as nat,
                " bytes"@,
            ),
            ValidationError::InvalidVersionRange { min, max } => sentence(
                "Invalid version range: min_version "@,
                min as nat,
                " exceeds max_version "@,
                max as nat,
                ""@,
            ),
        }
    }

    /// The error as a message.
    pub fn message(self) -> (r: String)
        ensures
            r@ == self.text(),
    {
        match self {
            ValidationError::FrameTooLarge { size, limit } => write_sentence(
                "Frame too large: ",
                size as u64,
                " bytes exceeds limit of ",
                limit as u64,
                " bytes",
            ),
            ValidationError::TokenTooLong { len, limit } => write_sentence(
                "Token too long: ",
                len as u64,
                " bytes exceeds limit of ",
                limit as u64,
                " bytes",
            ),
            ValidationError::TooManyCapabilities { count, limit } => write_sentence(
                "Too many capabilities: ",
                count as u64,
                " exceeds limit of ",
                limit as u64,
                "",
            ),
            ValidationError::CapabilityTooLong { len, limit } => write_sentence(
                "Capability too long: ",
                len as u64,
                " bytes exceeds limit of ",
                limit as u64,
                " bytes",
            ),
            ValidationError::PayloadTooLarge { size, limit } => write_sentence(
                "Payload too large: ",
                size as u64,
                " bytes exceeds limit of ",
                limit as u64,
                " bytes",
            ),
            ValidationError::TooManyEntries { count, limit } => write_sentence(
                "Too many entries: ",
                count as u64,
                " exceeds limit of ",
                limit as u64,
                "",
            ),
            ValidationError::FieldTooLong { len, limit } => write_sentence(
                "Field too long: ",
                len as u64,
                " bytes exceeds limit of ",
                limit as u64,
                " bytes",
            ),
            ValidationError::InvalidVersionRange { min, max } => write_sentence(
                "Invalid version range: min_version ",
                min as u64,
                " exceeds max_version ",
                max as u64,
                "",
            ),
        }
    }
}

/// Bounds on frame contents.
///
/// The frame, payload, token and capability bounds follow the configured limits; the others
/// are fixed.
#[derive(Debug, Clone, Copy, PartialEq, Eq, Structural)]
pub struct ValidationLimits {
    pub max_frame_bytes: u64,
    pub max_token_len: usize,
    pub max_capabilities: usize,
    pub max_capability_len: usize,
    pub max_payload_bytes: usize,
    /// Maximum number of entries in a `Register` metadata map.
    pub max_metadata_entries: usize,
    /// Maximum byte length of a metadata key, a service name, or a plugin id.
    pub max_name_len: usize,
    /// Maximum byte length of a metadata value.
    pub max_metadata_value_len: usize,
    /// Maximum number of headers in an `OpenStream` frame.
    pub max_headers: usize,
    /// Maximum byte length of a single header name or value.
    pub max_header_len: usize,
    /// Maximum byte length of an `Error` frame message.
    pub max_error_message_len: usize,
    /// Maximum byte length of a public URL in a `RegisterAck` frame.
    pub max_url_len: usize,
}

impl ValidationLimits {
    /// The bounds that follow from configured limits.
    pub open spec fn of_limits(limits: LimitsConfig) -> ValidationLimits {
        ValidationLimits {
            max_frame_bytes: limits.max_frame_bytes,
            max_token_len: limits.max_token_len,
            max_capabilities: limits.max_capabilities,
            max_capability_len: limits.max_capability_len,
            max_payload_bytes: if limits.max_frame_bytes <= usize::MAX {
                limits.max_frame_bytes as usize
            } else {
                usize::MAX
            },
            max_metadata_entries: 64,
            max_name_len: 256,
            max_metadata_value_len: 1024,
            max_headers: 128,
            max_header_len: 8192,
            max_error_message_len: 4096,
            max_url_len: 2048,
        }
    }
}

impl From<&LimitsConfig> for ValidationLimits {
    fn from(limits: &LimitsConfig) -> (r: ValidationLimits) {
        let max_payload_bytes: usize = if limits.max_frame_bytes <= usize::MAX as u64 {
            limits.max_frame_bytes as usize
        } else {
            usize::MAX
        };
        ValidationLimits {
            max_frame_bytes: limits.max_frame_bytes,
            max_token_len: limits.max_token_len,
            max_capabilities: limits.max_capabilities,
            max_capability_len: limits.max_capability_len,
            max_payload_bytes,
            max_metadata_entries: 64,
            max_name_len: 256,
            max_metadata_value_len: 1024,
            max_headers: 128,
            max_header_len: 8192,
            max_error_message_len: 4096,
            max_url_len: 2048,
        }
    }
}

impl vstd::std_specs::convert::FromSpecImpl<&LimitsConfig> for ValidationLimits {
    open spec fn obeys_from_spec() -> bool {
        true
    }

    open spec fn from_spec(limits: &LimitsConfig) -> ValidationLimits {
        ValidationLimits::of_limits(*limits)
    }
}

impl Default for ValidationLimits {
    fn default() -> (r: ValidationLimits)
        ensures
            r == ValidationLimits::of_limits(LimitsConfig::defaults()),
    {
        let limits = LimitsConfig::default();
        ValidationLimits::from(&limits)
    }
}

/// The complaint about a field of `len` bytes.
pub open spec fn field_complaint(len: nat, limit: usize) -> Option<ValidationError> {
    if len > limit {
        Some(ValidationError::FieldTooLong { len: len as usize, limit })
    } else {
        None
    }
}

/// The complaint about a collection of `count` entries.
pub open spec fn count_complaint(count: nat, limit: usize) -> Option<ValidationError> {
    if count > limit {
        Some(ValidationError::TooManyEntries { count: count as usize, limit })
    } else {
        None
    }
}

/// The complaint about a payload of `len` bytes.
pub open spec fn payload_complaint(len: nat, limits: ValidationLimits) -> Option<ValidationError> {
    if len > limits.max_payload_bytes {
        Some(ValidationError::PayloadTooLarge {
            size: len as usize,
            limit: limits.max_payload_bytes,
        })
    } else {
        None
    }
}

/// The complaint about the first capability, from `from` on, that is too long.
pub open spec fn capability_complaint(
    capabilities: Seq<Seq<char>>,
    limit: usize,
    from: int,
) -> Option<ValidationError>
    decreases capabilities.len() - from,
{
    if from < 0 || from >= capabilities.len() {
        None
    } else if byte_len(capabilities[from]) > limit {
        Some(ValidationError::CapabilityTooLong {
            len: byte_len(capabilities[from]) as usize,
            limit,
        })
    } else {
        capability_complaint(capabilities, limit, from + 1)
    }
}

/// The complaint about a capability list: its length comes first.
pub open spec fn capabilities_complaint(
    capabilities: Seq<Seq<char>>,
    limits: ValidationLimits,
) -> Option<ValidationError> {
    if capabilities.len() > limits.max_capabilities {
        Some(ValidationError::TooManyCapabilities {
            count: capabilities.len() as usize,
            limit: limits.max_capabilities,
        })
    } else {
        capability_complaint(capabilities, limits.max_capability_len, 0)
    }
}

/// The complaint about the first pair, from `from` on, whose name or value is too long.
pub open spec fn pairs_complaint(
    pairs: Seq<(Seq<char>, Seq<char>)>,
    name_limit: usize,
    value_limit: usize,
    from: int,
) -> Option<ValidationError>
    decreases pairs.len() - from,
{
    if from < 0 || from >= pairs.len() {
        None
    } else if byte_len(pairs[from].0) > name_limit {
        field_complaint(byte_len(pairs[from].0), name_limit)
    } else if byte_len(pairs[from].1) > value_limit {
        field_complaint(byte_len(pairs[from].1), value_limit)
    } else {
        pairs_complaint(pairs, name_limit, value_limit, from + 1)
    }
}

/// The complaint about a handshake, in the order in which its fields are checked.
pub open spec fn handshake_complaint(
    token: Seq<char>,
    tunnel_id: Option<Seq<char>>,
    min_version: u8,
    max_version: u8,
    capabilities: Seq<Seq<char>>,
    limits: ValidationLimits,
) -> Option<ValidationError> {
    if byte_len(token) > limits.max_token_len {
        Some(ValidationError::TokenTooLong {
            len: byte_len(token) as usize,
            limit: limits.max_token_len,
        })
    } else if tunnel_id is Some && byte_len(tunnel_id->0) > limits.max_name_len {
        field_complaint(byte_len(tunnel_id->0), limits.max_name_len)
    } else if min_version > max_version {
        Some(ValidationError::InvalidVersionRange { min: min_version, max: max_version })
    } else {
        capabilities_complaint(capabilities, limits)
    }
}

/// The complaint about a registration whose metadata is kept in the order `pairs`.
pub open spec fn register_complaint(
    service_name: Seq<char>,
    pairs: Seq<(Seq<char>, Seq<char>)>,
    limits: ValidationLimits,
) -> Option<ValidationError> {
    if byte_len(service_name) > limits.max_name_len {
        field_complaint(byte_len(service_name), limits.max_name_len)
    } else if pairs.len() > limits.max_metadata_entries {
        count_complaint(pairs.len(), limits.max_metadata_entries)
    } else {
        pairs_complaint(pairs, limits.max_name_len, limits.max_metadata_value_len, 0)
    }
}

/// The complaint about a stream open request.
pub open spec fn open_complaint(
    headers: Seq<(Seq<char>, Seq<char>)>,
    limits: ValidationLimits,
) -> Option<ValidationError> {
    if headers.len() > limits.max_headers {
        count_complaint(headers.len(), limits.max_headers)
    } else {
        pairs_complaint(headers, limits.max_header_len, limits.max_header_len, 0)
    }
}

/// The complaint about a close reason; only an error message has a length.
pub open spec fn close_complaint(
    reason: CloseReasonView,
    limits: ValidationLimits,
) -> Option<ValidationError> {
    match reason {
        CloseReasonView::Error(m) => field_complaint(byte_len(m), limits.max_error_message_len),
        _ => None,
    }
}

/// The complaint about a frame, or `None` for a frame that is accepted.
pub open spec fn frame_complaint(frame: Frame, limits: ValidationLimits) -> Option<
    ValidationError,
> {
    match frame {
        Frame::Handshake(h) => handshake_complaint(
            h.token@,
            opt_text(h.tunnel_id),
            h.min_version,
            h.max_version,
            texts(h.capabilities@),
            limits,
        ),
        Frame::HandshakeAck { server_capabilities, .. } => capabilities_complaint(
            texts(server_capabilities@),
            limits,
        ),
        Frame::Register { service_name, metadata, .. } => register_complaint(
            service_name@,
            metadata.pairs(),
            limits,
        ),
        Frame::RegisterAck { public_url, .. } => field_complaint(
            byte_len(public_url@),
            limits.max_url_len,
        ),
        Frame::OpenStream(o) => open_complaint(text_pairs(o.headers@), limits),
        Frame::Data { data, .. } => payload_complaint(data@.len(), limits),
        Frame::CloseStream { reason, .. } => close_complaint(reason@, limits),
        Frame::Error { message, .. } => field_complaint(
            byte_len(message@),
            limits.max_error_message_len,
        ),
        Frame::PluginData { plugin_id, data } => if byte_len(plugin_id@) > limits.max_name_len {
            field_complaint(byte_len(plugin_id@), limits.max_name_len)
        } else {
            payload_complaint(data@.len(), limits)
        },
        Frame::StreamAck { .. } | Frame::Heartbeat { .. } | Frame::HeartbeatAck { .. } => None,
    }
}

/// Whether a capability list keeps within the bounds.
pub open spec fn capabilities_within(capabilities: Seq<Seq<char>>, limits: ValidationLimits) -> bool {
    &&& capabilities.len() <= limits.max_capabilities
    &&& forall|i: int|
        0 <= i < capabilities.len() ==> byte_len(#[trigger] capabilities[i])
            <= limits.max_capability_len
}

/// Whether everything that a frame says keeps within the bounds.
pub open spec fn frame_within(frame: FrameView, limits: ValidationLimits) -> bool {
    match frame {
        FrameView::Handshake { token, tunnel_id, min_version, max_version, capabilities } => {
            &&& byte_len(token) <= limits.max_token_len
            &&& tunnel_id is Some ==> byte_len(tunnel_id->0) <= limits.max_name_len
            &&& min_version <= max_version
            &&& capabilities_within(capabilities, limits)
        },
        FrameView::HandshakeAck { server_capabilities, .. } => capabilities_within(
            server_capabilities,
            limits,
        ),
        FrameView::Register { service_name, metadata, .. } => {
            &&& byte_len(service_name) <= limits.max_name_len
            &&& metadata.dom().len() <= limits.max_metadata_entries
            &&& forall|k: Seq<char>| #[trigger]
                metadata.contains_key(k) ==> byte_len(k) <= limits.max_name_len && byte_len(
                    metadata[k],
                ) <= limits.max_metadata_value_len
        },
        FrameView::RegisterAck { public_url, .. } => byte_len(public_url) <= limits.max_url_len,
        FrameView::OpenStream { headers, .. } => {
            &&& headers.len() <= limits.max_headers
            &&& forall|i: int|
                0 <= i < headers.len() ==> byte_len((#[trigger] headers[i]).0)
                    <= limits.max_header_len && byte_len(headers[i].1) <= limits.max_header_len
        },
        FrameView::Data { data, .. } => data.len() <= limits.max_payload_bytes,
        FrameView::CloseStream { reason, .. } => reason matches CloseReasonView::Error(m)
            ==> byte_len(m) <= limits.max_error_message_len,
        FrameView::Error { message, .. } => byte_len(message) <= limits.max_error_message_len,
        FrameView::PluginData { plugin_id, data } => {
            &&& byte_len(plugin_id) <= limits.max_name_len
            &&& data.len() <= limits.max_payload_bytes
        },
        FrameView::StreamAck { .. }
        | FrameView::Heartbeat { .. }
        | FrameView::HeartbeatAck { .. } => true,
    }
}

/// No capability is complained about exactly where all of them are short enough.
pub proof fn lemma_capability_complaint(capabilities: Seq<Seq<char>>, limit: usize, from: int)
    requires
        0 <= from,
    ensures
        capability_complaint(capabilities, limit, from) is None <==> forall|i: int|
            from <= i < capabilities.len() ==> byte_len(#[trigger] capabilities[i]) <= limit,
    decreases capabilities.len() - from,
{
    if from < capabilities.len() {
        lemma_capability_complaint(capabilities, limit, from + 1);
        if capability_complaint(capabilities, limit, from) is None {
            assert forall|i: int| from <= i < capabilities.len() implies byte_len(
                #[trigger] capabilities[i],
            ) <= limit by {
                if i > from {
                    assert(from + 1 <= i);
                }
            }
        } else if byte_len(capabilities[from]) <= limit {
            let i = choose|i: int|
                from + 1 <= i < capabilities.len() && byte_len(#[trigger] capabilities[i]) > limit;
            assert(from <= i < capabilities.len());
        }
    }
}

/// No pair is complained about exactly where all names and values are short enough.
pub proof fn lemma_pairs_complaint(
    pairs: Seq<(Seq<char>, Seq<char>)>,
    name_limit: usize,
    value_limit: usize,
    from: int,
)
    requires
        0 <= from,
    ensures
        pairs_complaint(pairs, name_limit, value_limit, from) is None <==> forall|i: int|
            from <= i < pairs.len() ==> byte_len((#[trigger] pairs[i]).0) <= name_limit
                && byte_len(pairs[i].1) <= value_limit,
    decreases pairs.len() - from,
{
    if from < pairs.len() {
        lemma_pairs_complaint(pairs, name_limit, value_limit, from + 1);
        if pairs_complaint(pairs, name_limit, value_limit, from) is None {
            assert forall|i: int| from <= i < pairs.len() implies byte_len((#[trigger] pairs[i]).0)
                <= name_limit && byte_len(pairs[i].1) <= value_limit by {
                if i > from {
                    assert(from + 1 <= i);
                }
            }
        }
    }
}

/// Rejects a variable-length field whose byte length exceeds `limit`.
pub fn check_field_len(len: usize, limit: usize) -> (r: Result<(), ValidationError>)
    ensures
        r == complaint_result(field_complaint(len as nat, limit)),
{
    if len > limit {
        return Err(ValidationError::FieldTooLong { len, limit });
    }
    Ok(())
}

/// Rejects a collection whose entry count exceeds `limit`.
pub fn check_entry_count(count: usize, limit: usize) -> (r: Result<(), ValidationError>)
    ensures
        r == complaint_result(count_complaint(count as nat, limit)),
{
    if count > limit {
        return Err(ValidationError::TooManyEntries { count, limit });
    }
    Ok(())
}

/// The outcome that goes with a complaint.
pub open spec fn complaint_result(complaint: Option<ValidationError>) -> Result<
    (),
    ValidationError,
> {
    match complaint {
        Some(e) => Err(e),
        None => Ok(()),
    }
}

/// Validates a capability list shared by `Handshake` and `HandshakeAck`.
pub fn validate_capabilities(capabilities: &[String], limits: &ValidationLimits) -> (r: Result<
    (),
    ValidationError,
>)
    ensures
        r == complaint_result(capabilities_complaint(texts(capabilities@), *limits)),
{
    if capabilities.len() > limits.max_capabilities {
        return Err(
            ValidationError::TooManyCapabilities {
                count: capabilities.len(),
                limit: limits.max_capabilities,
            },
        );
    }
    let mut i: usize = 0;
    while i < capabilities.len()
        invariant
            i <= capabilities@.len(),
            capability_complaint(texts(capabilities@), limits.max_capability_len, 0)
                == capability_complaint(texts(capabilities@), limits.max_capability_len, i as int),
            capabilities@.len() <= limits.max_capabilities,
        decreases capabilities@.len() - i,
    {
        let len: usize = utf8_len(capabilities[i].as_str());
        if len > limits.max_capability_len {
            return Err(
                ValidationError::CapabilityTooLong { len, limit: limits.max_capability_len },
            );
        }
        i += 1;
    }
    Ok(())
}

/// Validates a handshake.
pub fn validate_handshake(handshake: &HandshakeFrame, limits: &ValidationLimits) -> (r: Result<
    (),
    ValidationError,
>)
    ensures
        r == complaint_result(
            handshake_complaint(
                handshake.token@,
                opt_text(handshake.tunnel_id),
                handshake.min_version,
                handshake.max_version,
                texts(handshake.capabilities@),
                *limits,
            ),
        ),
{
    let token_len: usize = utf8_len(handshake.token.as_str());
    if token_len > limits.max_token_len {
        return Err(ValidationError::TokenTooLong { len: token_len, limit: limits.max_token_len });
    }
    if let Some(tunnel_id) = &handshake.tunnel_id {
        let checked = check_field_len(utf8_len(tunnel_id.as_str()), limits.max_name_len);
        if checked.is_err() {
            return checked;
        }
    }
    if handshake.min_version > handshake.max_version {
        return Err(
            ValidationError::InvalidVersionRange {
                min: handshake.min_version,
                max: handshake.max_version,
            },
        );
    }
    validate_capabilities(handshake.capabilities.as_slice(), limits)
}

/// Validates a service registration.
pub fn validate_register(
    service_name: &str,
    metadata: &Metadata,
    limits: &ValidationLimits,
) -> (r: Result<(), ValidationError>)
    ensures
        r == complaint_result(register_complaint(service_name@, metadata.pairs(), *limits)),
{
    let checked = check_field_len(utf8_len(service_name), limits.max_name_len);
    if checked.is_err() {
        return checked;
    }
    let checked = check_entry_count(metadata.len(), limits.max_metadata_entries);
    if checked.is_err() {
        return checked;
    }
    let mut i: usize = 0;
    while i < metadata.len()
        invariant
            i <= metadata.pairs().len(),
            pairs_complaint(
                metadata.pairs(),
                limits.max_name_len,
                limits.max_metadata_value_len,
                0,
            ) == pairs_complaint(
                metadata.pairs(),
                limits.max_name_len,
                limits.max_metadata_value_len,
                i as int,
            ),
            byte_len(service_name@) <= limits.max_name_len,
            metadata.pairs().len() <= limits.max_metadata_entries,
        decreases metadata.pairs().len() - i,
    {
        let (key, value) = metadata.entry(i);
        let checked = check_field_len(utf8_len(key), limits.max_name_len);
        if checked.is_err() {
            return checked;
        }
        let checked = check_field_len(utf8_len(value), limits.max_metadata_value_len);
        if checked.is_err() {
            return checked;
        }
        i += 1;
    }
    Ok(())
}

/// Validates a stream open request.
pub fn validate_open_stream(open: &OpenStreamFrame, limits: &ValidationLimits) -> (r: Result<
    (),
    ValidationError,
>)
    ensures
        r == complaint_result(open_complaint(text_pairs(open.headers@), *limits)),
{
    let checked = check_entry_count(open.headers.len(), limits.max_headers);
    if checked.is_err() {
        return checked;
    }
    let mut i: usize = 0;
    while i < open.headers.len()
        invariant
            i <= open.headers@.len(),
            open.headers@.len() <= limits.max_headers,
            pairs_complaint(
                text_pairs(open.headers@),
                limits.max_header_len,
                limits.max_header_len,
                0,
            ) == pairs_complaint(
                text_pairs(open.headers@),
                limits.max_header_len,
                limits.max_header_len,
                i as int,
            ),
        decreases open.headers@.len() - i,
    {
        let header = &open.headers[i];
        let checked = check_field_len(utf8_len(header.0.as_str()), limits.max_header_len);
        if checked.is_err() {
            return checked;
        }
        let checked = check_field_len(utf8_len(header.1.as_str()), limits.max_header_len);
        if checked.is_err() {
            return checked;
        }
        i += 1;
    }
    Ok(())
}

/// Validates the size of a payload.
pub fn validate_payload(len: usize, limits: &ValidationLimits) -> (r: Result<(), ValidationError>)
    ensures
        r == complaint_result(payload_complaint(len as nat, *limits)),
{
    if len > limits.max_payload_bytes {
        return Err(
            ValidationError::PayloadTooLarge { size: len, limit: limits.max_payload_bytes },
        );
    }
    Ok(())
}

/// Validates the only variable-length close reason; other reasons have a fixed size.
pub fn validate_close_reason(reason: &CloseReason, limits: &ValidationLimits) -> (r: Result<
    (),
    ValidationError,
>)
    ensures
        r == complaint_result(close_complaint(reason@, *limits)),
{
    match reason {
        CloseReason::Error(message) => check_field_len(
            utf8_len(message.as_str()),
            limits.max_error_message_len,
        ),
        CloseReason::Normal
        | CloseReason::Timeout
        | CloseReason::LocalServiceUnreachable
        | CloseReason::ProtocolViolation => Ok(()),
    }
}

/// Validates a decoded frame against limits.
///
/// Variants that carry variable-length content are bounded on the number of entries and on
/// the size of each; variants whose fields all have a fixed size are accepted.
pub fn validate_frame(frame: &Frame, limits: &ValidationLimits) -> (r: Result<(), ValidationError>)
    ensures
        r == complaint_result(frame_complaint(*frame, *limits)),
        r is Ok <==> frame_within(frame@, *limits),
{
    match frame {
        Frame::Handshake(handshake) => {
            proof {
                lemma_capability_complaint(
                    texts(handshake.capabilities@),
                    limits.max_capability_len,
                    0,
                );
            }
            validate_handshake(handshake, limits)
        },
        Frame::HandshakeAck { server_capabilities, .. } => {
            proof {
                lemma_capability_complaint(
                    texts(server_capabilities@),
                    limits.max_capability_len,
                    0,
                );
            }
            validate_capabilities(server_capabilities.as_slice(), limits)
        },
        Frame::Register { service_name, metadata, .. } => {
            let count: usize = metadata.len();
            proof {
                lemma_register_within(metadata.pairs(), *limits);
                assert(count == metadata@.dom().len());
            }
            validate_register(service_name.as_str(), metadata, limits)
        },
        Frame::RegisterAck { public_url, .. } => check_field_len(
            utf8_len(public_url.as_str()),
            limits.max_url_len,
        ),
        Frame::OpenStream(open) => {
            proof {
                lemma_pairs_complaint(
                    text_pairs(open.headers@),
                    limits.max_header_len,
                    limits.max_header_len,
                    0,
                );
            }
            validate_open_stream(open, limits)
        },
        Frame::Data { data, .. } => validate_payload(data.len(), limits),
        Frame::CloseStream { reason, .. } => validate_close_reason(reason, limits),
        Frame::Error { message, .. } => check_field_len(
            utf8_len(message.as_str()),
            limits.max_error_message_len,
        ),
        Frame::PluginData { plugin_id, data } => {
            let checked = check_field_len(utf8_len(plugin_id.as_str()), limits.max_name_len);
            if checked.is_err() {
                return checked;
            }
            validate_payload(data.len(), limits)
        },
        Frame::StreamAck { .. } | Frame::Heartbeat { .. } | Frame::HeartbeatAck { .. } => Ok(()),
    }
}

/// Bounds on the pairs that metadata is kept as are bounds on the map they stand for.
proof fn lemma_register_within(pairs: Seq<(Seq<char>, Seq<char>)>, limits: ValidationLimits)
    requires
        crate::frame::distinct_keys(pairs),
    ensures
        pairs_complaint(pairs, limits.max_name_len, limits.max_metadata_value_len, 0) is None
            <==> forall|k: Seq<char>| #[trigger]
            pairs_map(pairs).contains_key(k) ==> byte_len(k) <= limits.max_name_len && byte_len(
                pairs_map(pairs)[k],
            ) <= limits.max_metadata_value_len,
{
    lemma_pairs_complaint(pairs, limits.max_name_len, limits.max_metadata_value_len, 0);
    crate::frame::lemma_pairs_map_keys(pairs);
    assert forall|i: int| 0 <= i < pairs.len() implies pairs_map(pairs).contains_key(
        (#[trigger] pairs[i]).0,
    ) && pairs_map(pairs)[pairs[i].0] == pairs[i].1 by {
        crate::frame::lemma_pairs_map_value(pairs, i);
    }
    if pairs_complaint(pairs, limits.max_name_len, limits.max_metadata_value_len, 0) is None {
        assert forall|k: Seq<char>| #[trigger] pairs_map(pairs).contains_key(k) implies byte_len(k)
            <= limits.max_name_len && byte_len(pairs_map(pairs)[k])
            <= limits.max_metadata_value_len by {
            let i = choose|i: int| 0 <= i < pairs.len() && #[trigger] pairs[i].0 == k;
            assert(pairs_map(pairs)[pairs[i].0] == pairs[i].1);
        }
    }
}

/// A frame passes exactly where all that it carries keeps within its bounds, counted in entries and
/// in bytes of UTF-8, and a frame of fixed size always does.
pub proof fn law_frames_pass_within_their_bounds(
    frame: &Frame,
    limits: &ValidationLimits,
    r: Result<(), ValidationError>,
)
    requires
        call_ensures(validate_frame, (frame, limits), r),
    ensures
        *frame matches Frame::Handshake(h) ==> (r is Ok <==> {
            &&& vstd::utf8::encode_utf8(h.token@).len() <= limits.max_token_len
            &&& h.tunnel_id is Some ==> vstd::utf8::encode_utf8((h.tunnel_id->0)@).len()
                <= limits.max_name_len
            &&& h.min_version <= h.max_version
            &&& h.capabilities@.len() <= limits.max_capabilities
            &&& forall|i: int|
                0 <= i < h.capabilities@.len() ==> vstd::utf8::encode_utf8(
                    #[trigger] h.capabilities@[i]@,
                ).len() <= limits.max_capability_len
        }),
        *frame matches Frame::HandshakeAck { server_capabilities, .. } ==> (r is Ok <==> {
            &&& server_capabilities@.len() <= limits.max_capabilities
            &&& forall|i: int|
                0 <= i < server_capabilities@.len() ==> vstd::utf8::encode_utf8(
                    #[trigger] server_capabilities@[i]@,
                ).len() <= limits.max_capability_len
        }),
        *frame matches Frame::Register { service_name, metadata, .. } ==> (r is Ok <==> {
            &&& vstd::utf8::encode_utf8(service_name@).len() <= limits.max_name_len
            &&& metadata@.dom().len() <= limits.max_metadata_entries
            &&& forall|k: Seq<char>| #[trigger]
                metadata@.contains_key(k) ==> vstd::utf8::encode_utf8(k).len()
                    <= limits.max_name_len && vstd::utf8::encode_utf8(metadata@[k]).len()
                    <= limits.max_metadata_value_len
        }),
        *frame matches Frame::RegisterAck { public_url, .. } ==> (r is Ok
            <==> vstd::utf8::encode_utf8(public_url@).len() <= limits.max_url_len),
        *frame matches Frame::OpenStream(o) ==> (r is Ok <==> {
            &&& o.headers@.len() <= limits.max_headers
            &&& forall|i: int|
                0 <= i < o.headers@.len() ==> vstd::utf8::encode_utf8((#[trigger] o.headers@[i]).0@).len()
                    <= limits.max_header_len && vstd::utf8::encode_utf8(o.headers@[i].1@).len()
                    <= limits.max_header_len
        }),
        *frame matches Frame::Data { data, .. } ==> (r is Ok <==> data@.len()
            <= limits.max_payload_bytes),
        *frame matches Frame::CloseStream { reason, .. } ==> (r is Ok <==> (reason is Error
            ==> vstd::utf8::encode_utf8(reason->Error_0@).len() <= limits.max_error_message_len)),
        *frame matches Frame::Error { message, .. } ==> (r is Ok <==> vstd::utf8::encode_utf8(
            message@,
        ).len() <= limits.max_error_message_len),
        *frame matches Frame::PluginData { plugin_id, data } ==> (r is Ok
            <==> vstd::utf8::encode_utf8(plugin_id@).len() <= limits.max_name_len && data@.len()
            <= limits.max_payload_bytes),
        *frame is StreamAck || *frame is Heartbeat || *frame is HeartbeatAck ==> r is Ok,
{
    match frame {
        Frame::Handshake(h) => {
            let list = texts(h.capabilities@);
            assert forall|i: int| 0 <= i < list.len() implies list[i] == #[trigger] h.capabilities@[i]@ by {}
            if r is Ok {
                assert forall|i: int|
                    0 <= i < h.capabilities@.len() implies vstd::utf8::encode_utf8(
                    #[trigger] h.capabilities@[i]@,
                ).len() <= limits.max_capability_len by {
                    assert(byte_len(list[i]) <= limits.max_capability_len);
                }
            }
        },
        Frame::HandshakeAck { server_capabilities, .. } => {
            let list = texts(server_capabilities@);
            assert forall|i: int|
                0 <= i < list.len() implies list[i] == #[trigger] server_capabilities@[i]@ by {}
            if r is Ok {
                assert forall|i: int|
                    0 <= i < server_capabilities@.len() implies vstd::utf8::encode_utf8(
                    #[trigger] server_capabilities@[i]@,
                ).len() <= limits.max_capability_len by {
                    assert(byte_len(list[i]) <= limits.max_capability_len);
                }
            }
        },
        Frame::OpenStream(o) => {
            let list = text_pairs(o.headers@);
            assert forall|i: int| 0 <= i < list.len() implies list[i] == (
            (#[trigger] o.headers@[i]).0@, o.headers@[i].1@) by {}
            if r is Ok {
                assert forall|i: int| 0 <= i < o.headers@.len() implies vstd::utf8::encode_utf8(
                    (#[trigger] o.headers@[i]).0@,
                ).len() <= limits.max_header_len && vstd::utf8::encode_utf8(o.headers@[i].1@).len()
                    <= limits.max_header_len by {
                    assert(byte_len(list[i].0) <= limits.max_header_len);
                }
            }
        },
        _ => {},
    }
}

/// A refusal names what was too much: the token, the payload or the number of capabilities with
/// its size and its bound, and the versions that are the wrong way round.
pub proof fn law_refusals_name_what_was_too_much(
    frame: &Frame,
    limits: &ValidationLimits,
    r: Result<(), ValidationError>,
    len: usize,
    count: usize,
    bound: usize,
    field: Result<(), ValidationError>,
    entries: Result<(), ValidationError>,
)
    requires
        call_ensures(validate_frame, (frame, limits), r),
        call_ensures(check_field_len, (len, bound), field),
        call_ensures(check_entry_count, (count, bound), entries),
    ensures
        field == (if len > bound {
            Err(ValidationError::FieldTooLong { len, limit: bound })
        } else {
            Ok(())
        }),
        entries == (if count > bound {
            Err(ValidationError::TooManyEntries { count, limit: bound })
        } else {
            Ok(())
        }),
        *frame matches Frame::Data { data, .. } ==> data@.len() > limits.max_payload_bytes ==> r
            == Err::<(), ValidationError>(
            ValidationError::PayloadTooLarge {
                size: data@.len() as usize,
                limit: limits.max_payload_bytes,
            },
        ),
        *frame matches Frame::Handshake(h) ==> {
            let token_len = vstd::utf8::encode_utf8(h.token@).len();
            &&& token_len > limits.max_token_len ==> r == Err::<(), ValidationError>(
                ValidationError::TokenTooLong {
                    len: token_len as usize,
                    limit: limits.max_token_len,
                },
            )
            &&& token_len <= limits.max_token_len && h.tunnel_id is None && h.min_version
                > h.max_version ==> r == Err::<(), ValidationError>(
                ValidationError::InvalidVersionRange { min: h.min_version, max: h.max_version },
            )
            &&& token_len <= limits.max_token_len && h.tunnel_id is None && h.min_version
                <= h.max_version && h.capabilities@.len() > limits.max_capabilities ==> r == Err::<
                (),
                ValidationError,
            >(
                ValidationError::TooManyCapabilities {
                    count: h.capabilities@.len() as usize,
                    limit: limits.max_capabilities,
                },
            )
        },
{
}

/// The bounds on tokens, capabilities and payloads follow the configured limits; the others are
/// fixed.
pub proof fn law_bounds_follow_the_limits(limits: LimitsConfig)
    ensures
        ({
            let bounds = ValidationLimits::of_limits(limits);
            &&& bounds.max_frame_bytes == limits.max_frame_bytes
            &&& bounds.max_token_len == limits.max_token_len
            &&& bounds.max_capabilities == limits.max_capabilities
            &&& bounds.max_capability_len == limits.max_capability_len
            &&& limits.max_frame_bytes <= usize::MAX ==> bounds.max_payload_bytes
                == limits.max_frame_bytes
            &&& bounds.max_metadata_entries == 64
            &&& bounds.max_name_len == 256
            &&& bounds.max_metadata_value_len == 1024
            &&& bounds.max_headers == 128
            &&& bounds.max_header_len == 8192
            &&& bounds.max_error_message_len == 4096
            &&& bounds.max_url_len == 2048
        }),
{
}

/// Refusals are told in words with the size at fault and its bound.
pub proof fn law_refusals_are_told(
    error: ValidationError,
    r: String,
    n: u64,
    number: String,
    m: u64,
    bound: String,
)
    requires
        call_ensures(ValidationError::message, (error,), r),
        call_ensures(crate::text::decimal, (n,), number),
        call_ensures(crate::text::decimal, (m,), bound),
    ensures
        error matches ValidationError::TokenTooLong { len, limit } ==> len == n && limit == m ==> r@
            == "Token too long: "@ + number@ + " bytes exceeds limit of "@ + bound@ + " bytes"@,
        error matches ValidationError::PayloadTooLarge { size, limit } ==> size == n && limit == m
            ==> r@ == "Payload too large: "@ + number@ + " bytes exceeds limit of "@ + bound@
            + " bytes"@,
        error matches ValidationError::FieldTooLong { len, limit } ==> len == n && limit == m ==> r@
            == "Field too long: "@ + number@ + " bytes exceeds limit of "@ + bound@ + " bytes"@,
        error matches ValidationError::FrameTooLarge { size, limit } ==> size == n && limit == m
            ==> r@ == "Frame too large: "@ + number@ + " bytes exceeds limit of "@ + bound@
            + " bytes"@,
        error matches ValidationError::CapabilityTooLong { len, limit } ==> len == n && limit == m
            ==> r@ == "Capability too long: "@ + number@ + " bytes exceeds limit of "@ + bound@
            + " bytes"@,
{
}

/// Each part of a frame is held to the same bounds alone as in its frame.
pub proof fn law_parts_are_held_to_the_bounds_of_their_frame(
    limits: &ValidationLimits,
    h: &HandshakeFrame,
    handshake: &Frame,
    alone: Result<(), ValidationError>,
    within: Result<(), ValidationError>,
    o: &OpenStreamFrame,
    open: &Frame,
    open_alone: Result<(), ValidationError>,
    open_within: Result<(), ValidationError>,
    reason: &CloseReason,
    close: &Frame,
    close_alone: Result<(), ValidationError>,
    close_within: Result<(), ValidationError>,
    len: usize,
    payload: Result<(), ValidationError>,
)
    requires
        *handshake is Handshake && *h == *handshake->Handshake_0,
        call_ensures(validate_handshake, (h, limits), alone),
        call_ensures(validate_frame, (handshake, limits), within),
        *open is OpenStream && *o == *open->OpenStream_0,
        call_ensures(validate_open_stream, (o, limits), open_alone),
        call_ensures(validate_frame, (open, limits), open_within),
        *close is CloseStream && *reason == close->CloseStream_reason,
        call_ensures(validate_close_reason, (reason, limits), close_alone),
        call_ensures(validate_frame, (close, limits), close_within),
        call_ensures(validate_payload, (len, limits), payload),
    ensures
        alone == within,
        open_alone == open_within,
        close_alone == close_within,
        payload is Ok <==> len <= limits.max_payload_bytes,
{
}

/// Every frame can be validated against any bounds.
pub proof fn law_any_frame_can_be_validated(frame: &Frame, limits: &ValidationLimits)
    ensures
        call_requires(validate_frame, (frame, limits)),
{
}

} // verus!
