//! Codec for encoding and decoding protocol frames.
//!
//! Length-delimited framing: a 4-byte length prefix (big-endian, counting the type byte and
//! the payload), a 1-byte type and the payload. The payload of a control frame (type 0) is
//! the frame in control form; that of a data frame (type 1) is the stream id (4 bytes,
//! big-endian), a flag byte and the raw bytes.

use vstd::prelude::*;

use crate::config::LimitsConfig;
use crate::constants::MAX_FRAME_SIZE;
use crate::frame::{Frame, FrameView, ZeroCopyFrame};
use crate::text::{append_decimal, decimal_text};
use crate::validation::{ValidationError, ValidationLimits, frame_complaint, frame_within,
    validate_frame};
use crate::wire::{CLAIM_LIMIT, control_bytes, control_claim, decode_control, decoded_control,
    encode_control};

verus! {

/// Size of a frame's header: 4 bytes of length and 1 byte of type.
pub const HEADER_SIZE: usize = 5;

/// Type byte of a control frame.
pub const FRAME_TYPE_CONTROL: u8 = 0;

/// Type byte of a data frame.
pub const FRAME_TYPE_DATA: u8 = 1;

/// Flag that marks the last data frame of a stream.
pub const FLAG_EOS: u8 = 1;

/// Why bytes were refused, or why a frame could not be written.
#[derive(Debug, Clone, PartialEq, Eq)]
pub enum CodecError {
    /// The length prefix is zero.
    EmptyFrame,
    /// The length exceeds the configured maximum.
    TooLarge { length: usize, max: usize },
    /// The length prefix is zero or exceeds the configured maximum.
    InvalidLength { length: usize },
    /// A data frame is too short for its stream id and flags.
    DataTooShort,
    /// A control payload is no frame, for this reason in words.
    Malformed(String),
    /// A control frame exceeds the bounds on its contents.
    Invalid(ValidationError),
    /// The type byte is unknown.
    UnknownType(u8),
}

impl CodecError {
    /// The error as a message.
    pub open spec fn text(self) -> Seq<char> {
        match self {
            CodecError::EmptyFrame => "Frame length must be at least 1 byte"@,
            CodecError::TooLarge { length, max } => "Frame too large: "@ + decimal_text(
                length as nat,
            ) + " bytes (max: "@ + decimal_text(max as nat) + ")"@,
            CodecError::InvalidLength { length } => "Invalid frame length: "@ + decimal_text(
                length as nat,
            ),
            CodecError::DataTooShort => "Data frame payload too short"@,
            CodecError::Malformed(words) => "Decode error: "@ + words@,
            CodecError::Invalid(e) => "Frame validation: "@ + e.text(),
            CodecError::UnknownType(kind) => "Unknown frame type: "@ + decimal_text(kind as nat),
        }
    }

    /// The error as a message.
    pub fn message(self) -> (r: String)
        ensures
            r@ == self.text(),
    {
        match self {
            CodecError::EmptyFrame => "Frame length must be at least 1 byte".to_owned(),
            CodecError::TooLarge { length, max } => {
                let mut text = "Frame too large: ".to_owned();
                append_decimal(&mut text, length as u64);
                text.append(" bytes (max: ");
                append_decimal(&mut text, max as u64);
                text.append(")");
                text
            },
            CodecError::InvalidLength { length } => {
                let mut text = "Invalid frame length: ".to_owned();
                append_decimal(&mut text, length as u64);
                text
            },
            CodecError::DataTooShort => "Data frame payload too short".to_owned(),
            CodecError::Malformed(words) => {
                let mut text = "Decode error: ".to_owned();
                text.append(words.as_str());
                text
            },
            CodecError::Invalid(e) => {
                let mut text = "Frame validation: ".to_owned();
                text.append(e.message().as_str());
                text
            },
            CodecError::UnknownType(kind) => {
                let mut text = "Unknown frame type: ".to_owned();
                append_decimal(&mut text, kind as u64);
                text
            },
        }
    }
}

/// The number that four bytes form, most significant first.
pub open spec fn be32(bytes: Seq<u8>) -> nat {
    (bytes[0] as nat) * 16777216 + (bytes[1] as nat) * 65536 + (bytes[2] as nat) * 256 + (
    bytes[3] as nat)
}

/// The four bytes of a number, most significant first.
pub open spec fn be32_bytes(n: nat) -> Seq<u8> {
    seq![
        (n / 16777216 % 256) as u8,
        (n / 65536 % 256) as u8,
        (n / 256 % 256) as u8,
        (n % 256) as u8,
    ]
}

/// Reading back the four bytes of a number gives the number.
pub proof fn lemma_be32(n: nat, rest: Seq<u8>)
    requires
        n <= u32::MAX,
    ensures
        be32(be32_bytes(n) + rest) == n,
{
}

/// The four bytes of the number that four bytes form are those bytes.
pub proof fn lemma_be32_back(bytes: Seq<u8>)
    requires
        bytes.len() == 4,
    ensures
        be32_bytes(be32(bytes)) == bytes,
        be32(bytes) <= u32::MAX,
{
    let a = bytes[0] as nat;
    let b = bytes[1] as nat;
    let c = bytes[2] as nat;
    let d = bytes[3] as nat;
    let n = be32(bytes);
    assert(n / 16777216 == a);
    assert(n / 65536 == a * 256 + b);
    assert(n / 256 == a * 65536 + b * 256 + c);
    assert(n / 16777216 % 256 == a);
    assert(n / 65536 % 256 == b);
    assert(n / 256 % 256 == c);
    assert(n % 256 == d);
    assert(be32_bytes(n) =~= bytes);
}

/// The payload of a data frame.
pub open spec fn data_payload(stream_id: u32, data: Seq<u8>, end_of_stream: bool) -> Seq<u8> {
    be32_bytes(stream_id as nat) + (seq![
        if end_of_stream {
            FLAG_EOS
        } else {
            0u8
        },
    ] + data)
}

/// The type byte of a frame.
pub open spec fn frame_kind(frame: Frame) -> u8 {
    match frame {
        Frame::Data { .. } => FRAME_TYPE_DATA,
        _ => FRAME_TYPE_CONTROL,
    }
}

/// The payload of a frame.
pub open spec fn frame_payload(frame: Frame) -> Seq<u8> {
    match frame {
        Frame::Data { stream_id, data, end_of_stream } => data_payload(
            stream_id,
            data@,
            end_of_stream,
        ),
        _ => control_bytes(frame),
    }
}

/// The length that the prefix of a frame holds: its type byte and its payload.
pub open spec fn wire_len(frame: Frame) -> nat {
    1 + frame_payload(frame).len()
}

/// The bytes of a frame.
pub open spec fn frame_bytes(frame: Frame) -> Seq<u8> {
    be32_bytes(wire_len(frame)) + (seq![frame_kind(frame)] + frame_payload(frame))
}

/// What stands at the start of a buffer.
pub enum Framing {
    /// Not yet a whole frame.
    Incomplete,
    /// A length prefix of zero.
    Empty,
    /// A length prefix above the maximum.
    TooLarge { length: nat },
    /// A whole frame, and what follows it.
    Whole { kind: u8, payload: Seq<u8>, rest: Seq<u8> },
}

/// What stands at the start of `src`, for a maximum frame size of `max`.
pub open spec fn framing(src: Seq<u8>, max: nat) -> Framing {
    if src.len() < 5 {
        Framing::Incomplete
    } else {
        let length = be32(src);
        if length == 0 {
            Framing::Empty
        } else if length > max {
            Framing::TooLarge { length }
        } else if src.len() < 4 + length {
            Framing::Incomplete
        } else {
            Framing::Whole {
                kind: src[4],
                payload: src.subrange(5, 4 + length as int),
                rest: src.skip(4 + length as int),
            }
        }
    }
}

/// What the payload of a data frame says.
pub open spec fn parse_data(payload: Seq<u8>) -> Option<FrameView> {
    if payload.len() < 5 {
        None
    } else {
        Some(
            FrameView::Data {
                stream_id: be32(payload) as u32,
                data: payload.skip(5),
                end_of_stream: payload[4] % 2 == 1,
            },
        )
    }
}

/// What a whole frame says, or `None` where it is refused.
pub open spec fn parse(kind: u8, payload: Seq<u8>, limits: ValidationLimits) -> Option<FrameView> {
    if kind == FRAME_TYPE_DATA {
        parse_data(payload)
    } else if kind == FRAME_TYPE_CONTROL {
        match decoded_control(payload) {
            Ok(frame) => if frame_within(frame, limits) {
                Some(frame)
            } else {
                None
            },
            Err(_) => None,
        }
    } else {
        None
    }
}

/// Whether `error` is the reason for which a whole frame is refused.
pub open spec fn refused_for(
    kind: u8,
    payload: Seq<u8>,
    limits: ValidationLimits,
    error: CodecError,
) -> bool {
    if kind == FRAME_TYPE_DATA {
        error == CodecError::DataTooShort
    } else if kind == FRAME_TYPE_CONTROL {
        match decoded_control(payload) {
            Err(words) => error matches CodecError::Malformed(w) && w@ == words,
            Ok(view) => error is Invalid && exists|frame: Frame|
                frame@ == view && #[trigger] frame_complaint(frame, limits) == Some(
                    error->Invalid_0,
                ),
        }
    } else {
        error == CodecError::UnknownType(kind)
    }
}

/// Tunnel protocol codec using length-delimited framing.
#[derive(Debug, Clone, Copy)]
pub struct TunnelCodec {
    max_frame_size: usize,
    validation: ValidationLimits,
}

impl Default for TunnelCodec {
    fn default() -> (r: TunnelCodec)
        ensures
            r.max_size() == MAX_FRAME_SIZE,
            r.bounds() == ValidationLimits::of_limits(LimitsConfig::defaults()),
    {
        TunnelCodec::with_max_frame_size(MAX_FRAME_SIZE as usize)
    }
}

impl TunnelCodec {
    /// The configured maximum frame size.
    pub closed spec fn max_size(&self) -> usize {
        self.max_frame_size
    }

    /// The bounds on the contents of control frames.
    pub closed spec fn bounds(&self) -> ValidationLimits {
        self.validation
    }

    #[verifier::type_invariant]
    closed spec fn inv(&self) -> bool {
        1 <= self.max_frame_size <= u32::MAX
    }

    /// Whether a frame of this length can be written.
    pub open spec fn fits(&self, frame: Frame) -> bool {
        wire_len(frame) <= self.max_size()
    }

    /// Whether a written frame is accepted when it is read: data frames always, control
    /// frames where their contents keep within the bounds and reading them within the ceiling.
    pub open spec fn readable(&self, frame: Frame) -> bool {
        frame is Data || (frame_within(frame@, self.bounds()) && control_claim(frame)
            <= CLAIM_LIMIT)
    }

    /// Whether each of these frames can be written, and is accepted when it is read.
    pub open spec fn all_readable(&self, frames: Seq<Frame>) -> bool {
        forall|i: int|
            0 <= i < frames.len() ==> self.fits(#[trigger] frames[i]) && self.readable(frames[i])
    }

    /// Creates a codec with the default maximum frame size.
    pub fn new() -> (r: TunnelCodec)
        ensures
            r.max_size() == MAX_FRAME_SIZE,
            r.bounds() == ValidationLimits::of_limits(LimitsConfig::defaults()),
    {
        TunnelCodec::default()
    }

    /// Creates a codec with a custom maximum frame size, at least one byte and small enough
    /// for the length prefix.
    ///
    /// Only the byte budget follows the argument; the other bounds keep their defaults.
    pub fn with_max_frame_size(max_frame_size: usize) -> (r: TunnelCodec)
        requires
            1 <= max_frame_size <= u32::MAX,
        ensures
            r.max_size() == max_frame_size,
            r.bounds() == (ValidationLimits {
                max_frame_bytes: max_frame_size as u64,
                max_payload_bytes: max_frame_size,
                ..ValidationLimits::of_limits(LimitsConfig::defaults())
            }),
    {
        let mut validation = ValidationLimits::default();
        validation.max_frame_bytes = max_frame_size as u64;
        validation.max_payload_bytes = max_frame_size;
        TunnelCodec { max_frame_size, validation }
    }

    /// Creates a codec from configured resource limits, which set both the byte budget and
    /// the bounds on the contents of control frames.
    pub fn from_limits(limits: &LimitsConfig) -> (r: TunnelCodec)
        requires
            1 <= limits.max_frame_bytes <= u32::MAX,
        ensures
            r.max_size() == limits.max_frame_bytes,
            r.bounds() == ValidationLimits::of_limits(*limits),
    {
        TunnelCodec {
            max_frame_size: limits.max_frame_bytes as usize,
            validation: ValidationLimits::from(limits),
        }
    }

    /// The configured maximum frame size.
    pub fn max_frame_size(&self) -> (r: usize)
        ensures
            r == self.max_size(),
            1 <= r <= u32::MAX,
    {
        proof {
            use_type_invariant(self);
        }
        self.max_frame_size
    }

    fn parse_data_payload(payload: &[u8]) -> (r: Result<Frame, CodecError>)
        ensures
            match r {
                Ok(f) => parse_data(payload@) == Some(f@),
                Err(e) => parse_data(payload@) is None && e == CodecError::DataTooShort,
            },
    {
        if payload.len() < 5 {
            return Err(CodecError::DataTooShort);
        }
        let stream_id: u32 = read_be32(payload);
        let flags: u8 = payload[4];
        proof {
            assert((flags & 1 != 0) == (flags % 2 == 1)) by (bit_vector);
        }
        let data = vstd::slice::slice_to_vec(
            vstd::slice::slice_subrange(payload, 5, payload.len()),
        );
        proof {
            assert(data@ =~= payload@.skip(5));
        }
        Ok(Frame::Data { stream_id, data, end_of_stream: flags & FLAG_EOS != 0 })
    }

    fn parse_control_payload(&self, payload: &[u8]) -> (r: Result<Frame, CodecError>)
        ensures
            match r {
                Ok(f) => parse(FRAME_TYPE_CONTROL, payload@, self.bounds()) == Some(f@),
                Err(e) => parse(FRAME_TYPE_CONTROL, payload@, self.bounds()) is None && refused_for(
                    FRAME_TYPE_CONTROL,
                    payload@,
                    self.bounds(),
                    e,
                ),
            },
            forall|f: Frame| #[trigger]
                control_bytes(f) == payload@ && control_claim(f) <= CLAIM_LIMIT && frame_within(
                    f@,
                    self.bounds(),
                ) ==> r is Ok && r->Ok_0@ == f@,
    {
        match decode_control(payload) {
            Err(words) => Err(CodecError::Malformed(words)),
            Ok(frame) => {
                match validate_frame(&frame, &self.validation) {
                    Ok(()) => Ok(frame),
                    Err(e) => {
                        proof {
                            assert(frame_complaint(frame, self.bounds()) == Some(e));
                        }
                        Err(CodecError::Invalid(e))
                    },
                }
            },
        }
    }

    /// Decodes the frame at the start of `src`, and takes it out.
    ///
    /// Returns `None`, and leaves `src` alone, until a whole frame is there. What was written
    /// for a frame is read as that frame, whatever follows it.
    pub fn decode(&self, src: &mut Vec<u8>) -> (r: Result<Option<Frame>, CodecError>)
        ensures
            match framing(old(src)@, self.max_size() as nat) {
                Framing::Incomplete => (r matches Ok(None)) && final(src)@ == old(src)@,
                Framing::Empty => r == Err::<Option<Frame>, CodecError>(CodecError::EmptyFrame)
                    && final(src)@ == old(src)@,
                Framing::TooLarge { length } => r == Err::<Option<Frame>, CodecError>(
                    CodecError::TooLarge { length: length as usize, max: self.max_size() },
                ) && final(src)@ == old(src)@,
                Framing::Whole { kind, payload, rest } => final(src)@ == rest && match r {
                    Ok(Some(f)) => parse(kind, payload, self.bounds()) == Some(f@),
                    Ok(None) => false,
                    Err(e) => parse(kind, payload, self.bounds()) is None && refused_for(
                        kind,
                        payload,
                        self.bounds(),
                        e,
                    ),
                },
            },
            forall|f: Frame, rest: Seq<u8>|
                #![trigger frame_bytes(f) + rest]
                old(src)@ == frame_bytes(f) + rest && self.fits(f) && self.readable(f) ==> r is Ok
                    && r->Ok_0 is Some && r->Ok_0->0@ == f@ && final(src)@ == rest,
    {
        proof {
            use_type_invariant(self);
            assert forall|f: Frame, rest: Seq<u8>|
                #![trigger frame_bytes(f) + rest]
                src@ == frame_bytes(f) + rest && self.fits(f) implies framing(
                src@,
                self.max_size() as nat,
            ) == (Framing::Whole { kind: frame_kind(f), payload: frame_payload(f), rest }) by {
                lemma_framing(f, rest, self.max_size() as nat);
            }
        }
        if src.len() < HEADER_SIZE {
            return Ok(None);
        }
        let length: usize = read_be32(src.as_slice()) as usize;
        if length == 0 {
            return Err(CodecError::EmptyFrame);
        }
        if length > self.max_frame_size {
            return Err(CodecError::TooLarge { length, max: self.max_frame_size });
        }
        if src.len() - 4 < length {
            return Ok(None);
        }
        let ghost before = src@;
        let mut tail: Vec<u8> = src.split_off(4 + length);
        core::mem::swap(&mut tail, src);
        let kind: u8 = tail[4];
        let payload = vstd::slice::slice_subrange(tail.as_slice(), 5, tail.len());
        proof {
            assert(payload@ =~= before.subrange(5, 4 + length as int));
            assert(src@ =~= before.skip(4 + length as int));
        }
        if kind == FRAME_TYPE_DATA {
            proof {
                assert forall|f: Frame, rest: Seq<u8>|
                    #![trigger frame_bytes(f) + rest]
                    before == frame_bytes(f) + rest && self.fits(f) implies parse_data(payload@)
                    == Some(f@) by {
                    lemma_data_payload(f);
                }
            }
            match TunnelCodec::parse_data_payload(payload) {
                Ok(frame) => Ok(Some(frame)),
                Err(e) => Err(e),
            }
        } else if kind == FRAME_TYPE_CONTROL {
            match self.parse_control_payload(payload) {
                Ok(frame) => Ok(Some(frame)),
                Err(e) => Err(e),
            }
        } else {
            Err(CodecError::UnknownType(kind))
        }
    }

    /// Encodes a frame behind what `dst` holds, or leaves `dst` alone where the frame is too
    /// large.
    pub fn encode(&self, frame: &Frame, dst: &mut Vec<u8>) -> (r: Result<(), CodecError>)
        ensures
            self.fits(*frame) <==> r is Ok,
            r is Ok ==> final(dst)@ == old(dst)@ + frame_bytes(*frame),
            r is Err ==> final(dst)@ == old(dst)@,
            r matches Err(e) ==> (e matches CodecError::TooLarge { length, max } && max
                == self.max_size() && (wire_len(*frame) <= usize::MAX ==> length == wire_len(
                *frame,
            ))),
    {
        proof {
            use_type_invariant(self);
        }
        let ghost start = dst@;
        match frame {
            Frame::Data { stream_id, data, end_of_stream } => {
                if data.len() > usize::MAX - 6 {
                    return Err(CodecError::TooLarge { length: usize::MAX, max: self.max_frame_size });
                }
                let payload_len: usize = 6 + data.len();
                if payload_len > self.max_frame_size {
                    return Err(
                        CodecError::TooLarge { length: payload_len, max: self.max_frame_size },
                    );
                }
                put_be32(dst, payload_len as u32);
                dst.push(FRAME_TYPE_DATA);
                put_be32(dst, *stream_id);
                dst.push(
                    if *end_of_stream {
                        FLAG_EOS
                    } else {
                        0
                    },
                );
                dst.extend_from_slice(data.as_slice());
                proof {
                    assert(dst@ =~= start + frame_bytes(*frame));
                }
                Ok(())
            },
            _ => {
                let payload = encode_control(frame);
                if payload.len() > usize::MAX - 1 {
                    return Err(CodecError::TooLarge { length: usize::MAX, max: self.max_frame_size });
                }
                let payload_len: usize = 1 + payload.len();
                if payload_len > self.max_frame_size {
                    return Err(
                        CodecError::TooLarge { length: payload_len, max: self.max_frame_size },
                    );
                }
                put_be32(dst, payload_len as u32);
                dst.push(FRAME_TYPE_CONTROL);
                dst.extend_from_slice(payload.as_slice());
                proof {
                    assert(dst@ =~= start + frame_bytes(*frame));
                }
                Ok(())
            },
        }
    }
}

/// The frames that stand at the start of `src`, up to the first that is incomplete or refused.
pub open spec fn batch_frames(src: Seq<u8>, max: nat, limits: ValidationLimits) -> Seq<FrameView>
    decreases src.len(),
{
    match framing(src, max) {
        Framing::Whole { kind, payload, rest } => match parse(kind, payload, limits) {
            Some(frame) => seq![frame] + batch_frames(rest, max, limits),
            None => Seq::empty(),
        },
        _ => Seq::empty(),
    }
}

/// What is left of `src` behind those frames; a whole frame that is refused is taken out.
pub open spec fn batch_rest(src: Seq<u8>, max: nat, limits: ValidationLimits) -> Seq<u8>
    decreases src.len(),
{
    match framing(src, max) {
        Framing::Whole { kind, payload, rest } => match parse(kind, payload, limits) {
            Some(_) => batch_rest(rest, max, limits),
            None => rest,
        },
        _ => src,
    }
}

/// Whether `error` is the reason for which what stands at the start of `src` is refused.
pub open spec fn refusal(src: Seq<u8>, max: nat, limits: ValidationLimits, error: CodecError) -> bool {
    match framing(src, max) {
        Framing::Incomplete => false,
        Framing::Empty => error == CodecError::EmptyFrame,
        Framing::TooLarge { length } => error == (CodecError::TooLarge {
            length: length as usize,
            max: max as usize,
        }),
        Framing::Whole { kind, payload, .. } => parse(kind, payload, limits) is None
            && refused_for(kind, payload, limits, error),
    }
}

/// What `src` holds behind those frames, with a frame that is refused still in place.
pub open spec fn batch_stop(src: Seq<u8>, max: nat, limits: ValidationLimits) -> Seq<u8>
    decreases src.len(),
{
    match framing(src, max) {
        Framing::Whole { kind, payload, rest } => match parse(kind, payload, limits) {
            Some(_) => batch_stop(rest, max, limits),
            None => src,
        },
        _ => src,
    }
}

/// Whether something that is refused follows those frames.
pub open spec fn batch_refused(src: Seq<u8>, max: nat, limits: ValidationLimits) -> bool
    decreases src.len(),
{
    match framing(src, max) {
        Framing::Incomplete => false,
        Framing::Empty | Framing::TooLarge { .. } => true,
        Framing::Whole { kind, payload, rest } => match parse(kind, payload, limits) {
            Some(_) => batch_refused(rest, max, limits),
            None => true,
        },
    }
}

/// What each of a list of frames says.
pub open spec fn frame_views(frames: Seq<Frame>) -> Seq<FrameView> {
    Seq::new(frames.len(), |i: int| frames[i]@)
}

/// What each of a list of borrowed frames says.
pub open spec fn zero_copy_views<'a>(frames: Seq<ZeroCopyFrame<'a>>) -> Seq<FrameView> {
    Seq::new(frames.len(), |i: int| frames[i]@)
}

/// The data frames that a scan of `src` meets before it stops; control frames, and frames of
/// unknown types, are passed over.
pub open spec fn scanned_frames(src: Seq<u8>, max: nat) -> Seq<FrameView>
    decreases src.len(),
{
    match framing(src, max) {
        Framing::Whole { kind, payload, rest } => if kind == FRAME_TYPE_DATA {
            match parse_data(payload) {
                Some(frame) => seq![frame] + scanned_frames(rest, max),
                None => Seq::empty(),
            }
        } else {
            scanned_frames(rest, max)
        },
        _ => Seq::empty(),
    }
}

/// What is left of `src` where such a scan stops.
pub open spec fn scanned_rest(src: Seq<u8>, max: nat) -> Seq<u8>
    decreases src.len(),
{
    match framing(src, max) {
        Framing::Whole { kind, payload, rest } => if kind == FRAME_TYPE_DATA && parse_data(
            payload,
        ) is None {
            src
        } else {
            scanned_rest(rest, max)
        },
        _ => src,
    }
}

/// Why such a scan fails, where it does: at a bad length, or at a data frame too short.
pub open spec fn scan_error(src: Seq<u8>, max: nat) -> Option<CodecError>
    decreases src.len(),
{
    match framing(src, max) {
        Framing::Incomplete => None,
        Framing::Empty => Some(CodecError::InvalidLength { length: 0 }),
        Framing::TooLarge { length } => Some(CodecError::InvalidLength { length: length as usize }),
        Framing::Whole { kind, payload, rest } => if kind == FRAME_TYPE_DATA && parse_data(
            payload,
        ) is None {
            Some(CodecError::DataTooShort)
        } else {
            scan_error(rest, max)
        },
    }
}

impl TunnelCodec {
    /// Decodes as many whole frames as `src` holds, appending them to `out`, and returns the
    /// number of bytes taken out of `src`.
    ///
    /// Where something is refused, the frames before it have been appended. What was written
    /// for a list of frames is read as those frames, in their order.
    #[verifier::rlimit(60)]
    #[verifier::spinoff_prover]
    pub fn decode_batch(&self, src: &mut Vec<u8>, out: &mut Vec<Frame>) -> (r: Result<
        usize,
        CodecError,
    >)
        ensures
            frame_views(final(out)@) == frame_views(old(out)@) + batch_frames(
                old(src)@,
                self.max_size() as nat,
                self.bounds(),
            ),
            final(src)@ == batch_rest(old(src)@, self.max_size() as nat, self.bounds()),
            r is Err <==> batch_refused(old(src)@, self.max_size() as nat, self.bounds()),
            r matches Err(e) ==> refusal(
                batch_stop(old(src)@, self.max_size() as nat, self.bounds()),
                self.max_size() as nat,
                self.bounds(),
                e,
            ),
            r matches Ok(n) ==> n == old(src)@.len() - final(src)@.len(),
            forall|frames: Seq<Frame>, rest: Seq<u8>|
                #![trigger stream_bytes(frames) + rest]
                old(src)@ == stream_bytes(frames) + rest && self.all_readable(frames) && framing(
                    rest,
                    self.max_size() as nat,
                ) is Incomplete ==> r is Ok && frame_views(final(out)@) == frame_views(old(out)@)
                    + frame_views(frames) && final(src)@ == rest,
    {
        let ghost start = src@;
        let ghost first = frame_views(out@);
        let ghost max = self.max_size() as nat;
        let ghost limits = self.bounds();
        let total: usize = src.len();
        let mut consumed: usize = 0;
        proof {
            assert(first + batch_frames(start, max, limits) =~= frame_views(out@) + batch_frames(
                src@,
                max,
                limits,
            ));
            assert forall|frames: Seq<Frame>, rest: Seq<u8>|
                #![trigger stream_bytes(frames) + rest]
                start == stream_bytes(frames) + rest implies on_course(
                frames,
                rest,
                src@,
                first,
                frame_views(out@),
                0,
            ) by {
                assert(frames.skip(0) =~= frames);
                assert(first + frame_views(frames).take(0) =~= first);
            }
        }
        loop
            invariant
                max == self.max_size(),
                limits == self.bounds(),
                start == old(src)@,
                first == frame_views(old(out)@),
                total == start.len(),
                consumed + src@.len() == start.len(),
                first + batch_frames(start, max, limits) == frame_views(out@) + batch_frames(
                    src@,
                    max,
                    limits,
                ),
                batch_rest(start, max, limits) == batch_rest(src@, max, limits),
                batch_stop(start, max, limits) == batch_stop(src@, max, limits),
                batch_refused(start, max, limits) == batch_refused(src@, max, limits),
                out@.len() >= old(out)@.len(),
                forall|frames: Seq<Frame>, rest: Seq<u8>|
                    #![trigger stream_bytes(frames) + rest]
                    start == stream_bytes(frames) + rest && self.all_readable(frames) && framing(
                        rest,
                        max,
                    ) is Incomplete ==> on_course(
                        frames,
                        rest,
                        src@,
                        first,
                        frame_views(out@),
                        out@.len() - old(out)@.len(),
                    ),
            decreases src@.len(),
        {
            let ghost now = src@;
            let ghost got = out@;
            let before: usize = src.len();
            match self.decode(src) {
                Ok(Some(frame)) => {
                    consumed += before - src.len();
                    out.push(frame);
                    proof {
                        assert(frame_views(out@) =~= frame_views(got).push(frame@));
                        assert(frame_views(got) + (seq![frame@] + batch_frames(src@, max, limits))
                            =~= frame_views(got).push(frame@) + batch_frames(src@, max, limits));
                        let k = got.len() - old(out)@.len();
                        assert forall|frames: Seq<Frame>, rest: Seq<u8>|
                            #![trigger stream_bytes(frames) + rest]
                            start == stream_bytes(frames) + rest && self.all_readable(frames)
                                && framing(rest, max) is Incomplete implies on_course(
                            frames,
                            rest,
                            src@,
                            first,
                            frame_views(out@),
                            k + 1,
                        ) by {
                            lemma_next_frame(frames, rest, now, first, frame_views(got), k);
                            if k < frames.len() {
                                assert(self.fits(frames[k]) && self.readable(frames[k]));
                                assert(frame_views(out@) =~= first + frame_views(frames).take(
                                    k + 1,
                                ));
                            }
                        }
                    }
                },
                Ok(None) => {
                    proof {
                        assert(frame_views(out@) + batch_frames(now, max, limits) =~= frame_views(
                            out@,
                        ));
                        let k = got.len() - old(out)@.len();
                        assert forall|frames: Seq<Frame>, rest: Seq<u8>|
                            #![trigger stream_bytes(frames) + rest]
                            start == stream_bytes(frames) + rest && self.all_readable(frames)
                                && framing(rest, max) is Incomplete implies frame_views(out@)
                            == first + frame_views(frames) && src@ == rest by {
                            lemma_next_frame(frames, rest, now, first, frame_views(got), k);
                            if k < frames.len() {
                                assert(self.fits(frames[k]) && self.readable(frames[k]));
                            }
                        }
                    }
                    return Ok(consumed);
                },
                Err(e) => {
                    proof {
                        assert(frame_views(out@) + batch_frames(now, max, limits) =~= frame_views(
                            out@,
                        ));
                        let k = got.len() - old(out)@.len();
                        assert forall|frames: Seq<Frame>, rest: Seq<u8>|
                            #![trigger stream_bytes(frames) + rest]
                            start == stream_bytes(frames) + rest && self.all_readable(frames)
                                && framing(rest, max) is Incomplete implies false by {
                            lemma_next_frame(frames, rest, now, first, frame_views(got), k);
                            if k < frames.len() {
                                assert(self.fits(frames[k]) && self.readable(frames[k]));
                            }
                        }
                    }
                    return Err(e);
                },
            }
        }
    }

    /// Scans `buf` for data frames without copying their payloads, appending them to `out`,
    /// and returns the number of bytes scanned.
    ///
    /// Only whole frames are scanned; control frames are passed over.
    pub fn decode_data_frames_zerocopy<'a>(
        &self,
        buf: &'a [u8],
        out: &mut Vec<ZeroCopyFrame<'a>>,
    ) -> (r: Result<usize, CodecError>)
        ensures
            zero_copy_views(final(out)@) == zero_copy_views(old(out)@) + scanned_frames(
                buf@,
                self.max_size() as nat,
            ),
            match r {
                Ok(n) => scan_error(buf@, self.max_size() as nat) is None && n <= buf@.len()
                    && buf@.skip(n as int) == scanned_rest(buf@, self.max_size() as nat),
                Err(e) => scan_error(buf@, self.max_size() as nat) == Some(e),
            },
    {
        proof {
            use_type_invariant(self);
        }
        let ghost first = zero_copy_views(out@);
        let ghost max = self.max_size() as nat;
        let mut offset: usize = 0;
        proof {
            assert(buf@.skip(0) =~= buf@);
        }
        while buf.len() - offset >= HEADER_SIZE
            invariant
                max == self.max_size(),
                max == self.max_frame_size,
                max <= u32::MAX,
                first == zero_copy_views(old(out)@),
                offset <= buf@.len(),
                first + scanned_frames(buf@, max) == zero_copy_views(out@) + scanned_frames(
                    buf@.skip(offset as int),
                    max,
                ),
                scanned_rest(buf@, max) == scanned_rest(buf@.skip(offset as int), max),
                scan_error(buf@, max) == scan_error(buf@.skip(offset as int), max),
            decreases buf@.len() - offset,
        {
            let ghost got = out@;
            let rest = vstd::slice::slice_subrange(buf, offset, buf.len());
            proof {
                assert(rest@ =~= buf@.skip(offset as int));
                assert(zero_copy_views(got) + Seq::empty() =~= zero_copy_views(got));
            }
            let length: usize = read_be32(rest) as usize;
            if length == 0 || length > self.max_frame_size {
                return Err(CodecError::InvalidLength { length });
            }
            if rest.len() - 4 < length {
                return Ok(offset);
            }
            let total_size: usize = 4 + length;
            let kind: u8 = rest[4];
            proof {
                assert(rest@.skip(total_size as int) =~= buf@.skip(offset + total_size));
            }
            if kind == FRAME_TYPE_DATA {
                if length < 6 {
                    return Err(CodecError::DataTooShort);
                }
                let payload = vstd::slice::slice_subrange(rest, 5, total_size);
                let stream_id: u32 = read_be32(payload);
                let flags: u8 = payload[4];
                proof {
                    assert((flags & 1 != 0) == (flags % 2 == 1)) by (bit_vector);
                }
                let fin: bool = flags & FLAG_EOS != 0;
                let data = vstd::slice::slice_subrange(payload, 5, payload.len());
                let frame = ZeroCopyFrame::Data { stream_id, data, fin };
                out.push(frame);
                proof {
                    assert(payload@ =~= rest@.subrange(5, 4 + length as int));
                    assert(data@ =~= payload@.skip(5));
                    assert(zero_copy_views(out@) =~= zero_copy_views(got).push(frame@));
                    let tail = scanned_frames(rest@.skip(total_size as int), max);
                    assert(zero_copy_views(got) + (seq![frame@] + tail) =~= zero_copy_views(
                        got,
                    ).push(frame@) + tail);
                }
            }
            offset += total_size;
        }
        proof {
            assert(framing(buf@.skip(offset as int), max) is Incomplete);
            assert(zero_copy_views(out@) + Seq::empty() =~= zero_copy_views(out@));
        }
        Ok(offset)
    }
}

/// Reads the number that the first four bytes form, most significant first.
pub(crate) fn read_be32(bytes: &[u8]) -> (r: u32)
    requires
        bytes@.len() >= 4,
    ensures
        r == be32(bytes@),
{
    (bytes[0] as u32) * 16777216 + (bytes[1] as u32) * 65536 + (bytes[2] as u32) * 256 + (
    bytes[3] as u32)
}

/// Appends the four bytes of a number, most significant first.
pub(crate) fn put_be32(out: &mut Vec<u8>, n: u32)
    ensures
        final(out)@ == old(out)@ + be32_bytes(n as nat),
{
    let ghost before = out@;
    out.push((n / 16777216 % 256) as u8);
    out.push((n / 65536 % 256) as u8);
    out.push((n / 256 % 256) as u8);
    out.push((n % 256) as u8);
    proof {
        assert(out@ =~= before + be32_bytes(n as nat));
    }
}

/// The payload of a data frame says what the frame says.
pub proof fn lemma_data_payload(frame: Frame)
    requires
        frame is Data,
    ensures
        parse_data(frame_payload(frame)) == Some(frame@),
{
    let payload = frame_payload(frame);
    match frame {
        Frame::Data { stream_id, data, end_of_stream } => {
            lemma_be32(
                stream_id as nat,
                seq![
                    if end_of_stream {
                        FLAG_EOS
                    } else {
                        0u8
                    },
                ] + data@,
            );
            assert(payload.skip(5) =~= data@);
        },
        _ => {},
    }
}

/// The bytes of a frame, followed by any others, are framed as that frame followed by those.
pub proof fn lemma_framing(frame: Frame, rest: Seq<u8>, max: nat)
    requires
        wire_len(frame) <= max <= u32::MAX,
    ensures
        framing(frame_bytes(frame) + rest, max) == (Framing::Whole {
            kind: frame_kind(frame),
            payload: frame_payload(frame),
            rest,
        }),
{
    let src = frame_bytes(frame) + rest;
    let body = seq![frame_kind(frame)] + frame_payload(frame);
    lemma_be32(wire_len(frame), body + rest);
    assert(src =~= be32_bytes(wire_len(frame)) + (body + rest));
    assert(src.subrange(5, 4 + wire_len(frame) as int) =~= frame_payload(frame));
    assert(src.skip(4 + wire_len(frame) as int) =~= rest);
}

/// The bytes of a list of frames, one after the other.
pub open spec fn stream_bytes(frames: Seq<Frame>) -> Seq<u8>
    decreases frames.len(),
{
    if frames.len() == 0 {
        Seq::empty()
    } else {
        frame_bytes(frames[0]) + stream_bytes(frames.skip(1))
    }
}

/// Whether of the bytes of `frames`, followed by `rest`, the first `k` frames have been read.
pub open spec fn on_course(
    frames: Seq<Frame>,
    rest: Seq<u8>,
    src: Seq<u8>,
    first: Seq<FrameView>,
    read: Seq<FrameView>,
    k: int,
) -> bool {
    &&& 0 <= k <= frames.len()
    &&& src == stream_bytes(frames.skip(k)) + rest
    &&& read == first + frame_views(frames).take(k)
}

/// Where the first `k` frames have been read, the next one stands at the start of what is left,
/// and where they are all, nothing but the rest is left.
proof fn lemma_next_frame(
    frames: Seq<Frame>,
    rest: Seq<u8>,
    src: Seq<u8>,
    first: Seq<FrameView>,
    read: Seq<FrameView>,
    k: int,
)
    requires
        on_course(frames, rest, src, first, read, k),
    ensures
        k < frames.len() ==> src == frame_bytes(frames[k]) + (stream_bytes(frames.skip(k + 1))
            + rest),
        k == frames.len() ==> src == rest && read == first + frame_views(frames),
{
    if k < frames.len() {
        assert(frames.skip(k).skip(1) =~= frames.skip(k + 1));
        assert(src =~= frame_bytes(frames[k]) + (stream_bytes(frames.skip(k + 1)) + rest));
    } else {
        assert(src =~= rest);
        assert(frame_views(frames).take(k) =~= frame_views(frames));
    }
}

/// Until the last byte of a frame has arrived, no frame is decoded: every proper prefix of a
/// frame's bytes is incomplete.
pub proof fn law_prefix_is_incomplete(frame: Frame, n: int, max: nat)
    requires
        wire_len(frame) <= max <= u32::MAX,
        0 <= n < frame_bytes(frame).len(),
    ensures
        framing(frame_bytes(frame).take(n), max) is Incomplete,
{
    let whole = frame_bytes(frame);
    lemma_be32(wire_len(frame), seq![frame_kind(frame)] + frame_payload(frame));
    if n >= 5 {
        assert(whole.take(n)[0] == whole[0]);
        assert(whole.take(n)[1] == whole[1]);
        assert(whole.take(n)[2] == whole[2]);
        assert(whole.take(n)[3] == whole[3]);
        assert(be32(whole.take(n)) == wire_len(frame));
    }
}

/// Frames written one after the other are decoded in the order in which they were written,
/// and nothing is left, wherever each of them is accepted on its own.
pub proof fn law_batch_reads_written_frames(
    frames: Seq<Frame>,
    rest: Seq<u8>,
    max: nat,
    limits: ValidationLimits,
)
    requires
        max <= u32::MAX,
        forall|i: int|
            0 <= i < frames.len() ==> wire_len(#[trigger] frames[i]) <= max && parse(
                frame_kind(frames[i]),
                frame_payload(frames[i]),
                limits,
            ) == Some(frames[i]@),
        framing(rest, max) is Incomplete,
    ensures
        batch_frames(stream_bytes(frames) + rest, max, limits) == frame_views(frames),
        batch_rest(stream_bytes(frames) + rest, max, limits) == rest,
        !batch_refused(stream_bytes(frames) + rest, max, limits),
    decreases frames.len(),
{
    let src = stream_bytes(frames) + rest;
    if frames.len() == 0 {
        assert(src =~= rest);
        assert(frame_views(frames) =~= Seq::empty());
    } else {
        let tail = frames.skip(1);
        assert forall|i: int| 0 <= i < tail.len() implies wire_len(#[trigger] tail[i]) <= max
            && parse(frame_kind(tail[i]), frame_payload(tail[i]), limits) == Some(tail[i]@) by {
            assert(tail[i] == frames[i + 1]);
        }
        law_batch_reads_written_frames(tail, rest, max, limits);
        assert(src =~= frame_bytes(frames[0]) + (stream_bytes(tail) + rest));
        lemma_framing(frames[0], stream_bytes(tail) + rest, max);
        assert(frame_views(frames) =~= seq![frames[0]@] + frame_views(tail));
    }
}

/// A data frame that fits is accepted by every codec, whatever bounds it has on control frames.
pub proof fn law_data_frames_are_accepted(frame: Frame, limits: ValidationLimits)
    requires
        frame is Data,
    ensures
        parse(frame_kind(frame), frame_payload(frame), limits) == Some(frame@),
{
    lemma_data_payload(frame);
}

/// Whether the whole frames at the start of `src`, up to the first that is too short, are data
/// frames.
pub open spec fn only_data(src: Seq<u8>, max: nat) -> bool
    decreases src.len(),
{
    match framing(src, max) {
        Framing::Whole { kind, payload, rest } => kind == FRAME_TYPE_DATA && (parse_data(
            payload,
        ) is Some ==> only_data(rest, max)),
        _ => true,
    }
}

/// On a buffer whose whole frames are data frames, whatever their flags and whatever follows
/// them, scanning without copying finds what decoding finds, stops where decoding stops, and
/// fails where decoding fails.
pub proof fn law_scan_agrees_with_batch(src: Seq<u8>, max: nat, limits: ValidationLimits)
    requires
        only_data(src, max),
    ensures
        scanned_frames(src, max) == batch_frames(src, max, limits),
        scanned_rest(src, max) == batch_stop(src, max, limits),
        scan_error(src, max) is Some <==> batch_refused(src, max, limits),
        scan_error(src, max) is None ==> scanned_rest(src, max) == batch_rest(src, max, limits),
        scan_error(src, max) == Some(CodecError::DataTooShort) <==> refusal(
            batch_stop(src, max, limits),
            max,
            limits,
            CodecError::DataTooShort,
        ),
    decreases src.len(),
{
    match framing(src, max) {
        Framing::Whole { payload, rest, .. } => {
            if parse_data(payload) is Some {
                law_scan_agrees_with_batch(rest, max, limits);
            }
        },
        _ => {},
    }
}

/// Data frames written one after the other are found by a scan in the order in which they were
/// written, and it stops behind them.
pub proof fn law_scan_reads_written_data_frames(frames: Seq<Frame>, rest: Seq<u8>, max: nat)
    requires
        max <= u32::MAX,
        forall|i: int|
            0 <= i < frames.len() ==> (#[trigger] frames[i]) is Data && wire_len(frames[i]) <= max,
        framing(rest, max) is Incomplete,
    ensures
        only_data(stream_bytes(frames) + rest, max),
        scanned_frames(stream_bytes(frames) + rest, max) == frame_views(frames),
        scanned_rest(stream_bytes(frames) + rest, max) == rest,
        scan_error(stream_bytes(frames) + rest, max) is None,
    decreases frames.len(),
{
    let src = stream_bytes(frames) + rest;
    if frames.len() == 0 {
        assert(src =~= rest);
        assert(frame_views(frames) =~= Seq::empty());
    } else {
        let tail = frames.skip(1);
        assert forall|i: int| 0 <= i < tail.len() implies (#[trigger] tail[i]) is Data && wire_len(
            tail[i],
        ) <= max by {
            assert(tail[i] == frames[i + 1]);
        }
        law_scan_reads_written_data_frames(tail, rest, max);
        assert(src =~= frame_bytes(frames[0]) + (stream_bytes(tail) + rest));
        lemma_framing(frames[0], stream_bytes(tail) + rest, max);
        lemma_data_payload(frames[0]);
        assert(frame_views(frames) =~= seq![frames[0]@] + frame_views(tail));
    }
}

/// Decoding never takes more than the maximum frame size and its length prefix out of a buffer.
pub proof fn law_frame_never_exceeds_maximum(src: Seq<u8>, max: nat)
    ensures
        framing(src, max) matches Framing::Whole { payload, rest, .. } ==> 1 + payload.len() <= max
            && src.len() == 5 + payload.len() + rest.len(),
{
}

/// Valid limits meet what the codec asks of its maximum frame size.
pub proof fn law_valid_limits_suit_the_codec(limits: LimitsConfig)
    requires
        crate::limits::limits_valid(limits),
    ensures
        1 <= limits.max_frame_bytes <= u32::MAX,
{
}

/// A data frame is written, behind what is there, as its length in four bytes, most significant
/// first, a one, its stream id likewise in four bytes, a byte that is one at the end of the stream
/// and else zero, and its data.
pub proof fn law_data_frame_is_laid_out(
    codec: &TunnelCodec,
    frame: &Frame,
    dst: &mut Vec<u8>,
    r: Result<(), CodecError>,
)
    requires
        call_ensures(TunnelCodec::encode, (codec, frame, dst), r),
        *frame is Data,
    ensures
        *frame matches Frame::Data { stream_id, data, end_of_stream } ==> {
            let n = data@.len() + 6;
            &&& r is Ok <==> n <= codec.max_size()
            &&& r is Ok ==> {
                let out = final(dst)@;
                let at = old(dst)@.len() as int;
                &&& out.len() == at + 4 + n
                &&& out.take(at) == old(dst)@
                &&& out[at] as int == n / 0x100_0000 % 256
                &&& out[at + 1] as int == n / 0x1_0000 % 256
                &&& out[at + 2] as int == n / 0x100 % 256
                &&& out[at + 3] as int == n % 256
                &&& out[at + 4] == 1
                &&& out[at + 5] as int == stream_id as int / 0x100_0000 % 256
                &&& out[at + 6] as int == stream_id as int / 0x1_0000 % 256
                &&& out[at + 7] as int == stream_id as int / 0x100 % 256
                &&& out[at + 8] as int == stream_id as int % 256
                &&& out[at + 9] == (if end_of_stream {
                    1u8
                } else {
                    0
                })
                &&& out.skip(at + 10) == data@
            }
            &&& r is Err ==> final(dst)@ == old(dst)@
        },
{
    if let Frame::Data { stream_id, data, end_of_stream } = *frame {
        if r is Ok {
            let out = final(dst)@;
            let at = old(dst)@.len() as int;
            assert(out == old(dst)@ + frame_bytes(*frame));
            assert(out.take(at) =~= old(dst)@);
            assert(frame_bytes(*frame).len() == 10 + data@.len());
            assert forall|i: int| 0 <= i < 10 implies out[at + i] == #[trigger] frame_bytes(
                *frame,
            )[i] by {}
            assert(out[at] == frame_bytes(*frame)[0]);
            assert(out[at + 4] == frame_bytes(*frame)[4]);
            assert(out[at + 5] == frame_bytes(*frame)[5]);
            assert(out[at + 9] == frame_bytes(*frame)[9]);
            assert(out.skip(at + 10) =~= data@);
        }
    }
}

/// A control frame is written, behind what is there, as its length in four bytes, a zero, and its
/// control form.
pub proof fn law_control_frame_is_laid_out(
    codec: &TunnelCodec,
    frame: &Frame,
    dst: &mut Vec<u8>,
    r: Result<(), CodecError>,
    form: Vec<u8>,
)
    requires
        call_ensures(TunnelCodec::encode, (codec, frame, dst), r),
        call_ensures(encode_control, (frame,), form),
        !(*frame is Data),
    ensures
        ({
            let n = form@.len() + 1;
            &&& r is Ok <==> n <= codec.max_size()
            &&& r is Ok ==> {
                let out = final(dst)@;
                let at = old(dst)@.len() as int;
                &&& out.len() == at + 4 + n
                &&& out.take(at) == old(dst)@
                &&& out[at] as int == n / 0x100_0000 % 256
                &&& out[at + 1] as int == n / 0x1_0000 % 256
                &&& out[at + 2] as int == n / 0x100 % 256
                &&& out[at + 3] as int == n % 256
                &&& out[at + 4] == 0
                &&& out.skip(at + 5) == form@
            }
            &&& r is Err ==> final(dst)@ == old(dst)@
        }),
{
    if r is Ok {
        let out = final(dst)@;
        let at = old(dst)@.len() as int;
        assert(out == old(dst)@ + frame_bytes(*frame));
        assert(out.take(at) =~= old(dst)@);
        assert(out[at] == frame_bytes(*frame)[0]);
        assert(out[at + 1] == frame_bytes(*frame)[1]);
        assert(out[at + 2] == frame_bytes(*frame)[2]);
        assert(out[at + 3] == frame_bytes(*frame)[3]);
        assert(out[at + 4] == frame_bytes(*frame)[4]);
        assert(out.skip(at + 5) =~= form@);
    }
}

/// What one codec wrote for a frame, another reads as that frame, whatever follows it, and leaves
/// what follows; a control frame as long as the reader's bounds allow its contents.
pub proof fn law_written_frame_reads_back(
    writer: &TunnelCodec,
    frame: &Frame,
    wire: &mut Vec<u8>,
    reader: &TunnelCodec,
    src: &mut Vec<u8>,
    rest: Seq<u8>,
    valid: Result<(), ValidationError>,
    bounds: &ValidationLimits,
    r: Result<Option<Frame>, CodecError>,
)
    requires
        old(wire)@.len() == 0,
        call_ensures(TunnelCodec::encode, (writer, frame, wire), Ok(())),
        writer.max_size() <= reader.max_size() <= u32::MAX,
        *bounds == reader.bounds(),
        call_ensures(validate_frame, (frame, bounds), valid),
        *frame is Data || (valid is Ok && control_claim(*frame) <= 0x100_0000),
        old(src)@ == final(wire)@ + rest,
        call_ensures(TunnelCodec::decode, (reader, src), r),
    ensures
        r is Ok && r->Ok_0 is Some,
        r->Ok_0->0@ == frame@,
        final(src)@ == rest,
{
    assert(final(wire)@ =~= frame_bytes(*frame));
    assert(old(src)@ == frame_bytes(*frame) + rest);
    assert(reader.fits(*frame) && reader.readable(*frame));
}

/// Until a whole frame is there nothing is read and nothing taken out. A length of zero or beyond
/// the maximum is refused, with the buffer left alone; a whole frame of unknown type is refused and
/// taken out, and so is a data frame without room for its stream id and flags.
pub proof fn law_frames_are_read_when_whole(
    codec: &TunnelCodec,
    src: &mut Vec<u8>,
    r: Result<Option<Frame>, CodecError>,
)
    requires
        call_ensures(TunnelCodec::decode, (codec, src), r),
    ensures
        ({
            let b = old(src)@;
            let n = b[0] as int * 0x100_0000 + b[1] as int * 0x1_0000 + b[2] as int * 0x100
                + b[3] as int;
            &&& b.len() < 5 ==> r == Ok::<Option<Frame>, CodecError>(None) && final(src)@ == b
            &&& b.len() >= 5 && n == 0 ==> r == Err::<Option<Frame>, CodecError>(
                CodecError::EmptyFrame,
            ) && final(src)@ == b
            &&& b.len() >= 5 && n > codec.max_size() ==> r == Err::<Option<Frame>, CodecError>(
                CodecError::TooLarge { length: n as usize, max: codec.max_size() },
            ) && final(src)@ == b
            &&& b.len() >= 5 && 0 < n <= codec.max_size() && b.len() < n + 4 ==> r == Ok::<
                Option<Frame>,
                CodecError,
            >(None) && final(src)@ == b
            &&& b.len() >= 5 && 0 < n <= codec.max_size() && b.len() >= n + 4 ==> {
                &&& final(src)@ == b.skip(n + 4)
                &&& r != Ok::<Option<Frame>, CodecError>(None)
                &&& b[4] > 1 ==> r == Err::<Option<Frame>, CodecError>(
                    CodecError::UnknownType(b[4]),
                )
                &&& b[4] == 1 && n < 6 ==> r == Err::<Option<Frame>, CodecError>(
                    CodecError::DataTooShort,
                )
                &&& b[4] == 1 && n >= 6 ==> {
                    &&& r is Ok && r->Ok_0 is Some && r->Ok_0->0 is Data
                    &&& r->Ok_0->0->Data_stream_id as int == b[5] as int * 0x100_0000 + b[6] as int
                        * 0x1_0000 + b[7] as int * 0x100 + b[8] as int
                    &&& r->Ok_0->0->Data_end_of_stream <==> b[9] % 2 == 1
                    &&& r->Ok_0->0->Data_data@ == b.subrange(10, n + 4)
                }
            }
        }),
{
    let b = old(src)@;
    let n = be32(b) as int;
    if b.len() >= 5 && 0 < n <= codec.max_size() && b.len() >= n + 4 {
        let payload = b.subrange(5, 4 + n);
        if b[4] == 1 && n >= 6 {
            assert(payload[0] == b[5] && payload[1] == b[6] && payload[2] == b[7] && payload[3]
                == b[8] && payload[4] == b[9]);
            assert(payload.skip(5) =~= b.subrange(10, n + 4));
        }
    }
}

/// A control frame is read as its control form says, where that keeps within the bounds; else it is
/// refused, for what is wrong with the form or with its size.
pub proof fn law_control_frames_are_checked(
    codec: &TunnelCodec,
    src: &mut Vec<u8>,
    r: Result<Option<Frame>, CodecError>,
    form: &[u8],
    read: Result<Frame, String>,
    bounds: &ValidationLimits,
    valid: Result<(), ValidationError>,
)
    requires
        call_ensures(TunnelCodec::decode, (codec, src), r),
        old(src)@.len() >= 5,
        old(src)@[4] == 0,
        ({
            let b = old(src)@;
            let n = b[0] as int * 0x100_0000 + b[1] as int * 0x1_0000 + b[2] as int * 0x100
                + b[3] as int;
            0 < n <= codec.max_size() && b.len() >= n + 4 && form@ == b.subrange(5, n + 4)
        }),
        call_ensures(decode_control, (form,), read),
        *bounds == codec.bounds(),
        read matches Ok(f) ==> call_ensures(validate_frame, (&f, bounds), valid),
    ensures
        read matches Err(words) ==> r is Err && r->Err_0 is Malformed && r->Err_0->Malformed_0@
            == words@,
        read matches Ok(f) ==> {
            &&& valid is Ok ==> r is Ok && r->Ok_0 is Some && r->Ok_0->0@ == f@
            &&& valid is Err ==> r is Err && r->Err_0 is Invalid
        },
{
}

/// Reading a batch reads one frame after the other: the frame that is read first comes first, and
/// then what a batch reads of the rest.
pub proof fn law_batch_reads_frame_by_frame(
    codec: &TunnelCodec,
    src: &mut Vec<u8>,
    out: &mut Vec<Frame>,
    r: Result<usize, CodecError>,
    one: &mut Vec<u8>,
    first: Result<Option<Frame>, CodecError>,
    rest: &mut Vec<u8>,
    rest_out: &mut Vec<Frame>,
    rest_r: Result<usize, CodecError>,
)
    requires
        old(out)@.len() == 0,
        old(rest_out)@.len() == 0,
        old(one)@ == old(src)@,
        call_ensures(TunnelCodec::decode_batch, (codec, src, out), r),
        call_ensures(TunnelCodec::decode, (codec, one), first),
        old(rest)@ == final(one)@,
        call_ensures(TunnelCodec::decode_batch, (codec, rest, rest_out), rest_r),
    ensures
        first == Ok::<Option<Frame>, CodecError>(None) ==> r == Ok::<usize, CodecError>(0)
            && final(src)@ == old(src)@ && final(out)@.len() == 0,
        first is Err ==> r is Err && final(src)@ == final(one)@ && final(out)@.len() == 0,
        first matches Ok(Some(f)) ==> {
            &&& final(out)@.len() == final(rest_out)@.len() + 1
            &&& final(out)@[0]@ == f@
            &&& forall|i: int|
                0 <= i < final(rest_out)@.len() ==> (#[trigger] final(out)@[i + 1])@
                    == final(rest_out)@[i]@
            &&& final(src)@ == final(rest)@
            &&& r is Ok <==> rest_r is Ok
            &&& r is Ok ==> r->Ok_0 == rest_r->Ok_0 + (old(src)@.len() - old(rest)@.len())
        },
{
    let views = frame_views(final(out)@);
    let rest_views = frame_views(final(rest_out)@);
    assert(frame_views(old(out)@) =~= Seq::empty());
    assert(frame_views(old(rest_out)@) =~= Seq::empty());
    assert(views.len() == final(out)@.len());
    assert(rest_views.len() == final(rest_out)@.len());
    let max = codec.max_size() as nat;
    assert(views =~= batch_frames(old(src)@, max, codec.bounds()));
    assert(rest_views =~= batch_frames(old(rest)@, max, codec.bounds()));
    if let Ok(Some(f)) = first {
        assert(views =~= seq![f@] + rest_views);
        assert(views[0] == final(out)@[0]@);
        assert forall|i: int| 0 <= i < final(rest_out)@.len() implies (
        #[trigger] final(out)@[i + 1])@ == final(rest_out)@[i]@ by {
            assert(views[i + 1] == rest_views[i]);
        }
    }
}

/// Scanning a buffer of data frames finds what reading it finds, without taking anything out.
pub proof fn law_scan_finds_what_is_read(
    codec: &TunnelCodec,
    buf: &[u8],
    scanned: &mut Vec<ZeroCopyFrame<'_>>,
    a: Result<usize, CodecError>,
    src: &mut Vec<u8>,
    out: &mut Vec<Frame>,
    b: Result<usize, CodecError>,
)
    requires
        old(scanned)@.len() == 0,
        old(out)@.len() == 0,
        old(src)@ == buf@,
        call_ensures(TunnelCodec::decode_data_frames_zerocopy, (codec, buf, scanned), a),
        call_ensures(TunnelCodec::decode_batch, (codec, src, out), b),
        only_data(buf@, codec.max_size() as nat),
    ensures
        a is Ok <==> b is Ok,
        a is Ok ==> a->Ok_0 == b->Ok_0,
        final(scanned)@.len() == final(out)@.len(),
        forall|i: int|
            0 <= i < final(out)@.len() ==> (#[trigger] final(scanned)@[i])@ == final(out)@[i]@,
{
    law_scan_agrees_with_batch(buf@, codec.max_size() as nat, codec.bounds());
    let left = zero_copy_views(final(scanned)@);
    let right = frame_views(final(out)@);
    assert(zero_copy_views(old(scanned)@) =~= Seq::empty());
    assert(frame_views(old(out)@) =~= Seq::empty());
    assert(left =~= right);
    assert(left.len() == final(scanned)@.len());
    assert(right.len() == final(out)@.len());
    assert forall|i: int| 0 <= i < final(out)@.len() implies (#[trigger] final(scanned)@[i])@
        == final(out)@[i]@ by {
        assert(left[i] == right[i]);
    }
    if a is Ok {
        assert(buf@.skip(a->Ok_0 as int) == final(src)@);
        assert(buf@.skip(a->Ok_0 as int).len() == buf@.len() - a->Ok_0);
    }
}

/// A codec is held to the maximum that it was given, 16 MiB where it was given none, and one that
/// was made from limits to all of them.
pub proof fn law_codec_keeps_its_limits(
    new: TunnelCodec,
    max: usize,
    custom: TunnelCodec,
    limits: &LimitsConfig,
    limited: TunnelCodec,
    size: usize,
)
    requires
        1 <= max <= u32::MAX,
        1 <= limits.max_frame_bytes <= u32::MAX,
        call_ensures(TunnelCodec::new, (), new),
        call_ensures(TunnelCodec::with_max_frame_size, (max,), custom),
        call_ensures(TunnelCodec::from_limits, (limits,), limited),
        call_ensures(TunnelCodec::max_frame_size, (&custom,), size),
    ensures
        new.max_size() == 16 * 1024 * 1024,
        custom.max_size() == max,
        size == max,
        limited.max_size() == limits.max_frame_bytes,
        limited.bounds().max_token_len == limits.max_token_len,
        limited.bounds().max_capabilities == limits.max_capabilities,
        limited.bounds().max_capability_len == limits.max_capability_len,
        new.bounds().max_token_len == 256,
        new.bounds().max_capabilities == 32,
        new.bounds().max_capability_len == 64,
{
}

/// A scan passes over whole frames that are no data frames, finds a data frame with its stream, its
/// end and its bytes, and goes on behind either; it stops before a frame that is not whole, and fails
/// at a length of zero or beyond the maximum and at a data frame that is too short.
pub proof fn law_scan_goes_frame_by_frame(
    codec: &TunnelCodec,
    buf: &[u8],
    out: &mut Vec<ZeroCopyFrame<'_>>,
    r: Result<usize, CodecError>,
    rest: &[u8],
    rest_out: &mut Vec<ZeroCopyFrame<'_>>,
    rest_r: Result<usize, CodecError>,
)
    requires
        old(out)@.len() == 0,
        old(rest_out)@.len() == 0,
        call_ensures(TunnelCodec::decode_data_frames_zerocopy, (codec, buf, out), r),
        call_ensures(TunnelCodec::decode_data_frames_zerocopy, (codec, rest, rest_out), rest_r),
        ({
            let b = buf@;
            let n = b[0] as int * 0x100_0000 + b[1] as int * 0x1_0000 + b[2] as int * 0x100
                + b[3] as int;
            b.len() >= 5 && 0 < n <= codec.max_size() && b.len() >= n + 4 ==> rest@ == b.skip(n + 4)
        }),
    ensures
        ({
            let b = buf@;
            let n = b[0] as int * 0x100_0000 + b[1] as int * 0x1_0000 + b[2] as int * 0x100
                + b[3] as int;
            let whole = b.len() >= 5 && 0 < n <= codec.max_size() && b.len() >= n + 4;
            &&& b.len() < 5 ==> r == Ok::<usize, CodecError>(0) && final(out)@.len() == 0
            &&& b.len() >= 5 && (n == 0 || n > codec.max_size()) ==> r == Err::<usize, CodecError>(
                CodecError::InvalidLength { length: n as usize },
            )
            &&& b.len() >= 5 && 0 < n <= codec.max_size() && b.len() < n + 4 ==> r == Ok::<
                usize,
                CodecError,
            >(0)
            &&& whole && b[4] == 1 && n < 6 ==> r == Err::<usize, CodecError>(
                CodecError::DataTooShort,
            )
            &&& whole && b[4] != 1 ==> {
                &&& final(out)@.len() == final(rest_out)@.len()
                &&& forall|i: int|
                    0 <= i < final(out)@.len() ==> (#[trigger] final(out)@[i])@
                        == final(rest_out)@[i]@
                &&& r is Ok <==> rest_r is Ok
                &&& r is Ok ==> r->Ok_0 == n + 4 + rest_r->Ok_0
            }
            &&& whole && b[4] == 1 && n >= 6 ==> {
                &&& final(out)@.len() == final(rest_out)@.len() + 1
                &&& final(out)@[0]@ is Data
                &&& final(out)@[0]@->Data_stream_id as int == b[5] as int * 0x100_0000 + b[6] as int
                    * 0x1_0000 + b[7] as int * 0x100 + b[8] as int
                &&& final(out)@[0]@->Data_end_of_stream <==> b[9] % 2 == 1
                &&& final(out)@[0]@->Data_data == b.subrange(10, n + 4)
                &&& forall|i: int|
                    0 <= i < final(rest_out)@.len() ==> (#[trigger] final(out)@[i + 1])@
                        == final(rest_out)@[i]@
                &&& r is Ok <==> rest_r is Ok
                &&& r is Ok ==> r->Ok_0 == n + 4 + rest_r->Ok_0
            }
        }),
{
    let b = buf@;
    let n = be32(b) as int;
    let max = codec.max_size() as nat;
    let views = zero_copy_views(final(out)@);
    let rest_views = zero_copy_views(final(rest_out)@);
    assert(zero_copy_views(old(out)@) =~= Seq::empty());
    assert(zero_copy_views(old(rest_out)@) =~= Seq::empty());
    assert(views =~= scanned_frames(b, max));
    assert(rest_views =~= scanned_frames(rest@, max));
    assert(views.len() == final(out)@.len());
    assert(rest_views.len() == final(rest_out)@.len());
    if r is Ok {
        assert(b.skip(r->Ok_0 as int).len() == b.len() - r->Ok_0);
    }
    if rest_r is Ok {
        assert(rest@.skip(rest_r->Ok_0 as int).len() == rest@.len() - rest_r->Ok_0);
    }
    if b.len() >= 5 && 0 < n <= max && b.len() >= n + 4 {
        let payload = b.subrange(5, 4 + n);
        if b[4] == 1 && n >= 6 {
            assert(payload[0] == b[5] && payload[1] == b[6] && payload[2] == b[7] && payload[3]
                == b[8] && payload[4] == b[9]);
            assert(payload.skip(5) =~= b.subrange(10, n + 4));
            let frame = parse_data(payload)->0;
            assert(views =~= seq![frame] + rest_views);
            assert(views[0] == final(out)@[0]@);
            assert forall|i: int| 0 <= i < final(rest_out)@.len() implies (
            #[trigger] final(out)@[i + 1])@ == final(rest_out)@[i]@ by {
                assert(views[i + 1] == rest_views[i]);
            }
        } else if b[4] != 1 {
            assert(views =~= rest_views);
            assert forall|i: int| 0 <= i < final(out)@.len() implies (#[trigger] final(out)@[i])@
                == final(rest_out)@[i]@ by {
                assert(views[i] == rest_views[i]);
            }
        }
    }
}

/// Errors are told in words that name the number at fault.
pub proof fn law_codec_errors_are_told(
    error: CodecError,
    r: String,
    n: u64,
    number: String,
    max: u64,
    bound: String,
)
    requires
        call_ensures(CodecError::message, (error,), r),
        call_ensures(crate::text::decimal, (n,), number),
        call_ensures(crate::text::decimal, (max,), bound),
    ensures
        error is EmptyFrame ==> r@ == "Frame length must be at least 1 byte"@,
        error is DataTooShort ==> r@ == "Data frame payload too short"@,
        error matches CodecError::TooLarge { length, max: m } ==> length == n && m == max ==> r@
            == "Frame too large: "@ + number@ + " bytes (max: "@ + bound@ + ")"@,
        error matches CodecError::InvalidLength { length } ==> length == n ==> r@
            == "Invalid frame length: "@ + number@,
        error matches CodecError::Malformed(words) ==> r@ == "Decode error: "@ + words@,
        error matches CodecError::UnknownType(kind) ==> kind == n ==> r@ == "Unknown frame type: "@
            + number@,
{
}

/// Every buffer can be read and every frame written.
pub proof fn law_any_bytes_can_be_read(
    codec: &TunnelCodec,
    src: &mut Vec<u8>,
    frame: &Frame,
    out: &mut Vec<Frame>,
    bytes: &[u8],
)
    ensures
        call_requires(TunnelCodec::decode, (codec, src)),
        call_requires(TunnelCodec::encode, (codec, frame, src)),
        call_requires(TunnelCodec::decode_batch, (codec, src, out)),
        call_requires(decode_control, (bytes,)),
        call_requires(encode_control, (frame,)),
{
}

} // verus!
