//! SysEx framing of JSON envelopes: `F0 7D <7-bit JSON bytes> F7`.
//!
//! `0x7D` is the manufacturer ID reserved for non-commercial and
//! development use. The JSON text must be 7-bit ASCII, since SysEx data
//! bytes may not have their high bit set.
use vstd::prelude::*;
use crate::json::{Json, JsonView};
use crate::json_parse::{parse_json_bytes, parsed_json, plain_json};
use crate::json_text::{ascii_json, json_text, seven_bit, to_json_text};

verus! {

/// First byte of every SysEx message.
pub const SYSEX_START: u8 = 0xF0;

/// Last byte of every SysEx message.
pub const SYSEX_END: u8 = 0xF7;

/// The non-commercial manufacturer ID that follows the start byte.
pub const MANUFACTURER_ID: u8 = 0x7D;

/// Why a payload could not be framed, or a message could not be unframed.
#[derive(Debug, Clone, Copy, PartialEq, Eq, Structural)]
pub enum FrameError {
    /// The payload holds a byte with its high bit set.
    NonSevenBit,
    /// The message is shorter than start byte, manufacturer ID and end byte.
    TooShort,
    /// The message does not start with `F0` or does not end with `F7`.
    InvalidFraming,
    /// The byte after `F0` is not the manufacturer ID `7D`.
    UnexpectedManufacturer,
}

impl FrameError {
    /// The human-readable message for this error.
    pub fn message(&self) -> (r: String)
        ensures
            r@ == frame_error_text(*self),
    {
        match self {
            FrameError::NonSevenBit => "JSON contains non-7bit bytes; base64 or escaping is required for SysEx".to_owned(),
            FrameError::TooShort => "SysEx too short".to_owned(),
            FrameError::InvalidFraming => "Invalid SysEx framing".to_owned(),
            FrameError::UnexpectedManufacturer => "Unexpected manufacturer ID".to_owned(),
        }
    }
}

/// The message text of each framing error.
pub open spec fn frame_error_text(e: FrameError) -> Seq<char> {
    match e {
        FrameError::NonSevenBit => "JSON contains non-7bit bytes; base64 or escaping is required for SysEx"@,
        FrameError::TooShort => "SysEx too short"@,
        FrameError::InvalidFraming => "Invalid SysEx framing"@,
        FrameError::UnexpectedManufacturer => "Unexpected manufacturer ID"@,
    }
}

/// The SysEx message that carries `p`.
pub open spec fn frame(p: Seq<u8>) -> Seq<u8> {
    seq![SYSEX_START, MANUFACTURER_ID] + p + seq![SYSEX_END]
}

/// Framing `p`: refused exactly when `p` is not 7-bit clean.
pub open spec fn spec_frame_payload(p: Seq<u8>) -> Result<Seq<u8>, FrameError> {
    if seven_bit(p) {
        Ok(frame(p))
    } else {
        Err(FrameError::NonSevenBit)
    }
}

/// Unframing `d`, with the checks in the order the decoder makes them.
pub open spec fn spec_decode(d: Seq<u8>) -> Result<Seq<u8>, FrameError> {
    if d.len() < 3 {
        Err(FrameError::TooShort)
    } else if d[0] != SYSEX_START || d.last() != SYSEX_END {
        Err(FrameError::InvalidFraming)
    } else if d[1] != MANUFACTURER_ID {
        Err(FrameError::UnexpectedManufacturer)
    } else {
        Ok(d.subrange(2, d.len() - 1))
    }
}

/// `r` is the executable form of the model result `s`.
pub open spec fn bytes_result_is(r: Result<Vec<u8>, FrameError>, s: Result<Seq<u8>, FrameError>) -> bool {
    match (r, s) {
        (Ok(v), Ok(w)) => v@ == w,
        (Err(e), Err(f)) => e == f,
        _ => false,
    }
}

/// Frames a JSON payload as a SysEx message, refusing bytes at or above `0x80`.
pub fn frame_payload(payload: &[u8]) -> (r: Result<Vec<u8>, FrameError>)
    ensures
        bytes_result_is(r, spec_frame_payload(payload@)),
{
    let n = payload.len();
    let mut i: usize = 0;
    while i < n
        invariant
            n == payload@.len(),
            0 <= i <= n,
            forall|j: int| 0 <= j < i ==> #[trigger] payload@[j] < 0x80,
        decreases n - i,
    {
        if payload[i] >= 0x80 {
            return Err(FrameError::NonSevenBit);
        }
        i = i + 1;
    }
    let mut out: Vec<u8> = Vec::new();
    out.push(SYSEX_START);
    out.push(MANUFACTURER_ID);
    let mut k: usize = 0;
    while k < n
        invariant
            n == payload@.len(),
            0 <= k <= n,
            out@ == seq![SYSEX_START, MANUFACTURER_ID] + payload@.subrange(0, k as int),
        decreases n - k,
    {
        out.push(payload[k]);
        proof {
            assert(payload@.subrange(0, k + 1) =~= payload@.subrange(0, k as int).push(payload@[k as int]));
        }
        k = k + 1;
    }
    out.push(SYSEX_END);
    proof {
        assert(payload@.subrange(0, n as int) =~= payload@);
        assert(out@ =~= frame(payload@));
    }
    Ok(out)
}

/// Checks the framing of a SysEx message and returns its payload, the
/// bytes between the manufacturer ID and the end byte.
pub fn unframe(data: &[u8]) -> (r: Result<Vec<u8>, FrameError>)
    ensures
        bytes_result_is(r, spec_decode(data@)),
{
    let n = data.len();
    if n < 3 {
        return Err(FrameError::TooShort);
    }
    if data[0] != SYSEX_START || data[n - 1] != SYSEX_END {
        return Err(FrameError::InvalidFraming);
    }
    if data[1] != MANUFACTURER_ID {
        return Err(FrameError::UnexpectedManufacturer);
    }
    let mut out: Vec<u8> = Vec::new();
    let mut k: usize = 2;
    while k < n - 1
        invariant
            n == data@.len(),
            n >= 3,
            2 <= k <= n - 1,
            out@ == data@.subrange(2, k as int),
        decreases n - 1 - k,
    {
        out.push(data[k]);
        proof {
            assert(data@.subrange(2, k + 1) =~= data@.subrange(2, k as int).push(data@[k as int]));
        }
        k = k + 1;
    }
    Ok(out)
}

/// Why a SysEx message could not be decoded into a JSON value.
#[derive(Debug, Clone, Copy, PartialEq, Eq, Structural)]
pub enum DecodeError {
    /// The framing is wrong (see [`FrameError`]).
    Frame(FrameError),
    /// The payload is not one JSON value.
    InvalidJson,
}

impl DecodeError {
    /// The human-readable message for this error.
    pub fn message(&self) -> (r: String)
        ensures
            r@ == match *self {
                DecodeError::Frame(e) => frame_error_text(e),
                DecodeError::InvalidJson => "SysEx payload is not valid JSON"@,
            },
    {
        match self {
            DecodeError::Frame(e) => e.message(),
            DecodeError::InvalidJson => "SysEx payload is not valid JSON".to_owned(),
        }
    }
}

/// Decodes a SysEx message `F0 7D <JSON> F7` into the JSON value it
/// carries: the framing is checked first (too short, then start and end
/// bytes, then manufacturer ID), then the payload is read as JSON.
///
/// A message that frames the compact JSON text of a plain value decodes
/// to that value, so decoding gives back what [`encode`] framed.
pub fn decode(data: &[u8]) -> (r: Result<Json, DecodeError>)
    ensures
        match spec_decode(data@) {
            Err(e) => r == Err::<Json, DecodeError>(DecodeError::Frame(e)),
            Ok(p) => match parsed_json(p) {
                Some(v) => r matches Ok(j) && j@ == v,
                None => r == Err::<Json, DecodeError>(DecodeError::InvalidJson),
            },
        },
        data@.len() == 3 ==> r is Err,
        forall|v: JsonView| plain_json(v) && data@ == #[trigger] frame(json_text(v)) ==> (r matches Ok(j) && j@ == v),
{
    match unframe(data) {
        Err(e) => Err(DecodeError::Frame(e)),
        Ok(payload) => {
            let parsed = parse_json_bytes(payload.as_slice());
            proof {
                assert forall|v: JsonView| plain_json(v) && data@ == #[trigger] frame(json_text(v)) implies (parsed matches Some(j) && j@ == v) by {
                    lemma_unframe_frame(json_text(v));
                }
            }
            match parsed {
                Some(j) => Ok(j),
                None => Err(DecodeError::InvalidJson),
            }
        },
    }
}

/// Writes a value as compact JSON and frames it as `F0 7D <JSON> F7`.
///
/// A value whose text holds a byte at or above `0x80` (such as a
/// non-ASCII track name) is refused with [`FrameError::NonSevenBit`].
pub fn encode(json: &Json) -> (r: Result<Vec<u8>, FrameError>)
    ensures
        r is Ok <==> seven_bit(json_text(json@)),
        r is Ok <==> ascii_json(json@),
        r matches Ok(f) ==> f@ == frame(json_text(json@)),
        r matches Err(e) ==> e == FrameError::NonSevenBit,
{
    let text = to_json_text(json);
    frame_payload(text.as_slice())
}

/// Unframing gives back every payload that was framed.
pub proof fn lemma_unframe_frame(p: Seq<u8>)
    ensures
        spec_decode(frame(p)) == Ok::<Seq<u8>, FrameError>(p),
{
    let d = frame(p);
    assert(d.subrange(2, d.len() - 1) =~= p);
}

/// Decoding an encoded value gives back exactly the value's JSON text.
pub proof fn law_decode_after_encode_json(v: JsonView)
    requires
        seven_bit(json_text(v)),
    ensures
        spec_frame_payload(json_text(v)) matches Ok(f) && spec_decode(f) == Ok::<Seq<u8>, FrameError>(json_text(v)),
{
    lemma_unframe_frame(json_text(v));
}

/// An encoded payload decodes to the same payload.
pub proof fn law_decode_after_encode(p: Seq<u8>)
    requires
        seven_bit(p),
    ensures
        spec_frame_payload(p) matches Ok(f) && spec_decode(f) == Ok::<Seq<u8>, FrameError>(p),
{
    lemma_unframe_frame(p);
}

/// A well-framed message whose payload is 7-bit clean is exactly what
/// encoding that payload produces.
pub proof fn law_encode_after_decode(d: Seq<u8>)
    requires
        spec_decode(d) is Ok,
        seven_bit(spec_decode(d)->Ok_0),
    ensures
        spec_frame_payload(spec_decode(d)->Ok_0) == Ok::<Seq<u8>, FrameError>(d),
{
    let p = spec_decode(d)->Ok_0;
    assert(frame(p) =~= d);
}

/// Framing adds exactly three bytes, and every byte between the start and
/// end bytes of a frame is a valid data byte.
pub proof fn law_frame_shape(p: Seq<u8>)
    requires
        spec_frame_payload(p) is Ok,
    ensures
        spec_frame_payload(p)->Ok_0.len() == p.len() + 3,
        seven_bit(spec_frame_payload(p)->Ok_0.subrange(1, p.len() + 2int)),
{
    let f = frame(p);
    assert forall|i: int| 0 <= i < f.subrange(1, p.len() + 2int).len() implies #[trigger] f.subrange(1, p.len() + 2int)[i] < 0x80 by {
        if i > 0 {
            assert(f.subrange(1, p.len() + 2int)[i] == p[i - 1]);
        }
    }
}

} // verus!
