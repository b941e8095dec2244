//! The binary form in which creation events travel to local subscribers.
//!
//! A frame is a little-endian 32-bit length followed by that many bytes of
//! payload. The payload holds the fields of the event in declared order: each
//! text as a little-endian 64-bit length and its UTF-8 bytes, the slot as
//! eight little-endian bytes, the version flag as one byte.

use vstd::prelude::*;
use vstd::bytes::*;
use vstd::slice::*;
use vstd::utf8::*;
use crate::extract::option_record;
use crate::record::{CreateRecord, CreateTransaction};
use crate::text::string_from_utf8;

verus! {

/// A text on the wire: its length in bytes, then its UTF-8 bytes.
pub open spec fn encoded_text(text: Seq<char>) -> Seq<u8> {
    spec_u64_to_le_bytes(encode_utf8(text).len() as u64) + encode_utf8(text)
}

/// A flag on the wire: one byte, 1 for true and 0 for false.
pub open spec fn encoded_flag(flag: bool) -> Seq<u8> {
    seq![if flag { 1u8 } else { 0u8 }]
}

/// The payload that carries a creation event.
pub open spec fn record_payload(record: CreateRecord) -> Seq<u8> {
    encoded_text(record.signature) + encoded_text(record.mint_address) + encoded_text(
        record.creator_address,
    ) + spec_u64_to_le_bytes(record.slot) + encoded_flag(record.is_create_v2)
}

/// A payload behind its length.
pub open spec fn frame_of(payload: Seq<u8>) -> Seq<u8> {
    spec_u32_to_le_bytes(payload.len() as u32) + payload
}

/// A text whose length in bytes fits the length field of the wire form.
pub open spec fn text_fits(text: Seq<char>) -> bool {
    encode_utf8(text).len() <= u64::MAX
}

/// An event all of whose texts fit the wire form.
pub open spec fn encodable(record: CreateRecord) -> bool {
    &&& text_fits(record.signature)
    &&& text_fits(record.mint_address)
    &&& text_fits(record.creator_address)
}

/// `bytes` is the payload of `record`.
pub open spec fn is_payload_of(bytes: Seq<u8>, record: CreateRecord) -> bool {
    encodable(record) && record_payload(record) == bytes
}

/// The event that a payload carries, if the bytes are the payload of one.
pub open spec fn decoded_record(bytes: Seq<u8>) -> Option<CreateRecord> {
    if exists|record: CreateRecord| is_payload_of(bytes, record) {
        Some(choose|record: CreateRecord| is_payload_of(bytes, record))
    } else {
        None
    }
}

/// `bytes` begins with the frame of `record`.
pub open spec fn starts_with_frame_of(bytes: Seq<u8>, record: CreateRecord) -> bool {
    let frame = frame_of(record_payload(record));
    &&& encodable(record)
    &&& record_payload(record).len() <= u32::MAX
    &&& frame.len() <= bytes.len()
    &&& bytes.subrange(0, frame.len() as int) == frame
}

/// The event whose frame a byte stream begins with, and the length of that
/// frame, if the stream begins with a frame at all.
pub open spec fn decoded_frame(bytes: Seq<u8>) -> Option<(CreateRecord, nat)> {
    if exists|record: CreateRecord| starts_with_frame_of(bytes, record) {
        let record = choose|record: CreateRecord| starts_with_frame_of(bytes, record);
        Some((record, frame_of(record_payload(record)).len()))
    } else {
        None
    }
}

/// Reads a text off the front of `bytes`: the text and what follows it.
spec fn take_text(bytes: Seq<u8>) -> Option<(Seq<char>, Seq<u8>)> {
    if bytes.len() < 8 {
        None
    } else {
        let len = spec_u64_from_le_bytes(bytes.subrange(0, 8)) as int;
        if len > bytes.len() - 8 {
            None
        } else {
            let body = bytes.subrange(8, 8 + len);
            if valid_utf8(body) {
                Some((decode_utf8(body), bytes.subrange(8 + len, bytes.len() as int)))
            } else {
                None
            }
        }
    }
}

/// Reads a payload field by field, and wants nothing left over.
spec fn parse_record(bytes: Seq<u8>) -> Option<CreateRecord> {
    match take_text(bytes) {
        Some((signature, after_signature)) => match take_text(after_signature) {
            Some((mint_address, after_mint)) => match take_text(after_mint) {
                Some((creator_address, tail)) => if tail.len() == 9 && tail[8] <= 1 {
                    Some(
                        CreateRecord {
                            signature,
                            mint_address,
                            creator_address,
                            slot: spec_u64_from_le_bytes(tail.subrange(0, 8)),
                            is_create_v2: tail[8] == 1,
                        },
                    )
                } else {
                    None
                },
                None => None,
            },
            None => None,
        },
        None => None,
    }
}

/// Reads a frame off the front of `bytes`: the event and the frame's length.
spec fn parse_frame(bytes: Seq<u8>) -> Option<(CreateRecord, nat)> {
    if bytes.len() < 4 {
        None
    } else {
        let len = spec_u32_from_le_bytes(bytes.subrange(0, 4)) as int;
        if len > bytes.len() - 4 {
            None
        } else {
            match parse_record(bytes.subrange(4, 4 + len)) {
                Some(record) => Some((record, (4 + len) as nat)),
                None => None,
            }
        }
    }
}

proof fn lemma_take_text_reads_encoded(text: Seq<char>, rest: Seq<u8>)
    requires
        text_fits(text),
    ensures
        take_text(encoded_text(text) + rest) == Some((text, rest)),
{
    lemma_auto_spec_u64_to_from_le_bytes();
    encode_utf8_valid_utf8(text);
    encode_utf8_decode_utf8(text);
    let body = encode_utf8(text);
    let head = spec_u64_to_le_bytes(body.len() as u64);
    let bytes = encoded_text(text) + rest;
    assert(bytes.subrange(0, 8) == head);
    assert(bytes.subrange(8, 8 + body.len() as int) == body);
    assert(bytes.subrange(8 + body.len() as int, bytes.len() as int) == rest);
}

proof fn lemma_take_text_read_is_encoded(bytes: Seq<u8>)
    ensures
        take_text(bytes) matches Some((text, rest)) ==> text_fits(text) && bytes == encoded_text(
            text,
        ) + rest,
{
    if let Some((text, rest)) = take_text(bytes) {
        lemma_auto_spec_u64_to_from_le_bytes();
        let head = bytes.subrange(0, 8);
        let len = spec_u64_from_le_bytes(head) as int;
        let body = bytes.subrange(8, 8 + len);
        decode_utf8_encode_utf8(body);
        assert(spec_u64_to_le_bytes(spec_u64_from_le_bytes(head)) == head);
        assert(bytes == head + body + rest);
    }
}

proof fn lemma_parse_record_reads_payload(record: CreateRecord)
    requires
        encodable(record),
    ensures
        parse_record(record_payload(record)) == Some(record),
{
    lemma_auto_spec_u64_to_from_le_bytes();
    let slot = spec_u64_to_le_bytes(record.slot);
    let tail = slot + encoded_flag(record.is_create_v2);
    let after_mint = encoded_text(record.creator_address) + tail;
    let after_signature = encoded_text(record.mint_address) + after_mint;
    assert(record_payload(record) == encoded_text(record.signature) + after_signature);
    lemma_take_text_reads_encoded(record.signature, after_signature);
    lemma_take_text_reads_encoded(record.mint_address, after_mint);
    lemma_take_text_reads_encoded(record.creator_address, tail);
    assert(tail.subrange(0, 8) == slot);
}

proof fn lemma_parse_record_read_is_payload(bytes: Seq<u8>)
    ensures
        parse_record(bytes) matches Some(record) ==> is_payload_of(bytes, record),
{
    if let Some(record) = parse_record(bytes) {
        lemma_auto_spec_u64_to_from_le_bytes();
        lemma_take_text_read_is_encoded(bytes);
        let after_signature = take_text(bytes).unwrap().1;
        lemma_take_text_read_is_encoded(after_signature);
        let after_mint = take_text(after_signature).unwrap().1;
        lemma_take_text_read_is_encoded(after_mint);
        let tail = take_text(after_mint).unwrap().1;
        let slot = tail.subrange(0, 8);
        assert(spec_u64_to_le_bytes(spec_u64_from_le_bytes(slot)) == slot);
        assert(tail == slot + encoded_flag(record.is_create_v2));
        assert(record_payload(record) == encoded_text(record.signature) + (encoded_text(
            record.mint_address,
        ) + (encoded_text(record.creator_address) + tail)));
    }
}

proof fn lemma_decoded_record_is_parsed(bytes: Seq<u8>)
    ensures
        decoded_record(bytes) == parse_record(bytes),
{
    lemma_parse_record_read_is_payload(bytes);
    if exists|record: CreateRecord| is_payload_of(bytes, record) {
        let record = choose|record: CreateRecord| is_payload_of(bytes, record);
        lemma_parse_record_reads_payload(record);
    }
}

proof fn lemma_parse_frame_reads_frame(bytes: Seq<u8>, record: CreateRecord)
    requires
        starts_with_frame_of(bytes, record),
    ensures
        parse_frame(bytes) == Some((record, frame_of(record_payload(record)).len())),
{
    lemma_auto_spec_u32_to_from_le_bytes();
    let payload = record_payload(record);
    let frame = frame_of(payload);
    assert(bytes.subrange(0, 4) == frame.subrange(0, 4));
    assert(frame.subrange(0, 4) == spec_u32_to_le_bytes(payload.len() as u32));
    assert(bytes.subrange(4, 4 + payload.len() as int) == frame.subrange(
        4,
        4 + payload.len() as int,
    ));
    assert(frame.subrange(4, 4 + payload.len() as int) == payload);
    lemma_parse_record_reads_payload(record);
}

proof fn lemma_parse_frame_read_is_frame(bytes: Seq<u8>)
    ensures
        parse_frame(bytes) matches Some((record, used)) ==> starts_with_frame_of(bytes, record)
            && used == frame_of(record_payload(record)).len(),
{
    if let Some((record, used)) = parse_frame(bytes) {
        lemma_auto_spec_u32_to_from_le_bytes();
        let head = bytes.subrange(0, 4);
        let len = spec_u32_from_le_bytes(head) as int;
        let payload = bytes.subrange(4, 4 + len);
        lemma_parse_record_read_is_payload(payload);
        assert(spec_u32_to_le_bytes(spec_u32_from_le_bytes(head)) == head);
        assert(bytes.subrange(0, 4 + len) == head + payload);
    }
}

proof fn lemma_decoded_frame_is_parsed(bytes: Seq<u8>)
    ensures
        decoded_frame(bytes) == parse_frame(bytes),
{
    lemma_parse_frame_read_is_frame(bytes);
    if exists|record: CreateRecord| starts_with_frame_of(bytes, record) {
        let record = choose|record: CreateRecord| starts_with_frame_of(bytes, record);
        lemma_parse_frame_reads_frame(bytes, record);
    }
}

/// Decoding the payload of an event gives the event back, field for field.
pub proof fn lemma_payload_round_trip(record: CreateRecord)
    requires
        encodable(record),
    ensures
        decoded_record(record_payload(record)) == Some(record),
{
    lemma_parse_record_reads_payload(record);
    lemma_decoded_record_is_parsed(record_payload(record));
}

/// Decoding a byte stream that begins with the frame of an event gives the
/// event back, field for field, and the length of its frame, whatever follows.
pub proof fn lemma_frame_round_trip(record: CreateRecord, rest: Seq<u8>)
    requires
        encodable(record),
        record_payload(record).len() <= u32::MAX,
    ensures
        decoded_frame(frame_of(record_payload(record)) + rest) == Some(
            (record, frame_of(record_payload(record)).len()),
        ),
{
    let frame = frame_of(record_payload(record));
    let bytes = frame + rest;
    assert(bytes.subrange(0, frame.len() as int) == frame);
    lemma_parse_frame_reads_frame(bytes, record);
    lemma_decoded_frame_is_parsed(bytes);
}

/// Two events with the same payload are the same event.
pub proof fn lemma_payload_determines_record(first: CreateRecord, second: CreateRecord)
    requires
        encodable(first),
        encodable(second),
        record_payload(first) == record_payload(second),
    ensures
        first == second,
{
    lemma_parse_record_reads_payload(first);
    lemma_parse_record_reads_payload(second);
}

/// Why an event could not be put on the wire.
#[derive(Debug, Clone, Copy, PartialEq, Eq)]
pub enum WireError {
    /// The serialiser gave an error.
    Serialize,
    /// The payload is longer than a frame's length field can say.
    TooLong,
}

/// The error of `bincode`, carried through unread.
#[verifier::external_type_specification]
#[verifier::external_body]
pub struct ExBincodeErrorKind(bincode::ErrorKind);

/// Whether `bincode` serialises the event without error.
pub uninterp spec fn bincode_accepts(record: CreateRecord) -> bool;

/// The frame that carries an event, where the serialiser accepts the event
/// and the payload is no longer than a frame's length field can say.
pub open spec fn frame_for(record: CreateRecord) -> Option<Seq<u8>> {
    if bincode_accepts(record) && record_payload(record).len() <= u32::MAX {
        Some(frame_of(record_payload(record)))
    } else {
        None
    }
}

/// Calls `bincode::serialize` on the fields of the event, as one tuple in
/// declared order.
///
/// Trusted: whether the call succeeds depends on the event alone, and is
/// named `bincode_accepts`. Where it succeeds, the bytes are the fields one
/// after the other with nothing between or around them, in the fixed-width
/// little-endian form of the configuration that `bincode::serialize` uses: a
/// text as its byte length in eight bytes and its UTF-8 bytes, the slot in
/// eight bytes, the flag as one byte, 1 or 0.
#[verifier::external_body]
fn bincode_serialize(record: &CreateTransaction) -> (out: Result<Vec<u8>, Box<bincode::ErrorKind>>)
    ensures
        out is Ok <==> bincode_accepts(record@),
        out matches Ok(bytes) ==> bytes@ == record_payload(record@),
{
    bincode::serialize(
        &(
            &record.signature,
            &record.mint_address,
            &record.creator_address,
            record.slot,
            record.is_create_v2,
        ),
    )
}

/// Serialises an event into its payload.
pub fn serialize_record(record: &CreateTransaction) -> (out: Result<Vec<u8>, WireError>)
    ensures
        match out {
            Ok(payload) => bincode_accepts(record@) && payload@ == record_payload(record@),
            Err(error) => !bincode_accepts(record@) && error == WireError::Serialize,
        },
{
    match bincode_serialize(record) {
        Ok(payload) => Ok(payload),
        Err(_) => Err(WireError::Serialize),
    }
}

/// Puts a payload behind its length.
pub fn frame_payload(payload: Vec<u8>) -> (out: Result<Vec<u8>, WireError>)
    ensures
        match out {
            Ok(frame) => payload@.len() <= u32::MAX && frame@ == frame_of(payload@),
            Err(error) => payload@.len() > u32::MAX && error == WireError::TooLong,
        },
{
    if payload.len() > u32::MAX as usize {
        return Err(WireError::TooLong);
    }
    let mut payload = payload;
    let mut frame = u32_to_le_bytes(payload.len() as u32);
    frame.append(&mut payload);
    Ok(frame)
}

/// Builds the frame that carries an event. Decoding the frame gives the
/// event back.
pub fn encode_frame(record: &CreateTransaction) -> (out: Result<Vec<u8>, WireError>)
    ensures
        match out {
            Ok(frame) => {
                &&& frame_for(record@) == Some(frame@)
                &&& decoded_frame(frame@) == Some((record@, frame@.len()))
            },
            Err(WireError::Serialize) => !bincode_accepts(record@),
            Err(WireError::TooLong) => bincode_accepts(record@) && record_payload(record@).len()
                > u32::MAX,
        },
{
    match serialize_record(record) {
        Ok(payload) => {
            proof {
                lemma_auto_spec_u64_to_from_le_bytes();
                if payload@.len() <= u32::MAX {
                    let frame = frame_of(payload@);
                    assert(frame + Seq::<u8>::empty() == frame);
                    lemma_frame_round_trip(record@, Seq::empty());
                }
            }
            frame_payload(payload)
        },
        Err(error) => Err(error),
    }
}

/// Reads a text that begins at `at`: the text and where the next field
/// begins.
fn read_text(bytes: &[u8], at: usize) -> (out: Option<(String, usize)>)
    requires
        at <= bytes@.len(),
    ensures
        match out {
            Some((text, next)) => {
                &&& at <= next <= bytes@.len()
                &&& take_text(bytes@.subrange(at as int, bytes@.len() as int)) == Some(
                    (text@, bytes@.subrange(next as int, bytes@.len() as int)),
                )
            },
            None => take_text(bytes@.subrange(at as int, bytes@.len() as int)) is None,
        },
{
    let ghost field = bytes@.subrange(at as int, bytes@.len() as int);
    let left = bytes.len() - at;
    if left < 8 {
        return None;
    }
    let head = slice_subrange(bytes, at, at + 8);
    assert(head@ == field.subrange(0, 8));
    let len = u64_from_le_bytes(head);
    if len > (left - 8) as u64 {
        return None;
    }
    let start = at + 8;
    let next = start + len as usize;
    let body = slice_subrange(bytes, start, next);
    assert(body@ == field.subrange(8, 8 + len as int));
    assert(bytes@.subrange(next as int, bytes@.len() as int) == field.subrange(
        8 + len as int,
        field.len() as int,
    ));
    match string_from_utf8(slice_to_vec(body)) {
        Ok(text) => {
            proof {
                encode_utf8_decode_utf8(text@);
            }
            Some((text, next))
        },
        Err(_) => None,
    }
}

/// Decodes the payload of an event.
pub fn decode_record(payload: &[u8]) -> (out: Option<CreateTransaction>)
    ensures
        option_record(out) == decoded_record(payload@),
{
    proof {
        lemma_decoded_record_is_parsed(payload@);
        assert(payload@.subrange(0, payload@.len() as int) == payload@);
    }
    let (signature, after_signature) = match read_text(payload, 0) {
        Some(read) => read,
        None => { return None; },
    };
    let (mint_address, after_mint) = match read_text(payload, after_signature) {
        Some(read) => read,
        None => { return None; },
    };
    let (creator_address, tail) = match read_text(payload, after_mint) {
        Some(read) => read,
        None => { return None; },
    };
    if payload.len() - tail != 9 {
        return None;
    }
    let ghost rest = payload@.subrange(tail as int, payload@.len() as int);
    let flag = payload[tail + 8];
    assert(flag == rest[8]);
    if flag > 1 {
        return None;
    }
    let head = slice_subrange(payload, tail, tail + 8);
    assert(head@ == rest.subrange(0, 8));
    let slot = u64_from_le_bytes(head);
    Some(
        CreateTransaction {
            signature,
            mint_address,
            creator_address,
            slot,
            is_create_v2: flag == 1,
        },
    )
}

/// Decodes the frame that a byte stream begins with: the event, and the
/// number of bytes that its frame takes.
pub fn decode_frame(bytes: &[u8]) -> (out: Option<(CreateTransaction, usize)>)
    ensures
        match out {
            Some((record, used)) => decoded_frame(bytes@) == Some((record@, used as nat)),
            None => decoded_frame(bytes@) is None,
        },
{
    proof {
        lemma_decoded_frame_is_parsed(bytes@);
    }
    if bytes.len() < 4 {
        return None;
    }
    let len = u32_from_le_bytes(slice_subrange(bytes, 0, 4));
    if len as u64 > (bytes.len() - 4) as u64 {
        return None;
    }
    let used = 4 + len as usize;
    let payload = slice_subrange(bytes, 4, used);
    proof {
        lemma_decoded_record_is_parsed(payload@);
    }
    match decode_record(payload) {
        Some(record) => Some((record, used)),
        None => None,
    }
}

} // verus!
