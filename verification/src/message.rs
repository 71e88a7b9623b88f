//! The message codec: parsing a received frame line into a validated
//! `Message`, and rendering a `Message` back into a frame line.

use vstd::prelude::*;
use vstd::string::*;

use crate::numbers::dec_i8;
use crate::numbers::hex_digits;
use crate::numbers::lemma_digits_have_no_comma;
use crate::numbers::lemma_parse_hex_u32_round_trip;
use crate::numbers::lemma_parse_i8_round_trip;
use crate::numbers::parse_hex_u32;
use crate::numbers::parse_i8;
use crate::numbers::spec_parse_hex_u32;
use crate::numbers::spec_parse_i8;
use crate::text::lemma_split_three;
use crate::text::parts_view;
use crate::text::spec_split;
use crate::text::split_str;

verus! {

/// One validated host-to-controller frame. A `Message` exists only after a
/// received line showed exactly three comma-separated fields and its
/// checksum matched its data.
pub struct Message {
    /// The logical routing channel; only channel 4 is acted on.
    pub channel: i8,
    /// The space-separated command tokens.
    pub data: String,
    /// The CRC-32 (IEEE) checksum of the data field's bytes.
    pub crc: u32,
}

/// The CRC-32 (IEEE) checksum of a string's bytes: a fixed function of the
/// characters alone.
pub uninterp spec fn crc32_of(s: Seq<char>) -> u32;

/// Relies on `crc32fast::hash`: the CRC-32 (IEEE) checksum of the string's
/// UTF-8 bytes, a function of the string's contents alone.
#[verifier::external_body]
fn crc32_str(s: &str) -> (r: u32)
    ensures
        r == crc32_of(s@),
{
    crc32fast::hash(s.as_bytes())
}

/// The fields of a frame line, before checksum verification: exactly three
/// comma-separated fields, with a signed decimal channel before the data and
/// a hexadecimal checksum after it.
pub open spec fn spec_parse_frame(line: Seq<char>) -> Option<(i8, Seq<char>, u32)> {
    let parts = spec_split(line, ',');
    if parts.len() == 3 {
        match (spec_parse_i8(parts[0]), spec_parse_hex_u32(parts[2])) {
            (Some(channel), Some(crc)) => Some((channel, parts[1], crc)),
            _ => None,
        }
    } else {
        None
    }
}

/// Whether a parsed frame passes checksum verification.
pub open spec fn frame_checksum_ok(frame: (i8, Seq<char>, u32)) -> bool {
    frame.2 == crc32_of(frame.1)
}

/// Parses one received line (trailing newline already removed) into a
/// validated `Message`. The line must split on commas into exactly three
/// fields — a signed 8-bit decimal channel, the data, and a 32-bit
/// hexadecimal checksum — and the checksum must equal the CRC-32 of the
/// data. Any other line yields no message and is discarded by the caller.
pub fn parse_to_message(line: String) -> (r: Option<Message>)
    ensures
        match r {
            Some(m) => spec_parse_frame(line@) == Some((m.channel, m.data@, m.crc))
                && frame_checksum_ok((m.channel, m.data@, m.crc)),
            None => spec_parse_frame(line@) is None || !frame_checksum_ok(
                spec_parse_frame(line@)->0,
            ),
        },
{
    let parts = split_str(line.as_str(), ',');
    proof {
        assert(parts_view(parts@).len() == parts@.len());
    }
    if parts.len() != 3 {
        return None;
    }
    proof {
        assert(parts_view(parts@)[0] == parts@[0]@);
        assert(parts_view(parts@)[1] == parts@[1]@);
        assert(parts_view(parts@)[2] == parts@[2]@);
    }
    let channel: i8 = match parse_i8(parts[0].as_str()) {
        Some(c) => c,
        None => {
            return None;
        },
    };
    let crc: u32 = match parse_hex_u32(parts[2].as_str()) {
        Some(c) => c,
        None => {
            return None;
        },
    };
    let data: String = parts[1].clone();
    if crc32_str(data.as_str()) != crc {
        return None;
    }
    Some(Message { channel, data, crc })
}

/// The frame line for a message: channel, data and hexadecimal checksum,
/// comma-separated.
pub open spec fn spec_serialize(channel: i8, data: Seq<char>, crc: u32) -> Seq<char> {
    dec_i8(channel) + seq![','] + data + seq![','] + hex_digits(crc as nat)
}

/// Renders a message as a frame line, without the trailing newline.
pub fn serialize_message(m: &Message) -> (r: String)
    ensures
        r@ == spec_serialize(m.channel, m.data@, m.crc),
{
    let mut r = crate::numbers::i8_to_dec(m.channel);
    r.append(",");
    r.append(m.data.as_str());
    r.append(",");
    let hex = crate::numbers::u32_to_hex(m.crc);
    r.append(hex.as_str());
    proof {
        reveal_strlit(",");
        assert(","@ =~= seq![',']);
        assert(r@ =~= spec_serialize(m.channel, m.data@, m.crc));
    }
    r
}

/// Builds a validated message for the given channel and data, computing the
/// checksum that `parse_to_message` demands.
pub fn message_from_data(channel: i8, data: String) -> (m: Message)
    ensures
        m.channel == channel,
        m.data@ == data@,
        m.crc == crc32_of(data@),
{
    let crc = crc32_str(data.as_str());
    Message { channel, data, crc }
}

/// Round trip: a message that can exist on the wire — its data holds no
/// comma, and its checksum is the CRC-32 of its data — comes back unchanged
/// when its frame line is parsed again.
pub proof fn lemma_parse_serialize_round_trip(channel: i8, data: Seq<char>, crc: u32)
    requires
        forall|k: int| 0 <= k < data.len() ==> data[k] != ',',
        crc == crc32_of(data),
    ensures
        spec_parse_frame(spec_serialize(channel, data, crc)) == Some((channel, data, crc)),
        frame_checksum_ok((channel, data, crc)),
{
    let a = dec_i8(channel);
    let c = hex_digits(crc as nat);
    lemma_digits_have_no_comma(0, crc, channel);
    lemma_split_three(a, data, c, ',');
    let line = spec_serialize(channel, data, crc);
    assert(spec_split(line, ',') =~= seq![a, data, c]);
    lemma_parse_i8_round_trip(channel);
    lemma_parse_hex_u32_round_trip(crc);
    assert(spec_split(line, ',')[0] == a);
    assert(spec_split(line, ',')[1] == data);
    assert(spec_split(line, ',')[2] == c);
}

} // verus!
