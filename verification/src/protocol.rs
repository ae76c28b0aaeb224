//! Wire format of the console's packets. Every integer field is a 32-bit
//! little-endian word.

use vstd::prelude::*;
use vstd::string::StringSliceAdditionalSpecFns;
use crate::decimal::{parse_u32, parse_unsigned};
use crate::text::{lowercase, split_fields, split_text, text_equals, to_lowercase, views_of};

verus! {

/// The four little-endian bytes of `v`.
pub open spec fn u32_le(v: u32) -> Seq<u8> {
    seq![
        (v % 256) as u8,
        ((v / 256) % 256) as u8,
        ((v / 65536) % 256) as u8,
        ((v / 16777216) % 256) as u8,
    ]
}

/// The value of four little-endian bytes.
pub open spec fn u32_from_le(b: Seq<u8>) -> int {
    b[0] + 256 * b[1] + 65536 * b[2] + 16777216 * b[3]
}

/// The two's-complement bit pattern of `v`, read as an unsigned word.
pub open spec fn i32_bits(v: i32) -> u32 {
    if v >= 0 {
        v as u32
    } else {
        (v + 0x1_0000_0000) as u32
    }
}

/// Every word is four bytes, and decoding them gives the word back.
pub proof fn law_u32_le_roundtrip(v: u32)
    ensures
        u32_le(v).len() == 4,
        u32_from_le(u32_le(v)) == v,
{
    assert(u32_from_le(u32_le(v)) == v) by (nonlinear_arith);
}

/// Different words have different encodings.
pub proof fn law_u32_le_injective(a: u32, b: u32)
    ensures
        u32_le(a) == u32_le(b) ==> a == b,
{
    law_u32_le_roundtrip(a);
    law_u32_le_roundtrip(b);
}

fn push_u32_le(buf: &mut Vec<u8>, v: u32)
    ensures
        final(buf)@ == old(buf)@ + u32_le(v),
{
    buf.push((v % 256) as u8);
    buf.push(((v / 256) % 256) as u8);
    buf.push(((v / 65536) % 256) as u8);
    buf.push(((v / 16777216) % 256) as u8);
    assert(buf@ =~= old(buf)@ + u32_le(v));
}

/// The two's-complement bit pattern of `v`.
pub fn word_of(v: i32) -> (r: u32)
    ensures
        r == i32_bits(v),
{
    let bits = v as u32;
    assert(bits == i32_bits(v)) by (bit_vector)
        requires
            bits == v as u32,
    ;
    bits
}

fn push_i32_le(buf: &mut Vec<u8>, v: i32)
    ensures
        final(buf)@ == old(buf)@ + u32_le(i32_bits(v)),
{
    push_u32_le(buf, word_of(v));
}

/// A packet that carries only its id.
pub fn pack_response(packet: u32) -> (r: Vec<u8>)
    ensures
        r@ == u32_le(packet),
{
    let mut buf = Vec::with_capacity(4);
    push_u32_le(&mut buf, packet);
    buf
}

/// A packet id followed by a flag word: 1 for on, 0 for off, 2 for toggle.
pub fn pack_bool(packet: u32, value: u32) -> (r: Vec<u8>)
    ensures
        r@ == u32_le(packet) + u32_le(value),
        r@.len() == 8,
        r@.subrange(0, 4) == u32_le(packet),
        r@.subrange(4, 8) == u32_le(value),
{
    let mut buf = Vec::with_capacity(8);
    push_u32_le(&mut buf, packet);
    push_u32_le(&mut buf, value);
    proof {
        lemma_subrange_of_concat();
    }
    buf
}

/// A packet id followed by an unsigned word.
pub fn pack_int(packet: u32, value: u32) -> (r: Vec<u8>)
    ensures
        r@ == u32_le(packet) + u32_le(value),
        r@.len() == 8,
        r@.subrange(0, 4) == u32_le(packet),
        r@.subrange(4, 8) == u32_le(value),
{
    let mut buf = Vec::with_capacity(8);
    push_u32_le(&mut buf, packet);
    push_u32_le(&mut buf, value);
    proof {
        lemma_subrange_of_concat();
    }
    buf
}

/// A packet id followed by a single-precision value, given as its bit
/// pattern (`f32::to_bits`).
pub fn pack_float(packet: u32, value_bits: u32) -> (r: Vec<u8>)
    ensures
        r@ == u32_le(packet) + u32_le(value_bits),
        r@.len() == 8,
        r@.subrange(0, 4) == u32_le(packet),
        r@.subrange(4, 8) == u32_le(value_bits),
{
    pack_int(packet, value_bits)
}

/// The fixed id of the packet that sets the time of day.
pub const SET_TIME_PACKET: u32 = 20;

/// Sets the time of day: the fixed id, a zero word, the hour and the minutes.
pub fn pack_set_time(hour: u32, minutes: u32) -> (r: Vec<u8>)
    ensures
        r@ == u32_le(SET_TIME_PACKET) + u32_le(0) + u32_le(hour) + u32_le(minutes),
        r@.len() == 16,
        r@.subrange(0, 4) == u32_le(SET_TIME_PACKET),
        r@.subrange(4, 8) == u32_le(0),
        r@.subrange(8, 12) == u32_le(hour),
        r@.subrange(12, 16) == u32_le(minutes),
{
    let mut buf = Vec::with_capacity(16);
    push_u32_le(&mut buf, SET_TIME_PACKET);
    push_u32_le(&mut buf, 0);
    push_u32_le(&mut buf, hour);
    push_u32_le(&mut buf, minutes);
    proof {
        lemma_subrange_of_concat();
    }
    buf
}

/// Spawns `amount` actors: the id, the amount, the actor's name as raw UTF-8
/// bytes, and a terminating zero word.
pub fn pack_actor(packet: u32, amount: u32, actor: &str) -> (r: Vec<u8>)
    ensures
        r@ == u32_le(packet) + u32_le(amount) + actor.spec_bytes() + u32_le(0),
        r@.len() == actor.spec_bytes().len() + 12,
        r@.subrange(0, 4) == u32_le(packet),
        r@.subrange(4, 8) == u32_le(amount),
        r@.subrange(8, 8 + actor.spec_bytes().len() as int) == actor.spec_bytes(),
        r@.subrange(8 + actor.spec_bytes().len() as int, r@.len() as int) == u32_le(0),
{
    let name_bytes = actor.as_bytes();
    let mut buf = Vec::new();
    push_u32_le(&mut buf, packet);
    push_u32_le(&mut buf, amount);
    let ghost before = buf@;
    buf.extend_from_slice(name_bytes);
    assert(buf@ =~= before + actor.spec_bytes());
    push_u32_le(&mut buf, 0);
    proof {
        lemma_subrange_of_concat();
    }
    buf
}

/// The flag word that a lowercased answer stands for: 1 for "true" or "on",
/// 0 for "false" or "off", 2 (toggle) for anything else.
pub open spec fn bool_flag(lowered: Seq<char>) -> u32 {
    if lowered == "true"@ || lowered == "on"@ {
        1
    } else if lowered == "false"@ || lowered == "off"@ {
        0
    } else {
        2
    }
}

/// The flag word for an answer that is already lowercase.
pub fn bool_flag_of(lowered: &str) -> (r: u32)
    ensures
        r == bool_flag(lowered@),
{
    if text_equals(lowered, "true") || text_equals(lowered, "on") {
        1
    } else if text_equals(lowered, "false") || text_equals(lowered, "off") {
        0
    } else {
        2
    }
}

/// Reads an on/off answer, ignoring case.
pub fn parse_bool_str(s: &str) -> (r: u32)
    ensures
        r == bool_flag(lowercase(s@)),
{
    let lowered = to_lowercase(s);
    bool_flag_of(lowered.as_str())
}

/// The number in field `i` of `parts`, or 0 where the field is missing or is
/// not a number that fits in a `u32`.
pub open spec fn field_number(parts: Seq<Seq<char>>, i: int) -> u32 {
    if 0 <= i < parts.len() {
        match parse_unsigned(parts[i], u32::MAX as nat) {
            Some(v) => v as u32,
            None => 0,
        }
    } else {
        0
    }
}

/// The (hour, minutes) that a time answer stands for: the named times of day
/// ("day" noon, "dawn" 8:00, "night" 24:00, "dusk" 20:00), matched on the
/// lowercased answer; otherwise the first two `:`-separated fields of the
/// answer as typed, each 0 where it is missing or not a number.
pub open spec fn time_of(lowered: Seq<char>, s: Seq<char>) -> (u32, u32) {
    if lowered == "day"@ {
        (12, 0)
    } else if lowered == "dawn"@ {
        (8, 0)
    } else if lowered == "night"@ {
        (24, 0)
    } else if lowered == "dusk"@ {
        (20, 0)
    } else {
        let parts = split_fields(s, ':');
        (field_number(parts, 0), field_number(parts, 1))
    }
}

fn field_number_of(parts: &Vec<String>, i: usize) -> (r: u32)
    ensures
        r == field_number(views_of(parts@), i as int),
{
    if i < parts.len() {
        match parse_u32(parts[i].as_str()) {
            Some(v) => v,
            None => 0,
        }
    } else {
        0
    }
}

/// The time for an answer `s` whose lowercase form is `lowered`.
pub fn time_of_text(lowered: &str, s: &str) -> (r: (u32, u32))
    ensures
        r == time_of(lowered@, s@),
{
    if text_equals(lowered, "day") {
        (12, 0)
    } else if text_equals(lowered, "dawn") {
        (8, 0)
    } else if text_equals(lowered, "night") {
        (24, 0)
    } else if text_equals(lowered, "dusk") {
        (20, 0)
    } else {
        let parts = split_text(s, ':');
        (field_number_of(&parts, 0), field_number_of(&parts, 1))
    }
}

/// Reads a time answer: a named time of day, or "HH:MM".
pub fn parse_time_str(s: &str) -> (r: (u32, u32))
    ensures
        r == time_of(lowercase(s@), s@),
{
    let lowered = to_lowercase(s);
    time_of_text(lowered.as_str(), s)
}

/// A vector command: the id as a signed word, a zero word, then the bit
/// patterns (`f32::to_bits`) of the three single-precision components.
pub fn pack_vector3f(packet: i32, x: u32, y: u32, z: u32) -> (r: Vec<u8>)
    ensures
        r@ == u32_le(i32_bits(packet)) + u32_le(0) + u32_le(x) + u32_le(y) + u32_le(z),
        r@.len() == 20,
        r@.subrange(0, 4) == u32_le(i32_bits(packet)),
        r@.subrange(4, 8) == u32_le(0),
        r@.subrange(8, 12) == u32_le(x),
        r@.subrange(12, 16) == u32_le(y),
        r@.subrange(16, 20) == u32_le(z),
{
    let mut buf = Vec::with_capacity(20);
    push_i32_le(&mut buf, packet);
    push_i32_le(&mut buf, 0);
    assert(i32_bits(0) == 0);
    push_u32_le(&mut buf, x);
    push_u32_le(&mut buf, y);
    push_u32_le(&mut buf, z);
    assert(buf@.subrange(0, 4) =~= u32_le(i32_bits(packet)));
    assert(buf@.subrange(4, 8) =~= u32_le(0));
    assert(buf@.subrange(8, 12) =~= u32_le(x));
    assert(buf@.subrange(12, 16) =~= u32_le(y));
    assert(buf@.subrange(16, 20) =~= u32_le(z));
    buf
}

/// Taking a range out of two byte runs put end to end: a range within the
/// first run, a range within the second, and a run taken whole.
pub proof fn lemma_subrange_of_concat()
    ensures
        forall|a: Seq<u8>, b: Seq<u8>, i: int, j: int|
            0 <= i <= j <= a.len() ==> #[trigger] (a + b).subrange(i, j) == a.subrange(i, j),
        forall|a: Seq<u8>, b: Seq<u8>, i: int, j: int|
            a.len() <= i <= j <= a.len() + b.len() ==> #[trigger] (a + b).subrange(i, j)
                == b.subrange(i - a.len(), j - a.len()),
        forall|a: Seq<u8>| #[trigger] a.subrange(0, a.len() as int) == a,
{
    assert forall|a: Seq<u8>, b: Seq<u8>, i: int, j: int|
        0 <= i <= j <= a.len() implies #[trigger] (a + b).subrange(i, j) == a.subrange(i, j) by {
        assert((a + b).subrange(i, j) =~= a.subrange(i, j));
    }
    assert forall|a: Seq<u8>, b: Seq<u8>, i: int, j: int|
        a.len() <= i <= j <= a.len() + b.len() implies #[trigger] (a + b).subrange(i, j)
            == b.subrange(i - a.len(), j - a.len()) by {
        assert((a + b).subrange(i, j) =~= b.subrange(i - a.len(), j - a.len()));
    }
    assert forall|a: Seq<u8>| #[trigger] a.subrange(0, a.len() as int) == a by {
        assert(a.subrange(0, a.len() as int) =~= a);
    }
}

/// The fixed id of the packet that carries one keyframe of a sequence.
pub const KEYFRAME_PACKET: u32 = 61;

/// The words of three components, in order.
pub open spec fn triple_le(v: [u32; 3]) -> Seq<u8> {
    u32_le(v[0]) + u32_le(v[1]) + u32_le(v[2])
}

/// The three components are laid out as x, y, z, one little-endian word each.
pub proof fn law_triple_le_components(v: [u32; 3])
    ensures
        triple_le(v).len() == 12,
        triple_le(v).subrange(0, 4) == u32_le(v[0]),
        triple_le(v).subrange(4, 8) == u32_le(v[1]),
        triple_le(v).subrange(8, 12) == u32_le(v[2]),
{
    lemma_subrange_of_concat();
}

/// One keyframe of a sequence: the fixed id, the frame's position in the
/// sequence, then the bit patterns (`f32::to_bits`) of the position, forward
/// and up vectors, the field of view and the duration.
pub fn pack_keyframe(
    index: u32,
    pos: [u32; 3],
    forward: [u32; 3],
    up: [u32; 3],
    fov: u32,
    duration: u32,
) -> (r: Vec<u8>)
    ensures
        r@ == u32_le(KEYFRAME_PACKET) + u32_le(index) + triple_le(pos) + triple_le(forward)
            + triple_le(up) + u32_le(fov) + u32_le(duration),
        r@.len() == 52,
        r@.subrange(0, 4) == u32_le(KEYFRAME_PACKET),
        r@.subrange(4, 8) == u32_le(index),
        r@.subrange(8, 12) == u32_le(pos[0]),
        r@.subrange(12, 16) == u32_le(pos[1]),
        r@.subrange(16, 20) == u32_le(pos[2]),
        r@.subrange(20, 24) == u32_le(forward[0]),
        r@.subrange(24, 28) == u32_le(forward[1]),
        r@.subrange(28, 32) == u32_le(forward[2]),
        r@.subrange(32, 36) == u32_le(up[0]),
        r@.subrange(36, 40) == u32_le(up[1]),
        r@.subrange(40, 44) == u32_le(up[2]),
        r@.subrange(44, 48) == u32_le(fov),
        r@.subrange(48, 52) == u32_le(duration),
{
    let mut buf = Vec::with_capacity(48);
    push_u32_le(&mut buf, KEYFRAME_PACKET);
    push_u32_le(&mut buf, index);
    push_u32_le(&mut buf, pos[0]);
    push_u32_le(&mut buf, pos[1]);
    push_u32_le(&mut buf, pos[2]);
    push_u32_le(&mut buf, forward[0]);
    push_u32_le(&mut buf, forward[1]);
    push_u32_le(&mut buf, forward[2]);
    push_u32_le(&mut buf, up[0]);
    push_u32_le(&mut buf, up[1]);
    push_u32_le(&mut buf, up[2]);
    push_u32_le(&mut buf, fov);
    push_u32_le(&mut buf, duration);
    assert(buf@ =~= u32_le(KEYFRAME_PACKET) + u32_le(index) + triple_le(pos) + triple_le(forward)
        + triple_le(up) + u32_le(fov) + u32_le(duration));
    proof {
        lemma_subrange_of_concat();
    }
    buf
}

} // verus!
