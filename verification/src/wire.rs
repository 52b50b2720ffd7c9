//! The protobuf wire primitives that the plan-node envelope is built from:
//! base-128 varints and field keys.

use vstd::prelude::*;

verus! {

/// How the payload of a field is laid out.
#[derive(Clone, Copy, Debug, PartialEq, Eq, Structural)]
pub enum WireType {
    Varint,
    SixtyFourBit,
    LengthDelimited,
    StartGroup,
    EndGroup,
    ThirtyTwoBit,
}

/// The longest varint, in bytes.
pub const MAX_VARINT_LEN: u8 = 10;

/// The key byte of field 1 with a length-delimited payload.
pub const KEY_FIELD_1: u8 = 0x0a;

/// The key byte of field 2 with a length-delimited payload.
pub const KEY_FIELD_2: u8 = 0x12;

/// The little-endian base-128 encoding of `v`: seven bits to a byte, the top
/// bit set on every byte but the last.
pub open spec fn varint_bytes(v: nat) -> Seq<u8>
    decreases v,
{
    if v < 128 {
        seq![v as u8]
    } else {
        seq![(v % 128 + 128) as u8] + varint_bytes(v / 128)
    }
}

/// Reads a varint of at most `limit` bytes from the front of `s`: the value
/// and the number of bytes it takes. The last of the ten bytes that a varint
/// may have holds one bit only.
pub open spec fn parse_varint_upto(s: Seq<u8>, limit: nat) -> Option<(nat, nat)>
    decreases limit,
{
    if limit == 0 || s.len() == 0 {
        None
    } else if s[0] < 128 {
        if limit == 1 && s[0] >= 2 {
            None
        } else {
            Some((s[0] as nat, 1nat))
        }
    } else {
        match parse_varint_upto(s.drop_first(), (limit - 1) as nat) {
            Some((v, n)) => Some((((s[0] - 128) + 128 * v) as nat, n + 1)),
            None => None,
        }
    }
}

/// Reads a varint from the front of `s`.
pub open spec fn parse_varint(s: Seq<u8>) -> Option<(nat, nat)> {
    parse_varint_upto(s, 10)
}

/// An exclusive bound on the value of a varint of at most `limit` bytes that
/// ends within the ten-byte limit.
pub open spec fn varint_bound(limit: nat) -> nat {
    if limit == 0 {
        0
    } else if limit == 1 {
        2
    } else if limit == 2 {
        0x100
    } else if limit == 3 {
        0x8000
    } else if limit == 4 {
        0x40_0000
    } else if limit == 5 {
        0x2000_0000
    } else if limit == 6 {
        0x10_0000_0000
    } else if limit == 7 {
        0x800_0000_0000
    } else if limit == 8 {
        0x4_0000_0000_0000
    } else if limit == 9 {
        0x200_0000_0000_0000
    } else {
        0x1_0000_0000_0000_0000
    }
}

pub proof fn lemma_parse_varint_bounds(s: Seq<u8>, limit: nat)
    requires
        limit <= 10,
    ensures
        parse_varint_upto(s, limit) matches Some((v, n)) ==> v < varint_bound(limit) && 1 <= n
            <= limit && n <= s.len(),
    decreases limit,
{
    if limit == 0 || s.len() == 0 {
    } else if s[0] < 128 {
    } else {
        lemma_parse_varint_bounds(s.drop_first(), (limit - 1) as nat);
    }
}

/// A varint that was written is read back, whatever follows it.
pub proof fn lemma_varint_roundtrip_upto(v: nat, rest: Seq<u8>, limit: nat)
    requires
        1 <= limit <= 10,
        v < varint_bound(limit),
    ensures
        parse_varint_upto(varint_bytes(v) + rest, limit) == Some((v, varint_bytes(v).len())),
    decreases v,
{
    let s = varint_bytes(v) + rest;
    if v < 128 {
        assert(s[0] == v as u8);
    } else {
        assert(s[0] == (v % 128 + 128) as u8);
        assert(s.drop_first() =~= varint_bytes(v / 128) + rest);
        lemma_varint_roundtrip_upto(v / 128, rest, (limit - 1) as nat);
    }
}

/// A 64-bit value that was written as a varint is read back, whatever
/// follows it.
pub proof fn lemma_varint_roundtrip(v: nat, rest: Seq<u8>)
    requires
        v <= u64::MAX,
    ensures
        parse_varint(varint_bytes(v) + rest) == Some((v, varint_bytes(v).len())),
{
    lemma_varint_roundtrip_upto(v, rest, 10);
}

/// Appends the varint of `value` to `buf`.
pub fn encode_varint(value: u64, buf: &mut Vec<u8>)
    ensures
        final(buf)@ == old(buf)@ + varint_bytes(value as nat),
{
    let mut rest: u64 = value;
    while rest >= 128
        invariant
            buf@ + varint_bytes(rest as nat) == old(buf)@ + varint_bytes(value as nat),
        decreases rest,
    {
        let byte: u8 = (rest % 128 + 128) as u8;
        proof {
            assert(varint_bytes(rest as nat) == seq![byte] + varint_bytes((rest / 128) as nat));
            assert(buf@.push(byte) + varint_bytes((rest / 128) as nat) =~= buf@ + (seq![byte]
                + varint_bytes((rest / 128) as nat)));
        }
        buf.push(byte);
        rest = rest / 128;
    }
    proof {
        assert(varint_bytes(rest as nat) == seq![rest as u8]);
        assert(buf@.push(rest as u8) =~= buf@ + seq![rest as u8]);
    }
    buf.push(rest as u8);
}

fn decode_varint_upto(buf: &[u8], pos: usize, end: usize, limit: u8) -> (r: Option<(u64, usize)>)
    requires
        pos <= end <= buf.len(),
        limit <= 10,
    ensures
        match parse_varint_upto(buf@.subrange(pos as int, end as int), limit as nat) {
            Some((v, n)) => r == Some((v as u64, (pos + n) as usize)) && v <= u64::MAX && pos + n
                <= end,
            None => r is None,
        },
    decreases limit,
{
    let ghost s = buf@.subrange(pos as int, end as int);
    if limit == 0 || pos >= end {
        return None;
    }
    let byte: u8 = buf[pos];
    assert(s[0] == byte);
    if byte < 128 {
        if limit == 1 && byte >= 2 {
            None
        } else {
            Some((byte as u64, pos + 1))
        }
    } else {
        proof {
            assert(s.drop_first() =~= buf@.subrange(pos + 1, end as int));
            lemma_parse_varint_bounds(s.drop_first(), (limit - 1) as nat);
        }
        match decode_varint_upto(buf, pos + 1, end, limit - 1) {
            Some((v, next)) => Some(((byte - 128) as u64 + 128 * v, next)),
            None => None,
        }
    }
}

/// Reads a varint from `buf[pos..end]`: its value and the position after it.
pub fn decode_varint(buf: &[u8], pos: usize, end: usize) -> (r: Option<(u64, usize)>)
    requires
        pos <= end <= buf.len(),
    ensures
        match parse_varint(buf@.subrange(pos as int, end as int)) {
            Some((v, n)) => r == Some((v as u64, (pos + n) as usize)) && v <= u64::MAX && pos + n
                <= end,
            None => r is None,
        },
{
    decode_varint_upto(buf, pos, end, MAX_VARINT_LEN)
}

/// The wire type that a key's low three bits name.
pub open spec fn wire_type_of(code: nat) -> Option<WireType> {
    if code == 0 {
        Some(WireType::Varint)
    } else if code == 1 {
        Some(WireType::SixtyFourBit)
    } else if code == 2 {
        Some(WireType::LengthDelimited)
    } else if code == 3 {
        Some(WireType::StartGroup)
    } else if code == 4 {
        Some(WireType::EndGroup)
    } else if code == 5 {
        Some(WireType::ThirtyTwoBit)
    } else {
        None
    }
}

/// Reads a field key from the front of `s`: the field's tag, its wire type
/// and the number of bytes the key takes. A key is a varint that fits in 32
/// bits, names one of the six wire types and has a tag of at least 1.
pub open spec fn parse_key(s: Seq<u8>) -> Option<(nat, WireType, nat)> {
    match parse_varint(s) {
        Some((key, n)) => {
            if key > u32::MAX || key / 8 < 1 {
                None
            } else {
                match wire_type_of(key % 8) {
                    Some(wire_type) => Some((key / 8, wire_type, n)),
                    None => None,
                }
            }
        },
        None => None,
    }
}

fn wire_type_from(code: u64) -> (r: Option<WireType>)
    ensures
        r == wire_type_of(code as nat),
{
    if code == 0 {
        Some(WireType::Varint)
    } else if code == 1 {
        Some(WireType::SixtyFourBit)
    } else if code == 2 {
        Some(WireType::LengthDelimited)
    } else if code == 3 {
        Some(WireType::StartGroup)
    } else if code == 4 {
        Some(WireType::EndGroup)
    } else if code == 5 {
        Some(WireType::ThirtyTwoBit)
    } else {
        None
    }
}

/// Reads a field key from `buf[pos..end]`: the tag, the wire type and the
/// position after the key.
pub fn decode_key(buf: &[u8], pos: usize, end: usize) -> (r: Option<(u32, WireType, usize)>)
    requires
        pos <= end <= buf.len(),
    ensures
        match parse_key(buf@.subrange(pos as int, end as int)) {
            Some((tag, wire_type, n)) => r == Some((tag as u32, wire_type, (pos + n) as usize))
                && 1 <= tag <= u32::MAX && 1 <= n && pos + n <= end,
            None => r is None,
        },
{
    proof {
        lemma_parse_varint_bounds(buf@.subrange(pos as int, end as int), 10);
    }
    match decode_varint(buf, pos, end) {
        Some((key, next)) => {
            if key > 0xffff_ffff || key / 8 < 1 {
                None
            } else {
                match wire_type_from(key % 8) {
                    Some(wire_type) => Some(((key / 8) as u32, wire_type, next)),
                    None => None,
                }
            }
        },
        None => None,
    }
}

} // verus!
