//! Wire-format primitives: the packed one-byte packet header and the
//! variable-width integer encoding used for connection ids and lengths.
//!
//! A header byte holds the packet type in its top five bits and three flag
//! bits below. A `u16` is encoded as one byte when it fits in a byte, else
//! as two bytes little-endian; the chosen width is reported to the caller,
//! which records it in the header flags so the decoder knows what to expect.

use vstd::prelude::*;

verus! {

/// Packet types.
pub const ERROR: u8 = 0;
pub const PING: u8 = 1;
pub const AUTH: u8 = 2;
pub const CONNECT: u8 = 3;
pub const FORWARD: u8 = 4;
pub const DISCONNECT: u8 = 5;
pub const SYNC: u8 = 6;
pub const SERVER: u8 = 7;
pub const UPDATE_RIGHTS: u8 = 8;

/// Header flags: the length field is one byte instead of two.
pub const SHORT: u8 = 0b001;
/// Header flags: the connection-id field is one byte instead of two.
pub const C_SHORT: u8 = 0b010;
/// Header flags: the payload is compressed.
pub const COMPRESSED: u8 = 0b100;

/// Error codes carried by `Error` frames.
pub const UNIMPLEMENTED: u8 = 0;
pub const ACCESS_DENIED: u8 = 1;
pub const BIND_ERROR: u8 = 2;
pub const UNKNOWN_PKT: u8 = 3;
pub const UNSUPPORTED_PKT: u8 = 4;
pub const TOO_LONG: u8 = 5;
pub const DECOMPRESS_ERR: u8 = 6;

/// The three header flag bits, read off a flags byte.
pub trait TypeFlags: Sized {
    spec fn spec_is_short(self) -> bool;

    spec fn spec_is_c_short(self) -> bool;

    spec fn spec_is_compressed(self) -> bool;

    /// Whether the length field is one byte wide.
    fn is_short(self) -> (r: bool)
        ensures
            r == self.spec_is_short(),
    ;

    /// Whether the connection-id field is one byte wide.
    fn is_c_short(self) -> (r: bool)
        ensures
            r == self.spec_is_c_short(),
    ;

    /// Whether the payload is compressed.
    fn is_compressed(self) -> (r: bool)
        ensures
            r == self.spec_is_compressed(),
    ;
}

impl TypeFlags for u8 {
    open spec fn spec_is_short(self) -> bool {
        (self & SHORT) == SHORT
    }

    open spec fn spec_is_c_short(self) -> bool {
        (self & C_SHORT) == C_SHORT
    }

    open spec fn spec_is_compressed(self) -> bool {
        (self & COMPRESSED) == COMPRESSED
    }

    fn is_short(self) -> bool {
        (self & SHORT) == SHORT
    }

    fn is_c_short(self) -> bool {
        (self & C_SHORT) == C_SHORT
    }

    fn is_compressed(self) -> bool {
        (self & COMPRESSED) == COMPRESSED
    }
}

/// What `pack_type` returns: type in the top five bits, flags below.
pub open spec fn spec_pack_type(pkt_type: u8, flags: u8) -> u8 {
    (pkt_type << 3) | flags
}

/// What `unpack_type` returns: the (type, flags) pair of a header byte.
pub open spec fn spec_unpack_type(data: u8) -> (u8, u8) {
    (data >> 3, data & 0b111)
}

/// The byte encoding of a `u16`: one byte when it fits, else two bytes
/// little-endian.
pub open spec fn spec_variadic(value: u16) -> Seq<u8> {
    if value <= 0xff {
        seq![value as u8]
    } else {
        seq![(value & 0xff) as u8, (value >> 8) as u8]
    }
}

/// The `u16` whose little-endian bytes stand in `b` at indices `i`, `i + 1`.
pub open spec fn le16_at(b: Seq<u8>, i: int) -> u16 {
    (b[i] as u16) | ((b[i + 1] as u16) << 8)
}

/// Reads a variable-width `u16` from `b` at index `i`; `short` selects the
/// one-byte form. Returns the value and the index just past it, or `None`
/// when the bytes run out.
pub open spec fn parse_variadic_at(b: Seq<u8>, i: int, short: bool) -> Option<(u16, int)> {
    if short {
        if 0 <= i && i + 1 <= b.len() {
            Some((b[i] as u16, i + 1))
        } else {
            None
        }
    } else {
        if 0 <= i && i + 2 <= b.len() {
            Some((le16_at(b, i), i + 2))
        } else {
            None
        }
    }
}

/// Reads a length-prefixed byte string (one length byte, then that many
/// bytes) from `b` at index `i`.
pub open spec fn parse_lp_bytes_at(b: Seq<u8>, i: int) -> Option<(Seq<u8>, int)> {
    if 0 <= i && i + 1 <= b.len() && i + 1 + (b[i] as int) <= b.len() {
        Some((b.subrange(i + 1, i + 1 + (b[i] as int)), i + 1 + (b[i] as int)))
    } else {
        None
    }
}

/// The encoding of a length-prefixed byte string.
pub open spec fn spec_lp_bytes(s: Seq<u8>) -> Seq<u8>
    recommends
        s.len() <= 0xff,
{
    seq![s.len() as u8] + s
}

/// Packs a packet type and its flags into one header byte.
pub fn pack_type(pkt_type: u8, flags: u8) -> (r: u8)
    requires
        pkt_type < 32,
        flags < 8,
    ensures
        r == spec_pack_type(pkt_type, flags),
{
    (pkt_type << 3) | flags
}

/// Splits a header byte into its packet type and flags.
pub fn unpack_type(data: u8) -> (r: (u8, u8))
    ensures
        r == spec_unpack_type(data),
        r.0 < 32,
        r.1 < 8,
{
    proof {
        assert((data >> 3) < 32 && (data & 0b111) < 8) by (bit_vector);
    }
    (data >> 3, data & 0b111)
}

/// Appends the variable-width encoding of `value` to `dest` and reports
/// whether the short (one-byte) form was used.
pub fn serialize_variadic(dest: &mut Vec<u8>, value: u16) -> (short: bool)
    ensures
        final(dest)@ == old(dest)@ + spec_variadic(value),
        short == (value <= 0xff),
{
    if value <= 0xff {
        dest.push(value as u8);
        assert(dest@ == old(dest)@ + spec_variadic(value));
        true
    } else {
        dest.push((value & 0xff) as u8);
        dest.push((value >> 8) as u8);
        assert(dest@ == old(dest)@ + spec_variadic(value));
        false
    }
}

/// Unpacking a packed header gives back the type and flags unchanged,
/// for every type that fits in five bits and flags in three.
pub proof fn lemma_pack_unpack(pkt_type: u8, flags: u8)
    requires
        pkt_type < 32,
        flags < 8,
    ensures
        spec_unpack_type(spec_pack_type(pkt_type, flags)) == (pkt_type, flags),
{
    assert((((pkt_type << 3) | flags) >> 3) == pkt_type && (((pkt_type << 3) | flags) & 0b111)
        == flags) by (bit_vector)
        requires
            pkt_type < 32,
            flags < 8,
    ;
}

/// Decoding the variable-width encoding of any `u16` gives the value back,
/// and the encoding is one byte exactly when the value fits in a byte.
pub proof fn lemma_variadic_round_trip(value: u16)
    ensures
        parse_variadic_at(spec_variadic(value), 0, value <= 0xff) == Some(
            (value, spec_variadic(value).len() as int),
        ),
        spec_variadic(value).len() == 1 <==> value <= 0xff,
        spec_variadic(value).len() == 2 <==> value > 0xff,
{
    assert(spec_variadic(value).subrange(0, spec_variadic(value).len() as int) =~= spec_variadic(
        value,
    ));
    lemma_variadic_parse_embedded(spec_variadic(value), 0, value);
}

/// The variable-width decoder finds `value` wherever its encoding is
/// embedded in a larger byte sequence.
pub proof fn lemma_variadic_parse_embedded(b: Seq<u8>, i: int, value: u16)
    requires
        0 <= i,
        i + spec_variadic(value).len() <= b.len(),
        b.subrange(i, i + spec_variadic(value).len() as int) == spec_variadic(value),
    ensures
        parse_variadic_at(b, i, value <= 0xff) == Some(
            (value, i + spec_variadic(value).len() as int),
        ),
{
    if value <= 0xff {
        assert(b[i] == spec_variadic(value)[0]);
        assert((value as u8) as u16 == value) by (bit_vector)
            requires
                value <= 0xff,
        ;
    } else {
        assert(b[i] == spec_variadic(value)[0]);
        assert(b[i + 1] == spec_variadic(value)[1]);
        assert((((value & 0xff) as u8) as u16) | ((((value >> 8) as u8) as u16) << 8)
            == value) by (bit_vector);
    }
}

} // verus!
