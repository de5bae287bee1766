//! Encoding frames into bytes. Each writer returns the exact wire bytes of
//! one frame; `write_forward` first offers the payload to the compressor
//! and substitutes the compressed bytes, with the compressed flag set, only
//! when that was profitable. Every encoder picks the narrowest legal width
//! for the id and length fields and records the choice in the header flags.
//!
//! Decoding inverts all of this: `lemma_frame_round_trip` proves it for
//! every frame the encoder can emit, and `write_forward`'s own contract
//! proves it for the compressed branch.

use vstd::prelude::*;

use crate::compress::{
    maybe_compress, spec_enough_profit, zstd_compressed, zstd_content_size, zstd_inflated,
    ZStdParams,
};
use crate::frame::{FrameModel, TransportProtocol};
use crate::reader::parse_frame_at;
use crate::side::CodecSide;
use crate::wire::{
    le16_at, pack_type, parse_lp_bytes_at, parse_variadic_at, serialize_variadic, spec_lp_bytes,
    spec_pack_type, spec_unpack_type, spec_variadic, AUTH, COMPRESSED, CONNECT, C_SHORT,
    DISCONNECT, ERROR, FORWARD, PING, SERVER, SHORT, SYNC, UPDATE_RIGHTS,
};

verus! {

/// The two little-endian bytes of a `u16`.
pub open spec fn spec_le16(v: u16) -> Seq<u8> {
    seq![(v & 0xff) as u8, (v >> 8) as u8]
}

/// The header flags of a forward frame: compression, and the width of the
/// id and length fields.
pub open spec fn spec_forward_flags(id: u16, length: u16, compressed: bool) -> u8 {
    (if compressed {
        COMPRESSED
    } else {
        0
    }) | (if id <= 0xff {
        C_SHORT
    } else {
        0
    }) | (if length <= 0xff {
        SHORT
    } else {
        0
    })
}

/// The wire bytes of a forward frame carrying `payload`, which is the
/// compressed form of the original when `compressed` holds.
pub open spec fn spec_forward_encoding(id: u16, payload: Seq<u8>, compressed: bool) -> Seq<u8>
    recommends
        payload.len() <= 0xffff,
{
    seq![
        spec_pack_type(FORWARD, spec_forward_flags(id, payload.len() as u16, compressed)),
    ] + spec_variadic(id) + spec_variadic(payload.len() as u16) + payload
}

/// The wire bytes of each frame, with forward payloads uncompressed.
pub open spec fn spec_encode_frame(f: FrameModel) -> Seq<u8> {
    match f {
        FrameModel::Ping => seq![spec_pack_type(PING, 0)],
        FrameModel::PingResponse { name } => seq![spec_pack_type(PING, 0)] + spec_lp_bytes(name),
        FrameModel::Sync => seq![spec_pack_type(SYNC, 0)],
        FrameModel::SyncResponse { threshold, level, profit } => seq![
            spec_pack_type(SYNC, 0),
            level as u8,
        ] + spec_le16(profit) + spec_le16(threshold),
        FrameModel::Authorize { magic } => seq![spec_pack_type(AUTH, 0)] + spec_lp_bytes(magic),
        FrameModel::Connect { id } => seq![
            spec_pack_type(CONNECT, if id <= 0xff { C_SHORT } else { 0 }),
        ] + spec_variadic(id),
        FrameModel::Disconnect { id } => seq![
            spec_pack_type(DISCONNECT, if id <= 0xff { C_SHORT } else { 0 }),
        ] + spec_variadic(id),
        FrameModel::Forward { id, buffer } => spec_forward_encoding(id, buffer, false),
        FrameModel::Error { code } => seq![spec_pack_type(ERROR, 0), code],
        FrameModel::RightsUpdate { rights } => seq![spec_pack_type(UPDATE_RIGHTS, 0), rights],
        FrameModel::Server { protocol, port } => if protocol is Tcp && port == 0 {
            seq![spec_pack_type(SERVER, SHORT)]
        } else if protocol is Tcp {
            seq![spec_pack_type(SERVER, C_SHORT)] + spec_le16(port)
        } else if port == 0 {
            seq![spec_pack_type(SERVER, COMPRESSED), protocol.spec_code()]
        } else {
            seq![spec_pack_type(SERVER, 0), protocol.spec_code()] + spec_le16(port)
        },
        FrameModel::ServerResponse { host, port } => seq![spec_pack_type(SERVER, 0)]
            + spec_lp_bytes(host) + spec_le16(port),
    }
}

/// Whether a frame's fields fit the widths the wire format gives them,
/// under the payload limit `max`.
pub open spec fn frame_wire_valid(f: FrameModel, max: int) -> bool {
    match f {
        FrameModel::PingResponse { name } => name.len() <= 0xff,
        FrameModel::Authorize { magic } => magic.len() <= 0xff,
        FrameModel::ServerResponse { host, port } => host.len() <= 0xff,
        FrameModel::SyncResponse { threshold, level, profit } => level <= 0xff,
        FrameModel::Forward { id, buffer } => buffer.len() <= 0xffff && buffer.len() <= max,
        _ => true,
    }
}

/// The side on which a frame's ordinal decodes back to that frame.
pub open spec fn readable_on(f: FrameModel, side: CodecSide) -> bool {
    match f {
        FrameModel::Ping | FrameModel::Sync | FrameModel::Authorize { .. }
            | FrameModel::Server { .. } => side is Server,
        FrameModel::PingResponse { .. } | FrameModel::SyncResponse { .. }
            | FrameModel::ServerResponse { .. } => side is Client,
        _ => true,
    }
}

proof fn lemma_variadic_pointwise(b: Seq<u8>, i: int, v: u16)
    requires
        0 <= i,
        i + spec_variadic(v).len() <= b.len(),
        forall|q: int| 0 <= q < spec_variadic(v).len() ==> b[i + q] == spec_variadic(v)[q],
    ensures
        parse_variadic_at(b, i, v <= 0xff) == Some((v, i + spec_variadic(v).len() as int)),
{
    assert(b.subrange(i, i + spec_variadic(v).len() as int) =~= spec_variadic(v));
    crate::wire::lemma_variadic_parse_embedded(b, i, v);
}

proof fn lemma_le16_pointwise(b: Seq<u8>, i: int, v: u16)
    requires
        0 <= i,
        i + 2 <= b.len(),
        b[i] == (v & 0xff) as u8,
        b[i + 1] == (v >> 8) as u8,
    ensures
        le16_at(b, i) == v,
        parse_variadic_at(b, i, false) == Some((v, i + 2)),
{
    assert((((v & 0xff) as u8) as u16) | ((((v >> 8) as u8) as u16) << 8) == v) by (bit_vector);
}

proof fn lemma_lp_pointwise(b: Seq<u8>, i: int, s: Seq<u8>)
    requires
        0 <= i,
        s.len() <= 0xff,
        i + 1 + s.len() <= b.len(),
        b[i] == s.len() as u8,
        forall|q: int| 0 <= q < s.len() ==> b[i + 1 + q] == s[q],
    ensures
        parse_lp_bytes_at(b, i) == Some((s, i + 1 + s.len() as int)),
{
    assert(b[i] as int == s.len());
    assert(b.subrange(i + 1, i + 1 + (b[i] as int)) =~= s);
}

/// The flag bits of a forward header answer exactly the three questions the
/// decoder asks of them.
proof fn lemma_forward_flags(id: u16, length: u16, compressed: bool)
    ensures
        spec_forward_flags(id, length, compressed) < 8,
        (spec_forward_flags(id, length, compressed) & C_SHORT == C_SHORT) <==> id <= 0xff,
        (spec_forward_flags(id, length, compressed) & SHORT == SHORT) <==> length <= 0xff,
        (spec_forward_flags(id, length, compressed) & COMPRESSED == COMPRESSED) <==> compressed,
{
    let c: u8 = if compressed {
        4
    } else {
        0
    };
    let ci: u8 = if id <= 0xff {
        2
    } else {
        0
    };
    let s: u8 = if length <= 0xff {
        1
    } else {
        0
    };
    assert((c == 0 || c == 4) && (ci == 0 || ci == 2) && (s == 0 || s == 1) ==> (c | ci | s) < 8
        && ((c | ci | s) & 2 == 2 <==> ci == 2) && ((c | ci | s) & 1 == 1 <==> s == 1) && ((c | ci
        | s) & 4 == 4 <==> c == 4)) by (bit_vector);
}

/// Parsing a forward encoding embedded at index `i` yields the forward
/// frame: directly when it is uncompressed, and through the declared-size
/// check and decompression when it is compressed. `result_buffer` is what
/// the decoder hands out: the payload itself, or what it decompresses to.
proof fn lemma_parse_forward(
    b: Seq<u8>,
    i: int,
    id: u16,
    payload: Seq<u8>,
    compressed: bool,
    side: CodecSide,
    max: int,
    result_buffer: Seq<u8>,
)
    requires
        0 <= i,
        payload.len() <= 0xffff,
        payload.len() <= max,
        i + spec_forward_encoding(id, payload, compressed).len() <= b.len(),
        forall|k: int|
            0 <= k < spec_forward_encoding(id, payload, compressed).len() ==> b[i + k]
                == spec_forward_encoding(id, payload, compressed)[k],
        compressed ==> {
            &&& zstd_content_size(payload) matches Some(sz) && 1 <= sz <= max
            &&& zstd_inflated(payload) == Some(result_buffer)
            &&& result_buffer.len() == zstd_content_size(payload).unwrap()
        },
        !compressed ==> result_buffer == payload,
    ensures
        parse_frame_at(b, i, side, max) == Some(
            (
                FrameModel::Forward { id, buffer: result_buffer },
                i + spec_forward_encoding(id, payload, compressed).len() as int,
            ),
        ),
{
    let length = payload.len() as u16;
    let flags = spec_forward_flags(id, length, compressed);
    let enc = spec_forward_encoding(id, payload, compressed);
    let vid = spec_variadic(id);
    let vlen = spec_variadic(length);
    lemma_forward_flags(id, length, compressed);
    crate::wire::lemma_pack_unpack(FORWARD, flags);
    assert(b[i + 0] == enc[0]);
    assert(b[i] == spec_pack_type(FORWARD, flags));
    assert(spec_unpack_type(b[i]).0 == FORWARD && spec_unpack_type(b[i]).1 == flags);
    let i1: int = i + 1;
    let i2: int = i1 + vid.len();
    let i3: int = i2 + vlen.len();
    assert(enc.len() == 1 + vid.len() + vlen.len() + payload.len());
    assert forall|q: int| 0 <= q < vid.len() implies b[i1 + q] == vid[q] by {
        assert(b[i + (1 + q)] == enc[1 + q]);
    }
    lemma_variadic_pointwise(b, i1, id);
    assert(parse_variadic_at(b, i1, flags & C_SHORT == C_SHORT) == Some((id, i2)));
    assert forall|q: int| 0 <= q < vlen.len() implies b[i2 + q] == vlen[q] by {
        assert(b[i + (1 + vid.len() + q)] == enc[1 + vid.len() + q]);
    }
    lemma_variadic_pointwise(b, i2, length);
    assert(parse_variadic_at(b, i2, flags & SHORT == SHORT) == Some((length, i3)));
    assert(length as int == payload.len());
    assert forall|q: int| 0 <= q < payload.len() implies b[i3 + q] == payload[q] by {
        assert(b[i + (1 + vid.len() + vlen.len() + q)] == enc[1 + vid.len() + vlen.len() + q]);
    }
    assert(b.subrange(i3, i3 + length as int) =~= payload);
    assert(!(length > max));
    if compressed {
        assert(crate::compress::spec_inflate_checked(payload, max) == Ok::<
            Seq<u8>,
            crate::compress::DecompressError,
        >(result_buffer));
    }
}

/// The decoder finds a frame wherever its encoding stands in a longer byte
/// stream: parsing at the frame's start yields the frame and stops exactly
/// at its end, whatever follows. This is what lets frames be decoded one
/// after another out of a single receive buffer.
pub proof fn lemma_frame_parse_embedded(b: Seq<u8>, i: int, f: FrameModel, side: CodecSide, max: int)
    requires
        frame_wire_valid(f, max),
        readable_on(f, side),
        0 <= i,
        i + spec_encode_frame(f).len() <= b.len(),
        b.subrange(i, i + spec_encode_frame(f).len() as int) == spec_encode_frame(f),
    ensures
        parse_frame_at(b, i, side, max) == Some((f, i + spec_encode_frame(f).len() as int)),
{
    let enc = spec_encode_frame(f);
    assert forall|k: int| 0 <= k < enc.len() implies b[i + k] == enc[k] by {
        assert(b.subrange(i, i + enc.len() as int)[k] == b[i + k]);
    }
    assert(b[i] == enc[0]);
    match f {
        FrameModel::Ping => {
            crate::wire::lemma_pack_unpack(PING, 0);
        },
        FrameModel::Sync => {
            crate::wire::lemma_pack_unpack(SYNC, 0);
        },
        FrameModel::PingResponse { name } => {
            crate::wire::lemma_pack_unpack(PING, 0);
            assert(b[i + 1] == enc[1]);
            assert forall|q: int| 0 <= q < name.len() implies b[i + 2 + q] == name[q] by {
                assert(b[i + (2 + q)] == enc[2 + q]);
            }
            lemma_lp_pointwise(b, i + 1, name);
        },
        FrameModel::Authorize { magic } => {
            crate::wire::lemma_pack_unpack(AUTH, 0);
            assert(b[i + 1] == enc[1]);
            assert forall|q: int| 0 <= q < magic.len() implies b[i + 2 + q] == magic[q] by {
                assert(b[i + (2 + q)] == enc[2 + q]);
            }
            lemma_lp_pointwise(b, i + 1, magic);
        },
        FrameModel::SyncResponse { threshold, level, profit } => {
            crate::wire::lemma_pack_unpack(SYNC, 0);
            assert(enc.len() == 6);
            assert(b[i + 1] == enc[1]);
            assert(enc[1] == level as u8);
            assert(b[i + 1] == level as u8);
            assert((level as u8) as u16 == level) by (bit_vector)
                requires
                    level <= 0xff,
            ;
            assert(b[i + 2] == enc[2] && b[i + 3] == enc[3] && b[i + 4] == enc[4] && b[i + 5]
                == enc[5]);
            lemma_le16_pointwise(b, i + 2, profit);
            lemma_le16_pointwise(b, i + 4, threshold);
        },
        FrameModel::Connect { id } => {
            let fl: u8 = if id <= 0xff {
                C_SHORT
            } else {
                0
            };
            crate::wire::lemma_pack_unpack(CONNECT, fl);
            assert((fl & C_SHORT == C_SHORT) <==> id <= 0xff) by (bit_vector)
                requires
                    fl == 2u8 || fl == 0u8,
                    (fl == 2u8) <==> id <= 0xff,
            ;
            assert forall|q: int|
                0 <= q < spec_variadic(id).len() implies b[i + 1 + q] == spec_variadic(id)[q] by {
                assert(b[i + (1 + q)] == enc[1 + q]);
            }
            lemma_variadic_pointwise(b, i + 1, id);
        },
        FrameModel::Disconnect { id } => {
            let fl: u8 = if id <= 0xff {
                C_SHORT
            } else {
                0
            };
            crate::wire::lemma_pack_unpack(DISCONNECT, fl);
            assert((fl & C_SHORT == C_SHORT) <==> id <= 0xff) by (bit_vector)
                requires
                    fl == 2u8 || fl == 0u8,
                    (fl == 2u8) <==> id <= 0xff,
            ;
            assert forall|q: int|
                0 <= q < spec_variadic(id).len() implies b[i + 1 + q] == spec_variadic(id)[q] by {
                assert(b[i + (1 + q)] == enc[1 + q]);
            }
            lemma_variadic_pointwise(b, i + 1, id);
        },
        FrameModel::Forward { id, buffer } => {
            lemma_parse_forward(b, i, id, buffer, false, side, max, buffer);
        },
        FrameModel::Error { code } => {
            crate::wire::lemma_pack_unpack(ERROR, 0);
            assert(b[i + 1] == enc[1]);
        },
        FrameModel::RightsUpdate { rights } => {
            crate::wire::lemma_pack_unpack(UPDATE_RIGHTS, 0);
            assert(b[i + 1] == enc[1]);
        },
        FrameModel::Server { protocol, port } => {
            if protocol is Tcp && port == 0 {
                crate::wire::lemma_pack_unpack(SERVER, SHORT);
                assert(SHORT & SHORT == SHORT) by (bit_vector);
            } else if protocol is Tcp {
                crate::wire::lemma_pack_unpack(SERVER, C_SHORT);
                assert(C_SHORT & SHORT != SHORT && C_SHORT & C_SHORT == C_SHORT) by (bit_vector);
                assert(b[i + 1] == enc[1] && b[i + 2] == enc[2]);
                lemma_le16_pointwise(b, i + 1, port);
            } else if port == 0 {
                crate::wire::lemma_pack_unpack(SERVER, COMPRESSED);
                assert(COMPRESSED & SHORT != SHORT && COMPRESSED & C_SHORT != C_SHORT && COMPRESSED
                    & COMPRESSED == COMPRESSED) by (bit_vector);
                assert(b[i + 1] == enc[1]);
                assert(TransportProtocol::spec_from_code(protocol.spec_code()) == protocol);
            } else {
                crate::wire::lemma_pack_unpack(SERVER, 0);
                assert(0u8 & SHORT != SHORT && 0u8 & C_SHORT != C_SHORT && 0u8 & COMPRESSED
                    != COMPRESSED) by (bit_vector);
                assert(b[i + 1] == enc[1] && b[i + 2] == enc[2] && b[i + 3] == enc[3]);
                assert(TransportProtocol::spec_from_code(protocol.spec_code()) == protocol);
                lemma_le16_pointwise(b, i + 2, port);
            }
        },
        FrameModel::ServerResponse { host, port } => {
            crate::wire::lemma_pack_unpack(SERVER, 0);
            assert(0u8 & SHORT != SHORT) by (bit_vector);
            assert(b[i + 1] == enc[1]);
            assert forall|q: int| 0 <= q < host.len() implies b[i + 2 + q] == host[q] by {
                assert(b[i + (2 + q)] == enc[2 + q]);
            }
            lemma_lp_pointwise(b, i + 1, host);
            let k = i + 1 + 1 + host.len() as int;
            assert(b[k] == enc[2 + host.len() as int] && b[k + 1] == enc[3 + host.len() as int]);
            lemma_le16_pointwise(b, k, port);
        },
    }
}

/// Reading back what the encoder wrote gives the frame that was written:
/// the round trip holds for every frame whose fields fit the wire format,
/// on the side that frame is addressed to.
pub proof fn lemma_frame_round_trip(f: FrameModel, side: CodecSide, max: int)
    requires
        frame_wire_valid(f, max),
        readable_on(f, side),
    ensures
        parse_frame_at(spec_encode_frame(f), 0, side, max) == Some(
            (f, spec_encode_frame(f).len() as int),
        ),
{
    let enc = spec_encode_frame(f);
    assert(enc.subrange(0, enc.len() as int) =~= enc);
    lemma_frame_parse_embedded(enc, 0, f, side, max);
}

/// Appends a copy of `src` to `out`.
pub fn append_bytes(out: &mut Vec<u8>, src: &Vec<u8>)
    ensures
        final(out)@ == old(out)@ + src@,
{
    let n = src.len();
    let mut i: usize = 0;
    while i < n
        invariant
            0 <= i <= n,
            n == src@.len(),
            out@ == old(out)@ + src@.subrange(0, i as int),
        decreases n - i,
    {
        out.push(src[i]);
        proof {
            assert(out@ =~= old(out)@ + src@.subrange(0, (i + 1) as int));
        }
        i += 1;
    }
    proof {
        assert(out@ =~= old(out)@ + src@);
    }
}

/// Encodes frames for one side of the control connection under the
/// session's compression settings.
pub struct CodecWriter {
    pub params: ZStdParams,
}

impl CodecWriter {
    pub fn new(level: i32, profit: u16, threshold: usize) -> (r: Self)
        ensures
            r.params == (ZStdParams { threshold, level, profit }),
    {
        Self { params: ZStdParams { threshold, level, profit } }
    }

    /// The bytes of a ping request.
    pub fn write_ping_request(&self) -> (r: Vec<u8>)
        ensures
            r@ == spec_encode_frame(FrameModel::Ping),
    {
        let mut out: Vec<u8> = Vec::new();
        out.push(pack_type(PING, 0));
        proof {
            assert(out@ =~= spec_encode_frame(FrameModel::Ping));
        }
        out
    }

    /// The bytes of a ping response carrying this server's name.
    pub fn write_ping_response(&self, name: &Vec<u8>) -> (r: Vec<u8>)
        requires
            name@.len() <= 0xff,
        ensures
            r@ == spec_encode_frame(FrameModel::PingResponse { name: name@ }),
    {
        let mut out: Vec<u8> = Vec::new();
        out.push(pack_type(PING, 0));
        self.write_string(&mut out, name);
        proof {
            assert(out@ =~= spec_encode_frame(FrameModel::PingResponse { name: name@ }));
        }
        out
    }

    /// The bytes of an authorization frame carrying the pre-shared token.
    pub fn write_authorize(&self, magic: &Vec<u8>) -> (r: Vec<u8>)
        requires
            magic@.len() <= 0xff,
        ensures
            r@ == spec_encode_frame(FrameModel::Authorize { magic: magic@ }),
    {
        let mut out: Vec<u8> = Vec::new();
        out.push(pack_type(AUTH, 0));
        self.write_string(&mut out, magic);
        proof {
            assert(out@ =~= spec_encode_frame(FrameModel::Authorize { magic: magic@ }));
        }
        out
    }

    /// The bytes of a rights update.
    pub fn write_update_rights(&self, rights: u8) -> (r: Vec<u8>)
        ensures
            r@ == spec_encode_frame(FrameModel::RightsUpdate { rights }),
    {
        let mut out: Vec<u8> = Vec::new();
        out.push(pack_type(UPDATE_RIGHTS, 0));
        out.push(rights);
        proof {
            assert(out@ =~= spec_encode_frame(FrameModel::RightsUpdate { rights }));
        }
        out
    }

    /// The bytes of a sync request.
    pub fn write_sync_request(&self) -> (r: Vec<u8>)
        ensures
            r@ == spec_encode_frame(FrameModel::Sync),
    {
        let mut out: Vec<u8> = Vec::new();
        out.push(pack_type(SYNC, 0));
        proof {
            assert(out@ =~= spec_encode_frame(FrameModel::Sync));
        }
        out
    }

    /// The bytes of a sync response carrying the server's compression
    /// settings; the profit fraction travels in parts per thousand.
    pub fn write_sync_response(&self, level: u16, profit: u16, threshold: u16) -> (r: Vec<u8>)
        requires
            level <= 0xff,
        ensures
            r@ == spec_encode_frame(FrameModel::SyncResponse { threshold, level, profit }),
    {
        let mut out: Vec<u8> = Vec::new();
        out.push(pack_type(SYNC, 0));
        out.push(level as u8);
        out.push((profit & 0xff) as u8);
        out.push((profit >> 8) as u8);
        out.push((threshold & 0xff) as u8);
        out.push((threshold >> 8) as u8);
        proof {
            assert(out@ =~= spec_encode_frame(
                FrameModel::SyncResponse { threshold, level, profit },
            ));
        }
        out
    }

    /// The bytes of a connect frame.
    pub fn write_connect(&self, id: u16) -> (r: Vec<u8>)
        ensures
            r@ == spec_encode_frame(FrameModel::Connect { id }),
    {
        self.write_pkt_client_id(CONNECT, id)
    }

    /// The bytes of a disconnect frame.
    pub fn write_disconnect(&self, id: u16) -> (r: Vec<u8>)
        ensures
            r@ == spec_encode_frame(FrameModel::Disconnect { id }),
    {
        self.write_pkt_client_id(DISCONNECT, id)
    }

    /// The bytes of a header-plus-connection-id frame: the id is written
    /// one byte wide when it fits, and the header flags say so.
    pub fn write_pkt_client_id(&self, pkt_type: u8, id: u16) -> (r: Vec<u8>)
        requires
            pkt_type < 32,
        ensures
            r@ == seq![
                spec_pack_type(pkt_type, if id <= 0xff { C_SHORT } else { 0u8 }),
            ] + spec_variadic(id),
    {
        let flags: u8 = if id <= 0xff {
            C_SHORT
        } else {
            0
        };
        let mut out: Vec<u8> = Vec::new();
        out.push(pack_type(pkt_type, flags));
        serialize_variadic(&mut out, id);
        proof {
            assert(out@ =~= seq![
                spec_pack_type(pkt_type, if id <= 0xff { C_SHORT } else { 0u8 }),
            ] + spec_variadic(id));
        }
        out
    }

    /// Appends a one- or two-byte `u16` to `out`; the returned flags are
    /// `flag` when the short form was used, and empty otherwise.
    pub fn write_variadic(&self, out: &mut Vec<u8>, flag: u8, value: u16) -> (r: u8)
        ensures
            final(out)@ == old(out)@ + spec_variadic(value),
            r == if value <= 0xff { flag } else { 0u8 },
    {
        let short = serialize_variadic(out, value);
        if short {
            flag
        } else {
            0
        }
    }

    /// Appends a payload length.
    pub fn write_length(&self, out: &mut Vec<u8>, value: u16) -> (r: u8)
        ensures
            final(out)@ == old(out)@ + spec_variadic(value),
            r == if value <= 0xff { SHORT } else { 0u8 },
    {
        self.write_variadic(out, SHORT, value)
    }

    /// Appends a connection id.
    pub fn write_client_id(&self, out: &mut Vec<u8>, value: u16) -> (r: u8)
        ensures
            final(out)@ == old(out)@ + spec_variadic(value),
            r == if value <= 0xff { C_SHORT } else { 0u8 },
    {
        self.write_variadic(out, C_SHORT, value)
    }

    /// The bytes of an error frame.
    pub fn write_error(&self, code: u8) -> (r: Vec<u8>)
        ensures
            r@ == spec_encode_frame(FrameModel::Error { code }),
    {
        let mut out: Vec<u8> = Vec::new();
        out.push(pack_type(ERROR, 0));
        out.push(code);
        proof {
            assert(out@ =~= spec_encode_frame(FrameModel::Error { code }));
        }
        out
    }

    /// The bytes of a server request, in its compact forms: a bare header
    /// for the default TCP request, and the protocol and port only where
    /// they differ from the defaults.
    pub fn write_request_server(&self, protocol: TransportProtocol, port: u16) -> (r: Vec<u8>)
        ensures
            r@ == spec_encode_frame(FrameModel::Server { protocol, port }),
    {
        let mut out: Vec<u8> = Vec::new();
        if protocol == TransportProtocol::Tcp && port == 0 {
            out.push(pack_type(SERVER, SHORT));
        } else if protocol == TransportProtocol::Tcp {
            out.push(pack_type(SERVER, C_SHORT));
            out.push((port & 0xff) as u8);
            out.push((port >> 8) as u8);
        } else if port == 0 {
            out.push(pack_type(SERVER, COMPRESSED));
            out.push(protocol.code());
        } else {
            out.push(pack_type(SERVER, 0));
            out.push(protocol.code());
            out.push((port & 0xff) as u8);
            out.push((port >> 8) as u8);
        }
        proof {
            assert(out@ =~= spec_encode_frame(FrameModel::Server { protocol, port }));
        }
        out
    }

    /// The bytes of a server response that names no host.
    pub fn write_port(&self, port: u16) -> (r: Vec<u8>)
        ensures
            r@ == spec_encode_frame(FrameModel::ServerResponse { host: Seq::empty(), port }),
    {
        let empty: Vec<u8> = Vec::new();
        self.write_server_response(&empty, port)
    }

    /// The bytes of a server response: the bound host and port.
    pub fn write_server_response(&self, host: &Vec<u8>, port: u16) -> (r: Vec<u8>)
        requires
            host@.len() <= 0xff,
        ensures
            r@ == spec_encode_frame(FrameModel::ServerResponse { host: host@, port }),
    {
        let mut out: Vec<u8> = Vec::new();
        out.push(pack_type(SERVER, 0));
        self.write_string(&mut out, host);
        out.push((port & 0xff) as u8);
        out.push((port >> 8) as u8);
        proof {
            assert(out@ =~= spec_encode_frame(FrameModel::ServerResponse { host: host@, port }));
        }
        out
    }

    /// Appends a length-prefixed byte string.
    pub fn write_string(&self, out: &mut Vec<u8>, src: &Vec<u8>)
        requires
            src@.len() <= 0xff,
        ensures
            final(out)@ == old(out)@ + spec_lp_bytes(src@),
    {
        out.push(src.len() as u8);
        append_bytes(out, src);
        proof {
            assert(out@ =~= old(out)@ + spec_lp_bytes(src@));
        }
    }

    /// The bytes of a forward frame. The payload is compressed when it
    /// meets the session's threshold and profit settings, and sent as it
    /// is otherwise; either way, a decoder whose payload limit admits the
    /// payload reads back exactly the frame that was written.
    pub fn write_forward(&self, id: u16, buf: Vec<u8>) -> (r: Vec<u8>)
        requires
            buf@.len() <= 0xffff,
        ensures
            r@ == spec_forward_encoding(id, buf@, false) || (r@ == spec_forward_encoding(
                id,
                zstd_compressed(buf@, self.params.level),
                true,
            ) && buf@.len() >= self.params.threshold && spec_enough_profit(
                self.params.profit,
                buf@.len() as int,
                zstd_compressed(buf@, self.params.level).len() as int,
            )),
            buf@.len() < self.params.threshold ==> r@ == spec_forward_encoding(id, buf@, false),
            !spec_enough_profit(
                self.params.profit,
                buf@.len() as int,
                zstd_compressed(buf@, self.params.level).len() as int,
            ) ==> r@ == spec_forward_encoding(id, buf@, false),
            (buf@.len() >= self.params.threshold && spec_enough_profit(
                self.params.profit,
                buf@.len() as int,
                zstd_compressed(buf@, self.params.level).len() as int,
            )) ==> r@ == spec_forward_encoding(
                id,
                zstd_compressed(buf@, self.params.level),
                true,
            ),
            forall|side: CodecSide, max: int|
                buf@.len() <= max ==> #[trigger] parse_frame_at(r@, 0, side, max) == Some(
                    (FrameModel::Forward { id, buffer: buf@ }, r@.len() as int),
                ),
            forall|stream: Seq<u8>, i: int, side: CodecSide, max: int|
                {
                    &&& buf@.len() <= max
                    &&& 0 <= i
                    &&& i + r@.len() <= stream.len()
                    &&& stream.subrange(i, i + r@.len() as int) == r@
                } ==> #[trigger] parse_frame_at(stream, i, side, max) == Some(
                    (FrameModel::Forward { id, buffer: buf@ }, i + r@.len() as int),
                ),
    {
        let compressed_payload = maybe_compress(&buf, &self.params);
        let ghost original = buf@;
        let (payload, compressed): (Vec<u8>, bool) = match compressed_payload {
            Some(c) => (c, true),
            None => (buf, false),
        };
        let length: u16 = payload.len() as u16;
        let flags: u8 = (if compressed {
            COMPRESSED
        } else {
            0
        }) | (if id <= 0xff {
            C_SHORT
        } else {
            0
        }) | (if length <= 0xff {
            SHORT
        } else {
            0
        });
        proof {
            lemma_forward_flags(id, length, compressed);
            assert(flags == spec_forward_flags(id, length, compressed));
        }
        let mut out: Vec<u8> = Vec::new();
        out.push(pack_type(FORWARD, flags));
        serialize_variadic(&mut out, id);
        serialize_variadic(&mut out, length);
        append_bytes(&mut out, &payload);
        proof {
            assert(out@ =~= spec_forward_encoding(id, payload@, compressed));
            assert forall|side: CodecSide, max: int|
                original.len() <= max implies #[trigger] parse_frame_at(out@, 0, side, max)
                == Some(
                (FrameModel::Forward { id, buffer: original }, out@.len() as int),
            ) by {
                lemma_parse_forward(out@, 0, id, payload@, compressed, side, max, original);
            }
            assert forall|stream: Seq<u8>, i: int, side: CodecSide, max: int|
                {
                    &&& original.len() <= max
                    &&& 0 <= i
                    &&& i + out@.len() <= stream.len()
                    &&& stream.subrange(i, i + out@.len() as int) == out@
                } implies #[trigger] parse_frame_at(stream, i, side, max) == Some(
                (FrameModel::Forward { id, buffer: original }, i + out@.len() as int),
            ) by {
                assert forall|k: int| 0 <= k < out@.len() implies stream[i + k] == out@[k] by {
                    assert(stream.subrange(i, i + out@.len() as int)[k] == stream[i + k]);
                }
                lemma_parse_forward(stream, i, id, payload@, compressed, side, max, original);
            }
        }
        out
    }
}

} // verus!
