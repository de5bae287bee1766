//! Decoding one frame from a byte buffer. The decoder is given the bytes
//! received so far and a start position; it either consumes one whole frame
//! or reports that more bytes are needed. Which frame an ordinal means
//! depends on the side doing the reading, and oversized or malformed
//! compressed payloads come back as `Error` frames rather than failures,
//! so the session can answer the peer and stay alive.

use vstd::prelude::*;

use crate::compress::{decompress_checked, spec_inflate_checked, DecompressError};
use crate::frame::{FrameModel, NFrame, TransportProtocol};
use crate::side::CodecSide;
use crate::wire::{
    le16_at, parse_lp_bytes_at, parse_variadic_at, spec_unpack_type, unpack_type, AUTH, COMPRESSED,
    CONNECT, C_SHORT, DECOMPRESS_ERR, DISCONNECT, ERROR, FORWARD, PING, SERVER, SHORT, SYNC,
    TOO_LONG, UNKNOWN_PKT, UPDATE_RIGHTS,
};

verus! {

/// What one frame at index `i` of the byte sequence `b` decodes to on the
/// given side, under the payload limit `max`: the frame and the index just
/// past it, or `None` when the bytes run out before the frame does.
pub open spec fn parse_frame_at(b: Seq<u8>, i: int, side: CodecSide, max: int) -> Option<
    (FrameModel, int),
> {
    if !(0 <= i && i + 1 <= b.len()) {
        None
    } else {
        let t = spec_unpack_type(b[i]).0;
        let flags = spec_unpack_type(b[i]).1;
        let j = i + 1;
        if t == PING {
            if side is Server {
                Some((FrameModel::Ping, j))
            } else {
                match parse_lp_bytes_at(b, j) {
                    Some((name, k)) => Some((FrameModel::PingResponse { name }, k)),
                    None => None,
                }
            }
        } else if t == AUTH {
            if side is Server {
                match parse_lp_bytes_at(b, j) {
                    Some((magic, k)) => Some((FrameModel::Authorize { magic }, k)),
                    None => None,
                }
            } else {
                Some((FrameModel::Error { code: UNKNOWN_PKT }, j))
            }
        } else if t == SYNC {
            if side is Server {
                Some((FrameModel::Sync, j))
            } else {
                if j + 5 <= b.len() {
                    Some(
                        (
                            FrameModel::SyncResponse {
                                level: b[j] as u16,
                                profit: le16_at(b, j + 1),
                                threshold: le16_at(b, j + 3),
                            },
                            j + 5,
                        ),
                    )
                } else {
                    None
                }
            }
        } else if t == SERVER {
            if side is Server {
                if flags & SHORT == SHORT {
                    Some((FrameModel::Server { protocol: TransportProtocol::Tcp, port: 0 }, j))
                } else if flags & C_SHORT == C_SHORT {
                    if j + 2 <= b.len() {
                        Some(
                            (
                                FrameModel::Server {
                                    protocol: TransportProtocol::Tcp,
                                    port: le16_at(b, j),
                                },
                                j + 2,
                            ),
                        )
                    } else {
                        None
                    }
                } else if flags & COMPRESSED == COMPRESSED {
                    if j + 1 <= b.len() {
                        Some(
                            (
                                FrameModel::Server {
                                    protocol: TransportProtocol::spec_from_code(b[j]),
                                    port: 0,
                                },
                                j + 1,
                            ),
                        )
                    } else {
                        None
                    }
                } else {
                    if j + 3 <= b.len() {
                        Some(
                            (
                                FrameModel::Server {
                                    protocol: TransportProtocol::spec_from_code(b[j]),
                                    port: le16_at(b, j + 1),
                                },
                                j + 3,
                            ),
                        )
                    } else {
                        None
                    }
                }
            } else {
                match parse_lp_bytes_at(b, j) {
                    Some((host, k)) => if k + 2 <= b.len() {
                        Some((FrameModel::ServerResponse { host, port: le16_at(b, k) }, k + 2))
                    } else {
                        None
                    },
                    None => None,
                }
            }
        } else if t == CONNECT {
            match parse_variadic_at(b, j, flags & C_SHORT == C_SHORT) {
                Some((id, k)) => Some((FrameModel::Connect { id }, k)),
                None => None,
            }
        } else if t == DISCONNECT {
            match parse_variadic_at(b, j, flags & C_SHORT == C_SHORT) {
                Some((id, k)) => Some((FrameModel::Disconnect { id }, k)),
                None => None,
            }
        } else if t == FORWARD {
            match parse_variadic_at(b, j, flags & C_SHORT == C_SHORT) {
                Some((id, k)) => match parse_variadic_at(b, k, flags & SHORT == SHORT) {
                    Some((length, m)) => if m + length <= b.len() {
                        let payload = b.subrange(m, m + length);
                        let end = m + length;
                        if length > max {
                            Some((FrameModel::Error { code: TOO_LONG }, end))
                        } else if flags & COMPRESSED == COMPRESSED {
                            match spec_inflate_checked(payload, max) {
                                Ok(out) => Some((FrameModel::Forward { id, buffer: out }, end)),
                                Err(DecompressError::TooLong) => Some(
                                    (FrameModel::Error { code: TOO_LONG }, end),
                                ),
                                Err(DecompressError::Malformed) => Some(
                                    (FrameModel::Error { code: DECOMPRESS_ERR }, end),
                                ),
                            }
                        } else {
                            Some((FrameModel::Forward { id, buffer: payload }, end))
                        }
                    } else {
                        None
                    },
                    None => None,
                },
                None => None,
            }
        } else if t == ERROR {
            if j + 1 <= b.len() {
                Some((FrameModel::Error { code: b[j] }, j + 1))
            } else {
                None
            }
        } else if t == UPDATE_RIGHTS {
            if j + 1 <= b.len() {
                Some((FrameModel::RightsUpdate { rights: b[j] }, j + 1))
            } else {
                None
            }
        } else {
            Some((FrameModel::Error { code: UNKNOWN_PKT }, j))
        }
    }
}

/// A copy of `n` bytes of `buf` starting at `start`.
pub fn copy_range(buf: &Vec<u8>, start: usize, n: usize) -> (r: Vec<u8>)
    requires
        start + n <= buf@.len(),
    ensures
        r@ == buf@.subrange(start as int, start as int + n as int),
{
    let buf_len = buf.len();
    let mut out: Vec<u8> = Vec::new();
    let mut i: usize = 0;
    while i < n
        invariant
            0 <= i <= n,
            start + n <= buf_len,
            buf_len == buf@.len(),
            out@ == buf@.subrange(start as int, start as int + i as int),
        decreases n - i,
    {
        out.push(buf[start + i]);
        proof {
            assert(out@ =~= buf@.subrange(start as int, start as int + (i + 1) as int));
        }
        i += 1;
    }
    out
}

/// Decodes frames read on one side of the control connection, rejecting any
/// payload that would exceed `max_payload_size` once decoded.
pub struct CodecReader {
    pub max_payload_size: usize,
    pub side: CodecSide,
}

impl CodecReader {
    /// Reads the raw packed header byte at `pos`.
    pub fn read_type(&self, buf: &Vec<u8>, pos: usize) -> (r: Option<u8>)
        ensures
            match r {
                Some(d) => pos < buf@.len() && d == buf@[pos as int],
                None => pos >= buf@.len(),
            },
    {
        if pos < buf.len() {
            Some(buf[pos])
        } else {
            None
        }
    }

    /// Reads a one- or two-byte `u16` at `pos`; the width is the one the
    /// `need` bit of `flags` announces.
    pub fn read_variadic(&self, buf: &Vec<u8>, pos: usize, flags: u8, need: u8) -> (r: Option<
        (u16, usize),
    >)
        ensures
            match r {
                Some((v, end)) => parse_variadic_at(buf@, pos as int, flags & need == need)
                    == Some((v, end as int)) && pos < end <= buf@.len(),
                None => parse_variadic_at(buf@, pos as int, flags & need == need) is None,
            },
    {
        if flags & need == need {
            if pos < buf.len() {
                Some((buf[pos] as u16, pos + 1))
            } else {
                None
            }
        } else {
            read_u16_le(buf, pos)
        }
    }

    /// Reads a connection id at `pos`, one byte when the header said so.
    pub fn read_client_id(&self, buf: &Vec<u8>, pos: usize, flags: u8) -> (r: Option<
        (u16, usize),
    >)
        ensures
            match r {
                Some((v, end)) => parse_variadic_at(buf@, pos as int, flags & C_SHORT == C_SHORT)
                    == Some((v, end as int)) && pos < end <= buf@.len(),
                None => parse_variadic_at(buf@, pos as int, flags & C_SHORT == C_SHORT) is None,
            },
    {
        self.read_variadic(buf, pos, flags, C_SHORT)
    }

    /// Reads a payload length at `pos`, one byte when the header said so.
    pub fn read_length(&self, buf: &Vec<u8>, pos: usize, flags: u8) -> (r: Option<(u16, usize)>)
        ensures
            match r {
                Some((v, end)) => parse_variadic_at(buf@, pos as int, flags & SHORT == SHORT)
                    == Some((v, end as int)) && pos < end <= buf@.len(),
                None => parse_variadic_at(buf@, pos as int, flags & SHORT == SHORT) is None,
            },
    {
        self.read_variadic(buf, pos, flags, SHORT)
    }

    /// Reads a length-prefixed byte string at `pos`.
    pub fn read_string(&self, buf: &Vec<u8>, pos: usize) -> (r: Option<(Vec<u8>, usize)>)
        ensures
            match r {
                Some((s, end)) => parse_lp_bytes_at(buf@, pos as int) == Some((s@, end as int))
                    && pos < end <= buf@.len(),
                None => parse_lp_bytes_at(buf@, pos as int) is None,
            },
    {
        if pos >= buf.len() {
            return None;
        }
        let n: usize = buf[pos] as usize;
        if buf.len() - (pos + 1) >= n {
            let s = copy_range(buf, pos + 1, n);
            Some((s, pos + 1 + n))
        } else {
            None
        }
    }

    /// Decodes one frame at `pos`, or reports that more bytes are needed.
    /// The result is exactly what `parse_frame_at` says of the buffer.
    #[verifier::rlimit(100)]
    pub fn read_frame(&self, buf: &Vec<u8>, pos: usize) -> (r: Option<(NFrame, usize)>)
        ensures
            match r {
                Some((f, end)) => parse_frame_at(
                    buf@,
                    pos as int,
                    self.side,
                    self.max_payload_size as int,
                ) == Some((f@, end as int)) && pos < end <= buf@.len(),
                None => parse_frame_at(
                    buf@,
                    pos as int,
                    self.side,
                    self.max_payload_size as int,
                ) is None,
            },
    {
        let buf_len = buf.len();
        let data = match self.read_type(buf, pos) {
            Some(d) => d,
            None => {
                return None;
            },
        };
        let (t, flags) = unpack_type(data);
        let j = pos + 1;
        if t == PING {
            if self.side.is_server() {
                Some((NFrame::Ping, j))
            } else {
                match self.read_string(buf, j) {
                    Some((name, k)) => Some((NFrame::PingResponse { name }, k)),
                    None => None,
                }
            }
        } else if t == AUTH {
            if self.side.is_server() {
                match self.read_string(buf, j) {
                    Some((magic, k)) => Some((NFrame::Authorize { magic }, k)),
                    None => None,
                }
            } else {
                Some((NFrame::Error { code: UNKNOWN_PKT }, j))
            }
        } else if t == SYNC {
            if self.side.is_server() {
                Some((NFrame::Sync, j))
            } else {
                if buf.len() >= j && buf.len() - j >= 5 {
                    let level = buf[j] as u16;
                    let profit = match read_u16_le(buf, j + 1) {
                        Some((v, _)) => v,
                        None => {
                            return None;
                        },
                    };
                    let threshold = match read_u16_le(buf, j + 3) {
                        Some((v, _)) => v,
                        None => {
                            return None;
                        },
                    };
                    Some((NFrame::SyncResponse { level, profit, threshold }, j + 5))
                } else {
                    None
                }
            }
        } else if t == SERVER {
            if self.side.is_server() {
                if flags & SHORT == SHORT {
                    Some((NFrame::Server { protocol: TransportProtocol::Tcp, port: 0 }, j))
                } else if flags & C_SHORT == C_SHORT {
                    match read_u16_le(buf, j) {
                        Some((port, k)) => Some(
                            (NFrame::Server { protocol: TransportProtocol::Tcp, port }, k),
                        ),
                        None => None,
                    }
                } else if flags & COMPRESSED == COMPRESSED {
                    if j < buf.len() {
                        Some(
                            (
                                NFrame::Server {
                                    protocol: TransportProtocol::from_code(buf[j]),
                                    port: 0,
                                },
                                j + 1,
                            ),
                        )
                    } else {
                        None
                    }
                } else {
                    if j < buf.len() {
                        let protocol = TransportProtocol::from_code(buf[j]);
                        match read_u16_le(buf, j + 1) {
                            Some((port, k)) => Some((NFrame::Server { protocol, port }, k)),
                            None => None,
                        }
                    } else {
                        None
                    }
                }
            } else {
                match self.read_string(buf, j) {
                    Some((host, k)) => match read_u16_le(buf, k) {
                        Some((port, m)) => Some((NFrame::ServerResponse { host, port }, m)),
                        None => None,
                    },
                    None => None,
                }
            }
        } else if t == CONNECT {
            match self.read_client_id(buf, j, flags) {
                Some((id, k)) => Some((NFrame::Connect { id }, k)),
                None => None,
            }
        } else if t == DISCONNECT {
            match self.read_client_id(buf, j, flags) {
                Some((id, k)) => Some((NFrame::Disconnect { id }, k)),
                None => None,
            }
        } else if t == FORWARD {
            let (id, k) = match self.read_client_id(buf, j, flags) {
                Some(v) => v,
                None => {
                    return None;
                },
            };
            let (length, m) = match self.read_length(buf, k, flags) {
                Some(v) => v,
                None => {
                    return None;
                },
            };
            let length_us = length as usize;
            if buf.len() - m < length_us {
                return None;
            }
            let end = m + length_us;
            if length_us > self.max_payload_size {
                return Some((NFrame::Error { code: TOO_LONG }, end));
            }
            let payload = copy_range(buf, m, length_us);
            if flags & COMPRESSED == COMPRESSED {
                match decompress_checked(&payload, self.max_payload_size) {
                    Ok(out) => Some((NFrame::Forward { id, buffer: out }, end)),
                    Err(DecompressError::TooLong) => Some((NFrame::Error { code: TOO_LONG }, end)),
                    Err(DecompressError::Malformed) => Some(
                        (NFrame::Error { code: DECOMPRESS_ERR }, end),
                    ),
                }
            } else {
                Some((NFrame::Forward { id, buffer: payload }, end))
            }
        } else if t == ERROR {
            if j < buf.len() {
                Some((NFrame::Error { code: buf[j] }, j + 1))
            } else {
                None
            }
        } else if t == UPDATE_RIGHTS {
            if j < buf.len() {
                Some((NFrame::RightsUpdate { rights: buf[j] }, j + 1))
            } else {
                None
            }
        } else {
            Some((NFrame::Error { code: UNKNOWN_PKT }, j))
        }
    }

    /// A reader for the client end, which accepts payloads of any length.
    pub fn client() -> (r: Self)
        ensures
            r.side is Client,
            r.max_payload_size == usize::MAX,
    {
        Self::new(usize::MAX, CodecSide::Client)
    }

    /// A reader for the server end, bounded by `max_payload_size`.
    pub fn server(max_payload_size: usize) -> (r: Self)
        ensures
            r.side is Server,
            r.max_payload_size == max_payload_size,
    {
        Self::new(max_payload_size, CodecSide::Server)
    }

    pub fn new(max_payload_size: usize, side: CodecSide) -> (r: Self)
        ensures
            r.side == side,
            r.max_payload_size == max_payload_size,
    {
        Self { max_payload_size, side }
    }
}

/// Reads a two-byte little-endian `u16` at `pos`.
pub fn read_u16_le(buf: &Vec<u8>, pos: usize) -> (r: Option<(u16, usize)>)
    ensures
        match r {
            Some((v, end)) => parse_variadic_at(buf@, pos as int, false) == Some((v, end as int))
                && pos < end <= buf@.len(),
            None => parse_variadic_at(buf@, pos as int, false) is None,
        },
{
    if buf.len() >= 2 && pos <= buf.len() - 2 {
        let v: u16 = (buf[pos] as u16) | ((buf[pos + 1] as u16) << 8);
        Some((v, pos + 2))
    } else {
        None
    }
}

} // verus!
