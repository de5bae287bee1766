//! Adaptive payload compression. A payload is sent compressed only when it
//! is long enough to be worth trying and the compressed form shrinks it by
//! at least a configured profit fraction; decompression first reads the
//! size declared in the compressed envelope and rejects anything that would
//! exceed the session's payload limit, before any output buffer of that
//! size is allocated.
//!
//! The compressor itself is the zstd library; its results are named rather
//! than described, and everything decided about them is decided here.

use vstd::prelude::*;

verus! {

/// The bytes zstd produces for `data` at `level`: one frame, a function of
/// the input bytes and the level alone.
pub uninterp spec fn zstd_compressed(data: Seq<u8>, level: i32) -> Seq<u8>;

/// The content zstd recovers from a frame, a function of the frame bytes
/// alone; `None` when the bytes are not one well-formed frame.
pub uninterp spec fn zstd_inflated(data: Seq<u8>) -> Option<Seq<u8>>;

/// The content size recorded in a frame's header, a function of the frame
/// bytes alone; `None` when absent or unreadable.
pub uninterp spec fn zstd_content_size(data: Seq<u8>) -> Option<u64>;

/// Relies on zstd::bulk::compress: produces one compressed frame, a
/// deterministic function of the input bytes and the level. The call cannot
/// fail: the destination buffer is sized by compress_bound, which zstd
/// guarantees is always enough, and an out-of-range level is clamped, never
/// an error. The frame header records the input length (the single-shot API
/// knows it), and decompressing the frame gives the input back (compression
/// is lossless).
#[verifier::external_body]
pub(crate) fn compress(src: &Vec<u8>, level: i32) -> (r: Vec<u8>)
    ensures
        r@ == zstd_compressed(src@, level),
        zstd_content_size(r@) == Some(src@.len() as u64),
        zstd_inflated(r@) == Some(src@),
{
    zstd::bulk::compress(src.as_slice(), level).expect("a compress_bound-sized buffer suffices")
}

/// Relies on zstd::bulk::decompress, called only on bytes whose envelope
/// declares exactly `capacity` bytes of content (the requires): recovering
/// a deterministic function of the frame bytes, it then fails exactly when
/// the bytes are malformed, and success yields exactly the declared number
/// of bytes — zstd verifies each frame's regenerated size against its
/// header, and no further concatenated frame can add content within
/// `capacity`.
#[verifier::external_body]
pub(crate) fn decompress(src: &Vec<u8>, capacity: usize) -> (r: Option<Vec<u8>>)
    requires
        zstd_content_size(src@) == Some(capacity as u64),
    ensures
        r matches Some(out) ==> zstd_inflated(src@) == Some(out@) && out@.len() <= capacity,
        r matches Some(out) ==> (zstd_content_size(src@) matches Some(sz) ==> out@.len() == sz),
        r is None ==> (zstd_inflated(src@) is None || zstd_inflated(src@).unwrap().len()
            > capacity),
{
    zstd::bulk::decompress(src.as_slice(), capacity).ok()
}

/// Relies on zstd::zstd_safe::get_frame_content_size: reads the content
/// size recorded in a frame header, a deterministic function of the bytes;
/// an error or an absent size both come back as `None`.
#[verifier::external_body]
pub(crate) fn frame_content_size(src: &Vec<u8>) -> (r: Option<u64>)
    ensures
        r == zstd_content_size(src@),
{
    match zstd::zstd_safe::get_frame_content_size(src.as_slice()) {
        Ok(Some(size)) => Some(size),
        _ => None,
    }
}

/// Compression settings of one session. `profit` is the minimum fractional
/// size reduction, in parts per thousand, required before a compressed
/// payload is preferred; `threshold` is the payload length below which
/// compression is not even attempted.
#[derive(Debug, Clone, Copy, PartialEq, Eq, Structural)]
pub struct ZStdParams {
    pub threshold: usize,
    pub level: i32,
    pub profit: u16,
}

/// Whether shrinking `was` bytes to `now` bytes saves at least `profit`
/// parts per thousand of the original size.
pub open spec fn spec_enough_profit(profit: u16, was: int, now: int) -> bool {
    now < was && (was - now) * 1000 >= (profit as int) * was
}

impl ZStdParams {
    /// Whether a compression from `was` bytes to `now` bytes shrinks by at
    /// least this session's profit fraction.
    pub fn enough_profit(&self, was: usize, now: usize) -> (r: bool)
        ensures
            r == spec_enough_profit(self.profit, was as int, now as int),
    {
        if now >= was {
            false
        } else {
            let saved: u128 = (was - now) as u128;
            let lhs: u128 = saved * 1000;
            proof {
                assert((self.profit as u128) * (was as u128) <= 0xffff * 0xffffffffffffffffu128)
                    by (nonlinear_arith)
                    requires
                        self.profit <= 0xffff,
                        was <= 0xffffffffffffffffu128,
                ;
            }
            let rhs: u128 = (self.profit as u128) * (was as u128);
            lhs >= rhs
        }
    }
}

/// Why a compressed payload was rejected: its declared content size is
/// absent, zero or over the session limit, or its bytes are malformed.
#[derive(Debug, Clone, Copy, PartialEq, Eq, Structural)]
pub enum DecompressError {
    TooLong,
    Malformed,
}

/// What size-checked decompression yields for the bytes `b` under the
/// payload limit `max`: the declared content size is read first and
/// rejected when absent, zero or over the limit; only then is the content
/// recovered.
pub open spec fn spec_inflate_checked(b: Seq<u8>, max: int) -> Result<Seq<u8>, DecompressError> {
    match zstd_content_size(b) {
        Some(sz) => if 1 <= sz && sz <= max {
            match zstd_inflated(b) {
                Some(out) => if out.len() == sz {
                    Ok(out)
                } else {
                    Err(DecompressError::Malformed)
                },
                None => Err(DecompressError::Malformed),
            }
        } else {
            Err(DecompressError::TooLong)
        },
        None => Err(DecompressError::TooLong),
    }
}

/// Decompresses `bytes`, but first reads the content size declared in the
/// envelope and rejects the payload, without allocating an output buffer,
/// when that size is absent, zero, or larger than `max_payload_size`. The
/// output can never exceed `max_payload_size` bytes.
pub fn decompress_checked(bytes: &Vec<u8>, max_payload_size: usize) -> (r: Result<
    Vec<u8>,
    DecompressError,
>)
    ensures
        match r {
            Ok(out) => spec_inflate_checked(bytes@, max_payload_size as int) == Ok::<
                Seq<u8>,
                DecompressError,
            >(out@) && out@.len() <= max_payload_size,
            Err(e) => spec_inflate_checked(bytes@, max_payload_size as int) == Err::<
                Seq<u8>,
                DecompressError,
            >(e),
        },
        (match zstd_content_size(bytes@) {
            Some(sz) => sz > max_payload_size || sz == 0,
            None => true,
        }) ==> r == Err::<Vec<u8>, DecompressError>(DecompressError::TooLong),
        r matches Ok(out) ==> zstd_content_size(bytes@) == Some(out@.len() as u64),
{
    match frame_content_size(bytes) {
        Some(size) => {
            if size >= 1 && size <= max_payload_size as u64 {
                match decompress(bytes, size as usize) {
                    Some(out) => Ok(out),
                    None => Err(DecompressError::Malformed),
                }
            } else {
                Err(DecompressError::TooLong)
            }
        },
        None => Err(DecompressError::TooLong),
    }
}

/// Compresses `payload` and keeps the result only when the payload is at
/// least `params.threshold` bytes long and the compressed form saves at
/// least the configured profit fraction; otherwise the payload should be
/// sent as it is.
pub fn maybe_compress(payload: &Vec<u8>, params: &ZStdParams) -> (r: Option<Vec<u8>>)
    ensures
        r matches Some(c) ==> {
            &&& payload@.len() >= params.threshold
            &&& c@ == zstd_compressed(payload@, params.level)
            &&& spec_enough_profit(params.profit, payload@.len() as int, c@.len() as int)
            &&& c@.len() < payload@.len()
            &&& zstd_inflated(c@) == Some(payload@)
            &&& zstd_content_size(c@) == Some(payload@.len() as u64)
        },
        (payload@.len() >= params.threshold && spec_enough_profit(
            params.profit,
            payload@.len() as int,
            zstd_compressed(payload@, params.level).len() as int,
        )) <==> r is Some,
{
    if payload.len() < params.threshold {
        return None;
    }
    let candidate = compress(payload, params.level);
    if params.enough_profit(payload.len(), candidate.len()) {
        Some(candidate)
    } else {
        None
    }
}

} // verus!
