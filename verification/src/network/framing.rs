//! Framing packets on the connection: each packet is sent after its length as a `VarInt`,
//! and once the server has set a compression threshold, packets at least that long are
//! sent zlib-compressed after their uncompressed length.
use vstd::prelude::*;

use crate::network::base128::{encoded_len, ends_within, lemma_encoded_len};
use crate::network::base128::lemma_encoding_round_trip;
use crate::network::types::{
    law_leading_value_ignores_rest, law_varint_round_trip, varint_at_start, varint_bytes, VarInt,
};

verus! {

/// The zlib stream that `miniz_oxide` makes of `data` at compression level 0.
pub uninterp spec fn zlib_stored(data: Seq<u8>) -> Seq<u8>;

/// The bytes that `miniz_oxide` inflates the zlib stream `data` to; `None` where it
/// reports an error.
pub uninterp spec fn zlib_inflated(data: Seq<u8>) -> Option<Seq<u8>>;

/// Compresses `data` into a zlib stream with
/// `miniz_oxide::deflate::compress_to_vec_zlib` at level 0. The stream depends on the
/// data alone, and zlib is lossless: inflating the stream gives the data back.
#[verifier::external_body]
fn compress_zlib(data: &Vec<u8>) -> (out: Vec<u8>)
    ensures
        out@ == zlib_stored(data@),
        zlib_inflated(out@) == Some(data@),
{
    miniz_oxide::deflate::compress_to_vec_zlib(data.as_slice(), 0)
}

/// Inflates the zlib stream `data` with `miniz_oxide::inflate::decompress_to_vec_zlib`,
/// which puts no bound on the size of what it inflates. The result depends on the data
/// alone. Not said here: streams that inflate to more than memory can hold.
#[verifier::external_body]
fn decompress_zlib(data: &[u8]) -> (out: Option<Vec<u8>>)
    ensures
        match out {
            Some(v) => zlib_inflated(data@) == Some(v@),
            None => zlib_inflated(data@) is None,
        },
{
    match miniz_oxide::inflate::decompress_to_vec_zlib(data) {
        Ok(v) => Some(v),
        Err(_) => None,
    }
}

/// What follows a packet's length on the connection. Without compression it is the
/// packet. With a threshold, a packet at least that long is its uncompressed length then
/// its zlib stream, and a shorter one is a zero then the packet.
pub open spec fn frame_body(packet: Seq<u8>, threshold: Option<usize>) -> Seq<u8> {
    match threshold {
        None => packet,
        Some(t) => if packet.len() >= t {
            varint_bytes(packet.len() as i32) + zlib_stored(packet)
        } else {
            seq![0u8] + packet
        },
    }
}

/// A packet as it is sent: the length of its frame body as a `VarInt`, then the body.
pub open spec fn framed(packet: Seq<u8>, threshold: Option<usize>) -> Seq<u8> {
    varint_bytes(frame_body(packet, threshold).len() as i32) + frame_body(packet, threshold)
}

/// Why a frame body could not be unpacked.
#[derive(Debug, Clone, Copy, PartialEq, Eq, Structural)]
pub enum FrameError {
    /// The body ended inside its uncompressed length.
    Truncated,
    /// The zlib stream could not be inflated.
    Corrupt,
}

/// The packet in a frame body: as it is without compression; with compression, the
/// bytes after the uncompressed length when that length is zero, and otherwise the
/// inflated zlib stream after it.
pub open spec fn unframed(body: Seq<u8>, compressed: bool) -> Result<Seq<u8>, FrameError> {
    if !compressed {
        Ok(body)
    } else {
        match encoded_len(body) {
            None => Err(FrameError::Truncated),
            Some(n) => if varint_at_start(body) == Some(0i32) {
                Ok(body.skip(n as int))
            } else {
                match zlib_inflated(body.skip(n as int)) {
                    Some(p) => Ok(p),
                    None => Err(FrameError::Corrupt),
                }
            },
        }
    }
}

/// The bytes to write for `packet`, length first, compressing it when a threshold is set
/// and the packet is at least that long.
pub fn frame_packet(packet: &Vec<u8>, threshold: Option<usize>) -> (out: Vec<u8>)
    ensures
        out@ == framed(packet@, threshold),
        threshold matches Some(t) && packet@.len() >= t ==> zlib_inflated(zlib_stored(packet@))
            == Some(packet@),
{
    let mut body: Vec<u8> = Vec::new();
    match threshold {
        None => {
            body.extend_from_slice(packet.as_slice());
        },
        Some(t) => {
            if packet.len() >= t {
                let mut data_length = VarInt(packet.len() as i32).to_bytes();
                let mut compressed = compress_zlib(packet);
                body.append(&mut data_length);
                body.append(&mut compressed);
            } else {
                body.push(0u8);
                body.extend_from_slice(packet.as_slice());
            }
        },
    }
    assert(body@ =~= frame_body(packet@, threshold));
    let mut out = VarInt(body.len() as i32).to_bytes();
    out.append(&mut body);
    out
}

/// The packet in a frame body, given whether compression is on. The body must not hold
/// an uncompressed length whose first five bytes all carry the continuation bit.
pub fn unframe(body: &Vec<u8>, compressed: bool) -> (res: Result<Vec<u8>, FrameError>)
    requires
        compressed ==> ends_within(body@, 5) || body@.len() <= 5,
    ensures
        match res {
            Ok(p) => unframed(body@, compressed) == Ok::<Seq<u8>, FrameError>(p@),
            Err(e) => unframed(body@, compressed) == Err::<Seq<u8>, FrameError>(e),
        },
{
    if !compressed {
        return Ok(body.clone());
    }
    proof {
        lemma_encoded_len(body@);
    }
    if body.len() == 0 {
        return Err(FrameError::Truncated);
    }
    assert(body@.skip(0) =~= body@);
    let (data_len, n) = VarInt::from_vec(body, 0);
    if n == 0 {
        return Err(FrameError::Truncated);
    }
    let rest = vstd::slice::slice_subrange(body.as_slice(), n, body.len());
    assert(rest@ =~= body@.skip(n as int));
    if data_len.0 == 0 {
        return Ok(vstd::slice::slice_to_vec(rest));
    }
    match decompress_zlib(rest) {
        Some(p) => Ok(p),
        None => Err(FrameError::Corrupt),
    }
}

/// Unpacking a frame body gives back the packet that was framed. Where the packet was
/// compressed, its zlib stream must inflate back to it (as `frame_packet` states of the
/// streams it makes), and its length must fit a positive `VarInt`: an empty packet at a
/// zero threshold would be taken for an uncompressed one.
pub proof fn law_frame_round_trip(packet: Seq<u8>, threshold: Option<usize>)
    requires
        threshold matches Some(t) && packet.len() >= t ==> {
            &&& 0 < packet.len() < 0x8000_0000
            &&& zlib_inflated(zlib_stored(packet)) == Some(packet)
        },
    ensures
        unframed(frame_body(packet, threshold), threshold is Some) == Ok::<Seq<u8>, FrameError>(
            packet,
        ),
{
    let body = frame_body(packet, threshold);
    match threshold {
        None => {},
        Some(t) => {
            if packet.len() >= t {
                let len = packet.len() as i32;
                let e = varint_bytes(len);
                law_varint_round_trip(len);
                lemma_encoding_round_trip(len as u32 as nat);
                law_leading_value_ignores_rest(e, zlib_stored(packet), 5);
                assert(body.skip(e.len() as int) =~= zlib_stored(packet));
            } else {
                assert(body.skip(1) =~= packet);
                assert(body.take(1) =~= seq![0u8]);
                assert(encoded_len(body) == Some(1nat));
                law_varint_round_trip(0);
                lemma_encoding_round_trip(0);
                assert(varint_bytes(0) =~= seq![0u8]);
                law_leading_value_ignores_rest(seq![0u8], packet, 5);
                assert(seq![0u8] + packet =~= body);
                assert(varint_at_start(body) == Some(0i32));
            }
        },
    }
}

} // verus!
