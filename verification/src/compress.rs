//! Trusted boundary to the DEFLATE implementation (the flate2 crate).
//!
//! What a DEFLATE stream decodes to is a function of the stream alone; it is
//! named by `inflate_of` rather than spelled out, and both wrappers speak of
//! that name.

use vstd::prelude::*;
use std::io::Read;

verus! {

/// What a DEFLATE stream decodes to: `Some(bytes)` for a well-formed stream,
/// `None` for a corrupt one.
pub uninterp spec fn inflate_of(s: Seq<u8>) -> Option<Seq<u8>>;

/// Relies on flate2's `Decompress` (raw DEFLATE): on success the output is
/// the full decoded stream.  `limit` bounds the decoded size; the call fails
/// rather than truncate, and it fails only when the stream is corrupt or its
/// decode does not fit the limit.
#[verifier::external_body]
pub fn inflate(data: &Vec<u8>, limit: u32) -> (r: Result<Vec<u8>, ()>)
    ensures
        r matches Ok(v) ==> inflate_of(data@) == Some(v@) && v@.len() <= limit,
        r is Err ==> !(inflate_of(data@) matches Some(v) && v.len() <= limit),
{
    let mut out = vec![0u8; limit as usize];
    let mut d = flate2::Decompress::new(false);
    match d.decompress(&data[..], &mut out[..], flate2::FlushDecompress::Finish) {
        Ok(flate2::Status::StreamEnd) => {
            let n = d.total_out() as usize;
            out.truncate(n);
            Ok(out)
        },
        _ => Err(()),
    }
}

/// Relies on flate2's `DeflateEncoder`: compressing then decompressing gives
/// back the input, so the result decodes to `data`.  Reading from a
/// slice-backed encoder cannot fail, so neither can this call.
#[verifier::external_body]
pub fn deflate(data: &Vec<u8>) -> (r: Vec<u8>)
    ensures
        inflate_of(r@) == Some(data@),
{
    let mut enc = flate2::bufread::DeflateEncoder::new(&data[..], flate2::Compression::default());
    let mut out = Vec::new();
    enc.read_to_end(&mut out).expect("reading from a slice cannot fail");
    out
}

} // verus!
