//! The two outside engines of the frame pipeline: DEFLATE compression and
//! the data-parallel byte transform.
//!
//! The calls into `flate2` and `rayon` are made here and nowhere else. What
//! each is taken to do is stated and not proved; the pipeline is verified
//! against these statements.

use flate2::write::DeflateDecoder;
use flate2::write::DeflateEncoder;
use flate2::Compression;
use rayon::iter::IndexedParallelIterator;
use rayon::iter::IntoParallelRefIterator;
use rayon::iter::IntoParallelRefMutIterator;
use rayon::iter::ParallelIterator;
use std::io::Write;
use vstd::prelude::*;

verus! {

/// The raw DEFLATE stream that the compressor emits for `data` at its
/// default level.
pub uninterp spec fn deflated(data: Seq<u8>) -> Seq<u8>;

/// What the decompressor makes of `data`: the bytes it emits, or `None`
/// where it rejects the stream.
pub uninterp spec fn inflated(data: Seq<u8>) -> Option<Seq<u8>>;

/// `target` with each byte that has a partner in `other` replaced by the
/// exclusive-or of the two; bytes beyond the end of `other` stay.
pub open spec fn xor_bytes(target: Seq<u8>, other: Seq<u8>) -> Seq<u8> {
    Seq::new(
        target.len(),
        |i: int|
            if i < other.len() {
                target[i] ^ other[i]
            } else {
                target[i]
            },
    )
}

/// Error of the standard I/O traits, as the decompressor reports a bad stream.
#[verifier::external_type_specification]
#[verifier::external_body]
pub struct ExIoError(std::io::Error);

/// The transform applied to each pair of bytes.
pub fn xor_byte(a: u8, b: u8) -> (r: u8)
    ensures
        r == a ^ b,
{
    a ^ b
}

/// Runs `flate2::write::DeflateEncoder` at the default level over `data` and
/// finishes the stream. Taken on trust: the output depends on `data` alone,
/// and, DEFLATE being lossless, the decompressor below turns it back into
/// `data`.
#[verifier::external_body]
pub(crate) fn deflate(data: &[u8]) -> (out: Vec<u8>)
    ensures
        out@ == deflated(data@),
        inflated(out@) == Some(data@),
{
    let mut encoder = DeflateEncoder::new(Vec::new(), Compression::default());
    encoder.write_all(data).unwrap();
    encoder.finish().unwrap()
}

/// Runs `flate2::write::DeflateDecoder` over `data` and finishes the stream.
/// Taken on trust: whether the stream is accepted, and the bytes it yields,
/// depend on `data` alone. Nothing is claimed about which streams are
/// accepted, beyond what `deflate` says of its own output.
#[verifier::external_body]
pub(crate) fn inflate(data: &[u8]) -> (out: Result<Vec<u8>, std::io::Error>)
    ensures
        out matches Ok(bytes) ==> inflated(data@) == Some(bytes@),
        out is Err ==> inflated(data@) is None,
{
    let mut decoder = DeflateDecoder::new(Vec::new());
    decoder.write_all(data)?;
    decoder.finish()
}

/// Pairs the bytes of `target` and `other` with rayon's `par_iter_mut`,
/// `par_iter` and `zip`, and lets `for_each` replace each byte of `target`
/// by `xor_byte` of the pair. Taken on trust: every pair up to the shorter
/// length is visited exactly once, and nothing else is touched.
#[verifier::external_body]
pub(crate) fn par_xor(target: &mut Vec<u8>, other: &Vec<u8>)
    ensures
        final(target)@ == xor_bytes(old(target)@, other@),
{
    target.par_iter_mut().zip(other.par_iter()).for_each(
        |(a, b)| {
            *a = xor_byte(*a, *b);
        },
    );
}

} // verus!
