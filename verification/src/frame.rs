//! The frame delta pipeline: what the host sends for each captured frame and
//! how the viewer rebuilds the frame from it.
//!
//! A frame is a planar YUV420 buffer. The first frame of a session travels
//! whole; every later one travels as its byte-wise exclusive-or against the
//! frame before it. Either way the bytes are compressed and framed with a
//! three-byte length.

use crate::codec::deflate;
use crate::codec::deflated;
use crate::codec::inflate;
use crate::codec::inflated;
use crate::codec::par_xor;
use crate::codec::xor_bytes;
use crate::wire::be_bytes;
use crate::wire::encode;
use crate::wire::FrameMeta;
use vstd::prelude::*;

verus! {

/// The bytes that stand for `current` on the wire before compression: the
/// frame itself at the start of a session, else its difference from the
/// frame before.
pub open spec fn delta_of(previous: Option<Seq<u8>>, current: Seq<u8>) -> Seq<u8> {
    match previous {
        None => current,
        Some(p) => xor_bytes(p, current),
    }
}

/// The frame that the viewer rebuilds from a decompressed payload.
pub open spec fn rebuilt_from(previous: Option<Seq<u8>>, delta: Seq<u8>) -> Seq<u8> {
    match previous {
        None => delta,
        Some(p) => xor_bytes(delta, p),
    }
}

/// Whether two frames agree on their first `n` bytes.
pub open spec fn same_prefix(a: Seq<u8>, b: Seq<u8>, n: int) -> bool {
    a.subrange(0, n) == b.subrange(0, n)
}

/// Applying a delta twice undoes it: the difference of `a` and `b`, applied
/// to `a`, is `b`.
pub proof fn lemma_xor_round_trip(a: Seq<u8>, b: Seq<u8>)
    requires
        a.len() == b.len(),
    ensures
        xor_bytes(a, xor_bytes(a, b)) == b,
        xor_bytes(xor_bytes(a, b), a) == b,
{
    assert forall|i: int| 0 <= i < a.len() implies a[i] ^ (a[i] ^ b[i]) == b[i] && (a[i] ^ b[i])
        ^ a[i] == b[i] by {
        let x: u8 = a[i];
        let y: u8 = b[i];
        assert(x ^ (x ^ y) == y && (x ^ y) ^ x == y) by (bit_vector);
    }
    assert(xor_bytes(a, xor_bytes(a, b)) =~= b);
    assert(xor_bytes(xor_bytes(a, b), a) =~= b);
}

/// The difference against an all-zero frame is the frame itself, so the
/// first frame of a session is the delta against nothing.
pub proof fn lemma_xor_zero(zero: Seq<u8>, frame: Seq<u8>)
    requires
        zero.len() == frame.len(),
        forall|i: int| 0 <= i < zero.len() ==> zero[i] == 0,
    ensures
        xor_bytes(zero, frame) == frame,
        xor_bytes(frame, zero) == frame,
{
    assert forall|i: int| 0 <= i < frame.len() implies zero[i] ^ frame[i] == frame[i] && frame[i]
        ^ zero[i] == frame[i] by {
        let y: u8 = frame[i];
        assert(0u8 ^ y == y && y ^ 0u8 == y) by (bit_vector);
    }
    assert(xor_bytes(zero, frame) =~= frame);
    assert(xor_bytes(frame, zero) =~= frame);
}

/// A delta is zero exactly at the positions where the two frames agree.
pub proof fn lemma_delta_marks_changes(a: Seq<u8>, b: Seq<u8>, i: int)
    requires
        a.len() == b.len(),
        0 <= i < a.len(),
    ensures
        xor_bytes(a, b)[i] == 0 <==> a[i] == b[i],
{
    let x: u8 = a[i];
    let y: u8 = b[i];
    assert((x == y) <==> (x ^ y == 0)) by (bit_vector);
}

/// A viewer that holds the same previous frame as the host rebuilds exactly
/// the frame that the host encoded.
pub proof fn lemma_delta_reconstructs(previous: Option<Seq<u8>>, current: Seq<u8>)
    requires
        previous matches Some(p) ==> p.len() == current.len(),
    ensures
        rebuilt_from(previous, delta_of(previous, current)) == current,
{
    if let Some(p) = previous {
        lemma_xor_round_trip(p, current);
    }
}

/// A compressed payload with its length prefix, ready to be written.
pub struct EncodedFrame {
    pub header: [u8; 3],
    pub payload: Vec<u8>,
}

impl EncodedFrame {
    /// The bytes as they travel: prefix, then payload.
    pub open spec fn wire(self) -> Seq<u8> {
        self.header@ + self.payload@
    }
}

/// Puts the length prefix in front of a compressed payload.
pub fn frame_payload(payload: Vec<u8>) -> (framed: EncodedFrame)
    ensures
        framed.payload@ == payload@,
        framed.header@ == be_bytes(payload@.len(), 3),
{
    let header: [u8; 3] = encode(payload.len());
    EncodedFrame { header, payload }
}

/// Compares the first `n` bytes of two buffers.
pub fn prefix_equal(a: &Vec<u8>, b: &Vec<u8>, n: usize) -> (same: bool)
    requires
        n <= a.len(),
        n <= b.len(),
    ensures
        same == same_prefix(a@, b@, n as int),
{
    let mut i: usize = 0;
    while i < n
        invariant
            i <= n,
            n <= a.len(),
            n <= b.len(),
            forall|j: int| 0 <= j < i ==> a@[j] == b@[j],
        decreases n - i,
    {
        if a[i] != b[i] {
            proof {
                assert(a@.subrange(0, n as int)[i as int] == a@[i as int]);
                assert(b@.subrange(0, n as int)[i as int] == b@[i as int]);
            }
            return false;
        }
        i = i + 1;
    }
    proof {
        assert(a@.subrange(0, n as int) =~= b@.subrange(0, n as int));
    }
    true
}

/// Why the viewer refused a payload.
#[derive(Clone, Copy, Debug, PartialEq, Eq, Structural)]
pub enum FrameError {
    /// The payload is not a DEFLATE stream that the decompressor accepts.
    Corrupt,
    /// The payload decompressed to a buffer that is not one planar frame long.
    WrongSize,
}

/// Host side of the pipeline: remembers the last frame that was sent.
pub struct HostPipeline {
    meta: FrameMeta,
    previous: Vec<u8>,
    started: bool,
}

impl HostPipeline {
    /// The dimensions that the session runs at.
    pub closed spec fn meta(self) -> FrameMeta {
        self.meta
    }

    /// The last frame sent, once one has been sent.
    pub closed spec fn previous(self) -> Option<Seq<u8>> {
        if self.started {
            Some(self.previous@)
        } else {
            None
        }
    }

    /// The remembered frame, where there is one, has the session's frame size.
    pub closed spec fn wf(self) -> bool {
        &&& self.meta.wf()
        &&& self.started ==> self.previous@.len() == self.meta.planar_len()
        &&& !self.started ==> self.previous@.len() == 0
    }

    /// Whether `current` would be skipped: a frame has been sent and its luma
    /// plane is byte for byte that of `current`.
    pub open spec fn skips(self, current: Seq<u8>) -> bool {
        self.previous() matches Some(p) && same_prefix(p, current, self.meta().luma_len() as int)
    }

    /// A pipeline that has sent nothing yet.
    pub fn new(meta: FrameMeta) -> (host: HostPipeline)
        requires
            meta.wf(),
        ensures
            host.wf(),
            host.meta() == meta,
            host.previous() is None,
    {
        HostPipeline { meta, previous: Vec::new(), started: false }
    }

    /// The dimensions that the session runs at.
    pub fn dimensions(&self) -> (meta: FrameMeta)
        ensures
            meta == self.meta(),
    {
        self.meta
    }

    /// The four bytes that open the frame stream, before the first frame.
    pub fn preamble(&self) -> (bytes: [u8; 4])
        ensures
            bytes@ == self.meta().wire(),
    {
        self.meta.encode()
    }

    /// The last frame sent, if any.
    pub fn last_sent(&self) -> (frame: Option<&Vec<u8>>)
        ensures
            frame matches Some(f) ==> self.previous() == Some(f@),
            frame is None <==> self.previous() is None,
    {
        if self.started {
            Some(&self.previous)
        } else {
            None
        }
    }

    /// Takes the next captured frame and returns what to write, if anything.
    ///
    /// The first frame is compressed as it is. A later frame whose luma plane
    /// equals that of the last frame sent is dropped and leaves the pipeline
    /// untouched; any other is sent as its compressed difference from the last
    /// frame sent and becomes the last frame sent.
    pub fn next_frame(&mut self, current: Vec<u8>) -> (out: Option<EncodedFrame>)
        requires
            old(self).wf(),
            current@.len() == old(self).meta().planar_len(),
        ensures
            final(self).wf(),
            final(self).meta() == old(self).meta(),
            out is None <==> old(self).skips(current@),
            out is None ==> *final(self) == *old(self),
            out matches Some(framed) ==> {
                &&& final(self).previous() == Some(current@)
                &&& framed.payload@ == deflated(delta_of(old(self).previous(), current@))
                &&& inflated(framed.payload@) == Some(delta_of(old(self).previous(), current@))
                &&& framed.header@ == be_bytes(framed.payload@.len(), 3)
            },
    {
        if !self.started {
            let payload: Vec<u8> = deflate(current.as_slice());
            self.previous = current;
            self.started = true;
            return Some(frame_payload(payload));
        }
        let luma: u64 = self.meta.luma_size();
        let n: usize = luma as usize;
        if prefix_equal(&self.previous, &current, n) {
            return None;
        }
        par_xor(&mut self.previous, &current);
        let payload: Vec<u8> = deflate(self.previous.as_slice());
        self.previous = current;
        Some(frame_payload(payload))
    }
}

/// Viewer side of the pipeline: remembers the last frame that was rebuilt.
pub struct ViewerPipeline {
    meta: FrameMeta,
    previous: Vec<u8>,
    started: bool,
}

impl ViewerPipeline {
    /// The dimensions that the session runs at.
    pub closed spec fn meta(self) -> FrameMeta {
        self.meta
    }

    /// The last frame rebuilt, once one has been.
    pub closed spec fn previous(self) -> Option<Seq<u8>> {
        if self.started {
            Some(self.previous@)
        } else {
            None
        }
    }

    /// The remembered frame, where there is one, has the session's frame size.
    pub closed spec fn wf(self) -> bool {
        &&& self.meta.wf()
        &&& self.started ==> self.previous@.len() == self.meta.planar_len()
        &&& !self.started ==> self.previous@.len() == 0
    }

    /// A pipeline that has received nothing yet.
    pub fn new(meta: FrameMeta) -> (viewer: ViewerPipeline)
        requires
            meta.wf(),
        ensures
            viewer.wf(),
            viewer.meta() == meta,
            viewer.previous() is None,
    {
        ViewerPipeline { meta, previous: Vec::new(), started: false }
    }

    /// The dimensions that the session runs at.
    pub fn dimensions(&self) -> (meta: FrameMeta)
        ensures
            meta == self.meta(),
    {
        self.meta
    }

    /// The frame to display: the last one rebuilt, if any.
    pub fn frame(&self) -> (frame: Option<&Vec<u8>>)
        ensures
            frame matches Some(f) ==> self.previous() == Some(f@),
            frame is None <==> self.previous() is None,
    {
        if self.started {
            Some(&self.previous)
        } else {
            None
        }
    }

    /// Takes a decompressed payload and rebuilds the frame it stands for.
    ///
    /// A buffer of any length but that of a planar frame is refused and
    /// changes nothing. The first buffer of a session is the frame; a later
    /// one is combined with the last frame rebuilt.
    pub fn apply_delta(&mut self, delta: Vec<u8>) -> (out: Result<(), FrameError>)
        requires
            old(self).wf(),
        ensures
            final(self).wf(),
            final(self).meta() == old(self).meta(),
            out is Ok <==> delta@.len() == old(self).meta().planar_len(),
            out is Ok ==> final(self).previous() == Some(
                rebuilt_from(old(self).previous(), delta@),
            ),
            out is Err ==> out == Err::<(), FrameError>(FrameError::WrongSize) && *final(self)
                == *old(self),
    {
        let expected: u64 = self.meta.planar_size();
        if delta.len() as u64 != expected {
            return Err(FrameError::WrongSize);
        }
        if !self.started {
            self.previous = delta;
            self.started = true;
        } else {
            let mut rebuilt: Vec<u8> = delta;
            par_xor(&mut rebuilt, &self.previous);
            self.previous = rebuilt;
        }
        Ok(())
    }

    /// Takes a payload as it came off the wire, without its length prefix.
    ///
    /// The payload is decompressed and handed to `apply_delta`. A payload that
    /// the decompressor rejects is `Corrupt`; one that decompresses to the
    /// wrong length is `WrongSize`; either leaves the pipeline untouched.
    pub fn receive(&mut self, payload: &[u8]) -> (out: Result<(), FrameError>)
        requires
            old(self).wf(),
        ensures
            final(self).wf(),
            final(self).meta() == old(self).meta(),
            match out {
                Ok(()) => inflated(payload@) matches Some(delta) && delta.len() == old(
                    self,
                ).meta().planar_len() && final(self).previous() == Some(
                    rebuilt_from(old(self).previous(), delta),
                ),
                Err(FrameError::Corrupt) => inflated(payload@) is None && *final(self) == *old(
                    self,
                ),
                Err(FrameError::WrongSize) => inflated(payload@) matches Some(delta) && delta.len()
                    != old(self).meta().planar_len() && *final(self) == *old(self),
            },
    {
        match inflate(payload) {
            Ok(delta) => self.apply_delta(delta),
            Err(_) => Err(FrameError::Corrupt),
        }
    }
}

} // verus!
