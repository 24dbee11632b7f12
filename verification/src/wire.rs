//! Big-endian integer fields and the fixed headers built from them.

use vstd::prelude::*;

verus! {

/// Number of distinct values that `width` bytes can carry: 256 to the power `width`.
pub open spec fn be_limit(width: nat) -> nat
    decreases width,
{
    if width == 0 {
        1
    } else {
        256 * be_limit((width - 1) as nat)
    }
}

/// The `width` low-order bytes of `value`, most significant byte first.
pub open spec fn be_bytes(value: nat, width: nat) -> Seq<u8>
    decreases width,
{
    if width == 0 {
        Seq::empty()
    } else {
        be_bytes(value / 256, (width - 1) as nat).push((value % 256) as u8)
    }
}

/// The number that a byte string denotes when read most significant byte first.
pub open spec fn be_value(bytes: Seq<u8>) -> nat
    decreases bytes.len(),
{
    if bytes.len() == 0 {
        0
    } else {
        be_value(bytes.drop_last()) * 256 + bytes.last() as nat
    }
}

/// Size of the length prefix that precedes every compressed payload.
pub const LENGTH_PREFIX_LEN: usize = 3;

/// One more than the largest payload length that the prefix carries exactly.
pub const LENGTH_PREFIX_LIMIT: usize = 0x100_0000;

/// `be_bytes` yields exactly `width` bytes.
pub proof fn lemma_be_bytes_len(value: nat, width: nat)
    ensures
        be_bytes(value, width).len() == width,
    decreases width,
{
    if width > 0 {
        lemma_be_bytes_len(value / 256, (width - 1) as nat);
    }
}

/// A byte string of length `n` denotes a number below 256 to the power `n`.
pub proof fn lemma_be_value_bound(bytes: Seq<u8>)
    ensures
        be_value(bytes) < be_limit(bytes.len()),
    decreases bytes.len(),
{
    if bytes.len() > 0 {
        lemma_be_value_bound(bytes.drop_last());
    }
}

/// Reading back an encoded number gives the number reduced modulo 256 to the
/// power `width`; a number that fits comes back unchanged.
pub proof fn lemma_be_value_of_bytes(value: nat, width: nat)
    ensures
        be_value(be_bytes(value, width)) == value % be_limit(width),
        value < be_limit(width) ==> be_value(be_bytes(value, width)) == value,
    decreases width,
{
    if width > 0 {
        let high: Seq<u8> = be_bytes(value / 256, (width - 1) as nat);
        let all: Seq<u8> = be_bytes(value, width);
        lemma_be_value_of_bytes(value / 256, (width - 1) as nat);
        assert(all.drop_last() =~= high);
        let m: nat = be_limit((width - 1) as nat);
        lemma_be_limit_positive((width - 1) as nat);
        vstd::arithmetic::div_mod::lemma_mod_breakdown(value as int, 256, m as int);
        if value < 256 * m {
            vstd::arithmetic::div_mod::lemma_small_mod(value, 256 * m);
        }
    } else {
        assert(value % 1 == 0);
    }
}

/// Encoding the number that a byte string denotes, at the string's own
/// length, gives the string back.
pub proof fn lemma_be_bytes_of_value(bytes: Seq<u8>)
    ensures
        be_bytes(be_value(bytes), bytes.len()) == bytes,
    decreases bytes.len(),
{
    if bytes.len() > 0 {
        let head: Seq<u8> = bytes.drop_last();
        lemma_be_bytes_of_value(head);
        let v: nat = be_value(bytes);
        assert(v / 256 == be_value(head));
        assert(v % 256 == bytes.last() as nat);
        assert(be_bytes(v, bytes.len()) =~= bytes);
    } else {
        assert(be_bytes(be_value(bytes), bytes.len()) =~= bytes);
    }
}

/// 256 to any power is at least one.
pub proof fn lemma_be_limit_positive(width: nat)
    ensures
        be_limit(width) > 0,
    decreases width,
{
    if width > 0 {
        lemma_be_limit_positive((width - 1) as nat);
    }
}

/// Writes a payload length as its three-byte prefix. Only the low 24 bits
/// are carried: a length of `LENGTH_PREFIX_LIMIT` or more is reduced modulo
/// that limit.
pub fn encode(data_len: usize) -> (res: [u8; 3])
    ensures
        res@ == be_bytes(data_len as nat, 3),
        data_len < LENGTH_PREFIX_LIMIT ==> be_value(res@) == data_len,
{
    let b0: u8 = ((data_len >> 16) & 0xff) as u8;
    let b1: u8 = ((data_len >> 8) & 0xff) as u8;
    let b2: u8 = (data_len & 0xff) as u8;
    let res: [u8; 3] = [b0, b1, b2];
    proof {
        assert(((data_len >> 16) & 0xff) == (data_len / 65536) % 256) by (bit_vector);
        assert(((data_len >> 8) & 0xff) == (data_len / 256) % 256) by (bit_vector);
        assert((data_len & 0xff) == data_len % 256) by (bit_vector);
        reveal_with_fuel(be_bytes, 4);
        reveal_with_fuel(be_limit, 4);
        assert(res@ =~= be_bytes(data_len as nat, 3));
        lemma_be_value_of_bytes(data_len as nat, 3);
    }
    res
}

/// Reads a three-byte length prefix.
pub fn depack(buffer: &[u8; 3]) -> (len: usize)
    ensures
        len == be_value(buffer@),
        len < LENGTH_PREFIX_LIMIT,
{
    let b0: usize = buffer[0] as usize;
    let b1: usize = buffer[1] as usize;
    let b2: usize = buffer[2] as usize;
    proof {
        reveal_with_fuel(be_value, 4);
        assert(buffer@.drop_last().drop_last().drop_last().len() == 0);
        assert((b0 << 16) | (b1 << 8) | b2 == b0 * 65536 + b1 * 256 + b2) by (bit_vector)
            requires
                b0 < 256,
                b1 < 256,
                b2 < 256,
        ;
    }
    (b0 << 16) | (b1 << 8) | b2
}

/// Splits a 16-bit value into its two bytes, most significant first.
pub fn u16_to_bytes(value: u16) -> (res: [u8; 2])
    ensures
        res@ == be_bytes(value as nat, 2),
{
    let res: [u8; 2] = [(value >> 8) as u8, (value & 0xff) as u8];
    proof {
        assert((value >> 8) == value / 256 && (value >> 8) < 256 && (value & 0xff) == value % 256)
            by (bit_vector);
        reveal_with_fuel(be_bytes, 3);
        assert(res@ =~= be_bytes(value as nat, 2));
    }
    res
}

/// Joins two bytes, most significant first, into a 16-bit value.
pub fn u16_from_bytes(high: u8, low: u8) -> (value: u16)
    ensures
        value == be_value(seq![high, low]),
        be_bytes(value as nat, 2) == seq![high, low],
{
    let h: u16 = high as u16;
    let l: u16 = low as u16;
    proof {
        let pair: Seq<u8> = seq![high, low];
        reveal_with_fuel(be_value, 3);
        assert(pair.drop_last().drop_last().len() == 0);
        assert(pair.drop_last().last() == high && pair.last() == low);
        assert(((h << 8) | l) == h * 256 + l) by (bit_vector)
            requires
                h < 256,
                l < 256,
        ;
        lemma_be_bytes_of_value(pair);
    }
    (h << 8) | l
}

proof fn lemma_low_byte(value: u64)
    by (bit_vector)
    ensures
        value >> 8 == value / 256,
        value & 0xff == value % 256,
        value & 0xff < 256,
{
}

/// Splits a 64-bit value into its eight bytes, most significant first.
pub fn u64_to_bytes(value: u64) -> (res: [u8; 8])
    ensures
        res@ == be_bytes(value as nat, 8),
{
    let v7: u64 = value;
    let v6: u64 = v7 >> 8;
    let v5: u64 = v6 >> 8;
    let v4: u64 = v5 >> 8;
    let v3: u64 = v4 >> 8;
    let v2: u64 = v3 >> 8;
    let v1: u64 = v2 >> 8;
    let v0: u64 = v1 >> 8;
    proof {
        lemma_low_byte(v7);
        lemma_low_byte(v6);
        lemma_low_byte(v5);
        lemma_low_byte(v4);
        lemma_low_byte(v3);
        lemma_low_byte(v2);
        lemma_low_byte(v1);
        lemma_low_byte(v0);
    }
    let res: [u8; 8] = [
        (v0 & 0xff) as u8,
        (v1 & 0xff) as u8,
        (v2 & 0xff) as u8,
        (v3 & 0xff) as u8,
        (v4 & 0xff) as u8,
        (v5 & 0xff) as u8,
        (v6 & 0xff) as u8,
        (v7 & 0xff) as u8,
    ];
    proof {
        reveal_with_fuel(be_bytes, 9);
        assert(res@ =~= be_bytes(value as nat, 8));
    }
    res
}

/// Width and height of the captured screen, sent once before the first frame.
#[derive(Clone, Copy, Debug, PartialEq, Eq, Structural)]
pub struct FrameMeta {
    pub width: u16,
    pub height: u16,
}

/// Size of the encoded `FrameMeta`.
pub const FRAME_META_LEN: usize = 4;

impl FrameMeta {
    /// Both dimensions are positive.
    pub open spec fn wf(self) -> bool {
        self.width > 0 && self.height > 0
    }

    /// Bytes of the luma plane: one per pixel.
    pub open spec fn luma_len(self) -> nat {
        self.width as nat * self.height as nat
    }

    /// Bytes of each of the two chroma planes: one per four pixels.
    pub open spec fn chroma_len(self) -> nat {
        self.luma_len() / 4
    }

    /// Bytes of a whole planar frame: the luma plane followed by both chroma planes.
    pub open spec fn planar_len(self) -> nat {
        self.luma_len() + 2 * self.chroma_len()
    }

    /// Bytes of the frame once converted to three bytes per pixel for display.
    pub open spec fn rgb_len(self) -> nat {
        3 * self.luma_len()
    }

    /// The four bytes on the wire: width, then height, each most significant byte first.
    pub open spec fn wire(self) -> Seq<u8> {
        be_bytes(self.width as nat, 2) + be_bytes(self.height as nat, 2)
    }

    /// Accepts a pair of dimensions exactly when both are positive.
    pub fn new(width: u16, height: u16) -> (meta: Option<FrameMeta>)
        ensures
            meta is Some <==> width > 0 && height > 0,
            meta matches Some(m) ==> m.wf() && m.width == width && m.height == height,
    {
        if width > 0 && height > 0 {
            Some(FrameMeta { width, height })
        } else {
            None
        }
    }

    /// Executable `luma_len`.
    pub fn luma_size(&self) -> (n: u64)
        ensures
            n == self.luma_len(),
            n <= 65535 * 65535,
    {
        let w: u64 = self.width as u64;
        let h: u64 = self.height as u64;
        assert(w * h <= 65535 * 65535) by (nonlinear_arith)
            requires
                w <= 65535,
                h <= 65535,
        ;
        w * h
    }

    /// Executable `chroma_len`.
    pub fn chroma_size(&self) -> (n: u64)
        ensures
            n == self.chroma_len(),
    {
        self.luma_size() / 4
    }

    /// Executable `planar_len`.
    pub fn planar_size(&self) -> (n: u64)
        ensures
            n == self.planar_len(),
    {
        let luma: u64 = self.luma_size();
        luma + 2 * (luma / 4)
    }

    /// Executable `rgb_len`.
    pub fn rgb_size(&self) -> (n: u64)
        ensures
            n == self.rgb_len(),
    {
        3 * self.luma_size()
    }

    /// Writes the dimensions as they travel.
    pub fn encode(&self) -> (res: [u8; 4])
        ensures
            res@ == self.wire(),
    {
        let w: [u8; 2] = u16_to_bytes(self.width);
        let h: [u8; 2] = u16_to_bytes(self.height);
        let res: [u8; 4] = [w[0], w[1], h[0], h[1]];
        proof {
            assert(res@ =~= self.wire());
        }
        res
    }

    /// Reads the dimensions; a zero width or height is refused.
    pub fn decode(bytes: &[u8; 4]) -> (meta: Option<FrameMeta>)
        ensures
            meta is Some <==> be_value(bytes@.subrange(0, 2)) > 0 && be_value(bytes@.subrange(2, 4))
                > 0,
            meta matches Some(m) ==> m.wf() && m.width == be_value(bytes@.subrange(0, 2))
                && m.height == be_value(bytes@.subrange(2, 4)) && m.wire() == bytes@,
    {
        let width: u16 = u16_from_bytes(bytes[0], bytes[1]);
        let height: u16 = u16_from_bytes(bytes[2], bytes[3]);
        proof {
            assert(bytes@.subrange(0, 2) =~= seq![bytes[0], bytes[1]]);
            assert(bytes@.subrange(2, 4) =~= seq![bytes[2], bytes[3]]);
            assert(bytes@.subrange(0, 2) + bytes@.subrange(2, 4) =~= bytes@);
        }
        FrameMeta::new(width, height)
    }
}

/// What `decode` reads is what `encode` wrote.
pub proof fn lemma_meta_round_trip(meta: FrameMeta)
    ensures
        meta.wire().len() == 4,
        be_value(meta.wire().subrange(0, 2)) == meta.width,
        be_value(meta.wire().subrange(2, 4)) == meta.height,
{
    let w: Seq<u8> = be_bytes(meta.width as nat, 2);
    let h: Seq<u8> = be_bytes(meta.height as nat, 2);
    lemma_be_bytes_len(meta.width as nat, 2);
    lemma_be_bytes_len(meta.height as nat, 2);
    assert(meta.wire().subrange(0, 2) =~= w);
    assert(meta.wire().subrange(2, 4) =~= h);
    reveal_with_fuel(be_limit, 3);
    lemma_be_value_of_bytes(meta.width as nat, 2);
    lemma_be_value_of_bytes(meta.height as nat, 2);
}

} // verus!
