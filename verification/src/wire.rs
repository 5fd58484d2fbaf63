//! The byte layout of everything that crosses the wire.
//!
//! All VMBus structures are little-endian and packed in declaration order.
//! [`Wire`] gives each of them its encoding as a sequence of bytes; the
//! encoding is injective and every byte string of the right length is the
//! encoding of some value, so reading a value back is fully determined by
//! its encoding.
use crate::le;
use vstd::prelude::*;

verus! {

/// `n` zero bytes.
pub open spec fn zeros(n: nat) -> Seq<u8> {
    Seq::new(n, |i: int| 0u8)
}

// ---------------------------------------------------------------------------
// The trait
// ---------------------------------------------------------------------------
/// A value with a fixed-size byte layout.
pub trait Wire: Sized {
    /// The encoding of the value.
    spec fn wire(&self) -> Seq<u8>;

    /// The length of every encoding of this type.
    spec fn wire_len() -> nat;

    /// Every encoding has the type's length.
    proof fn lemma_wire_len(&self)
        ensures
            self.wire().len() == Self::wire_len(),
    ;

    /// Different values have different encodings.
    proof fn lemma_injective(&self, other: &Self)
        requires
            self.wire() == other.wire(),
        ensures
            *self == *other,
    ;

    /// The number of bytes that a value occupies on the wire.
    fn wire_size() -> (n: usize)
        ensures
            n == Self::wire_len(),
    ;

    /// Append the encoding of `self` to `out`.
    fn write_to(&self, out: &mut Vec<u8>)
        ensures
            final(out)@ == old(out)@ + self.wire(),
    ;

    /// The value whose encoding starts at `off`.
    fn read_at(bytes: &[u8], off: usize) -> (r: Self)
        requires
            off + Self::wire_len() <= bytes@.len(),
        ensures
            r.wire() == bytes@.subrange(off as int, off + Self::wire_len()),
    ;

    /// The encoding of `self` as a byte vector.
    fn as_bytes(&self) -> (r: Vec<u8>)
        ensures
            r@ == self.wire(),
    {
        let mut out: Vec<u8> = Vec::new();
        self.write_to(&mut out);
        proof {
            assert(out@ =~= self.wire());
        }
        out
    }

    /// Read a value from the front of `bytes`, together with what follows
    /// it. Gives `None` exactly when `bytes` is too short.
    fn read_from_prefix<'a>(bytes: &'a [u8]) -> (r: Option<(Self, &'a [u8])>)
        ensures
            r is Some <==> bytes@.len() >= Self::wire_len(),
            r matches Some((v, rest)) ==> v.wire() + rest@ == bytes@,
    {
        let n = Self::wire_size();
        if bytes.len() < n {
            None
        } else {
            let v = Self::read_at(bytes, 0);
            let rest = &bytes[n..bytes.len()];
            proof {
                v.lemma_wire_len();
                assert(v.wire() + rest@ =~= bytes@);
            }
            Some((v, rest))
        }
    }

    /// The value whose encoding is all zero bytes.
    fn new_zeroed() -> (r: Self)
        ensures
            r.wire() == zeros(Self::wire_len()),
    {
        let mut b: Vec<u8> = Vec::new();
        let n = Self::wire_size();
        while b.len() < n
            invariant
                b@.len() <= n,
                n == Self::wire_len(),
                forall|i: int| 0 <= i < b@.len() ==> b@[i] == 0u8,
            decreases n - b@.len(),
        {
            b.push(0);
        }
        let r = Self::read_at(b.as_slice(), 0);
        proof {
            assert(b@.subrange(0, n as int) =~= zeros(Self::wire_len()));
        }
        r
    }
}

/// A slice is never longer than its length can say.
pub proof fn lemma_slice_len(b: &[u8])
    ensures
        b@.len() <= usize::MAX,
{
    assert(b.len() == b@.len());
}

/// The value that `b` encodes.
pub open spec fn decoded<T: Wire>(b: Seq<u8>) -> T {
    choose|v: T| v.wire() == b
}

/// Decoding undoes encoding.
pub proof fn lemma_decoded<T: Wire>(v: T)
    ensures
        decoded::<T>(v.wire()) == v,
{
    let w = decoded::<T>(v.wire());
    assert(w.wire() == v.wire());
    w.lemma_injective(&v);
}

/// A run of 64-bit numbers, one after the other.
pub open spec fn u64s(s: Seq<u64>) -> Seq<u8>
    decreases s.len(),
{
    if s.len() == 0 {
        Seq::empty()
    } else {
        u64s(s.drop_last()) + s.last().wire()
    }
}

/// Each number takes up eight bytes.
pub proof fn lemma_u64s_len(s: Seq<u64>)
    ensures
        u64s(s).len() == 8 * s.len(),
    decreases s.len(),
{
    if s.len() > 0 {
        lemma_u64s_len(s.drop_last());
        s.last().lemma_wire_len();
    }
}

/// The numbers stand in their places.
pub proof fn lemma_u64s_index(s: Seq<u64>, i: int)
    requires
        0 <= i < s.len(),
    ensures
        u64s(s).subrange(8 * i, 8 * i + 8) == s[i].wire(),
    decreases s.len(),
{
    lemma_u64s_len(s.drop_last());
    s.last().lemma_wire_len();
    if i < s.len() - 1 {
        lemma_u64s_index(s.drop_last(), i);
        assert(u64s(s).subrange(8 * i, 8 * i + 8) =~= u64s(s.drop_last()).subrange(
            8 * i,
            8 * i + 8,
        ));
    } else {
        assert(u64s(s).subrange(8 * i, 8 * i + 8) =~= s[i].wire());
    }
}

/// Append each of `values` to `out`.
pub fn write_u64s(values: &[u64], out: &mut Vec<u8>)
    ensures
        final(out)@ == old(out)@ + u64s(values@),
{
    let mut i: usize = 0;
    proof {
        assert(out@ =~= old(out)@ + u64s(values@.take(0)));
    }
    while i < values.len()
        invariant
            i <= values@.len(),
            out@ == old(out)@ + u64s(values@.take(i as int)),
        decreases values@.len() - i,
    {
        values[i].write_to(out);
        i += 1;
        proof {
            assert(values@.take(i as int).drop_last() =~= values@.take(i - 1));
            assert(out@ =~= old(out)@ + u64s(values@.take(i as int)));
        }
    }
    proof {
        assert(values@.take(i as int) =~= values@);
    }
}

// ---------------------------------------------------------------------------
// Primitive values
// ---------------------------------------------------------------------------
impl Wire for u8 {
    open spec fn wire(&self) -> Seq<u8> {
        seq![*self]
    }

    open spec fn wire_len() -> nat {
        1
    }

    proof fn lemma_wire_len(&self) {
    }

    proof fn lemma_injective(&self, other: &Self) {
        assert(seq![*self][0] == seq![*other][0]);
    }

    fn wire_size() -> (n: usize) {
        1
    }

    fn write_to(&self, out: &mut Vec<u8>) {
        out.push(*self);
        proof {
            assert(out@ =~= old(out)@ + self.wire());
        }
    }

    fn read_at(bytes: &[u8], off: usize) -> (r: Self) {
        let r = bytes[off];
        proof {
            assert(r.wire() =~= bytes@.subrange(off as int, off + 1));
        }
        r
    }
}

impl Wire for u16 {
    open spec fn wire(&self) -> Seq<u8> {
        le::le16(*self)
    }

    open spec fn wire_len() -> nat {
        2
    }

    proof fn lemma_wire_len(&self) {
        le::lemma_le_len(*self, 0, 0);
    }

    proof fn lemma_injective(&self, other: &Self) {
        let b = self.wire();
        self.lemma_wire_len();
        assert(b.subrange(0, 2) =~= b);
        le::lemma_le16(*self, b, 0);
        le::lemma_le16(*other, b, 0);
    }

    fn wire_size() -> (n: usize) {
        2
    }

    fn write_to(&self, out: &mut Vec<u8>) {
        let mut b = le::u16_bytes(*self);
        out.append(&mut b);
    }

    fn read_at(bytes: &[u8], off: usize) -> (r: Self) {
        proof {
            lemma_slice_len(bytes);
        }
        let s = &bytes[off..off + 2];
        let r = le::read_u16(s);
        proof {
            le::lemma_le16(0, s@, 0);
            assert(s@.subrange(0, 2) =~= bytes@.subrange(off as int, off + 2));
        }
        r.unwrap()
    }
}

impl Wire for u32 {
    open spec fn wire(&self) -> Seq<u8> {
        le::le32(*self)
    }

    open spec fn wire_len() -> nat {
        4
    }

    proof fn lemma_wire_len(&self) {
        le::lemma_le_len(0, *self as u32, 0);
    }

    proof fn lemma_injective(&self, other: &Self) {
        let b = self.wire();
        self.lemma_wire_len();
        assert(b.subrange(0, 4) =~= b);
        le::lemma_le32(*self, b, 0);
        le::lemma_le32(*other, b, 0);
    }

    fn wire_size() -> (n: usize) {
        4
    }

    fn write_to(&self, out: &mut Vec<u8>) {
        let mut b = le::u32_bytes(*self);
        out.append(&mut b);
    }

    fn read_at(bytes: &[u8], off: usize) -> (r: Self) {
        proof {
            lemma_slice_len(bytes);
        }
        let s = &bytes[off..off + 4];
        let r = le::read_u32(s);
        proof {
            le::lemma_le32(0, s@, 0);
            assert(s@.subrange(0, 4) =~= bytes@.subrange(off as int, off + 4));
        }
        r.unwrap()
    }
}

impl Wire for u64 {
    open spec fn wire(&self) -> Seq<u8> {
        le::le64(*self)
    }

    open spec fn wire_len() -> nat {
        8
    }

    proof fn lemma_wire_len(&self) {
        le::lemma_le_len(0, 0, *self);
    }

    proof fn lemma_injective(&self, other: &Self) {
        let b = self.wire();
        self.lemma_wire_len();
        assert(b.subrange(0, 8) =~= b);
        le::lemma_le64(*self, b, 0);
        le::lemma_le64(*other, b, 0);
    }

    fn wire_size() -> (n: usize) {
        8
    }

    fn write_to(&self, out: &mut Vec<u8>) {
        let mut b = le::u64_bytes(*self);
        out.append(&mut b);
    }

    fn read_at(bytes: &[u8], off: usize) -> (r: Self) {
        proof {
            lemma_slice_len(bytes);
        }
        let s = &bytes[off..off + 8];
        let r = le::read_u64(s);
        proof {
            le::lemma_le64(0, s@, 0);
            assert(s@.subrange(0, 8) =~= bytes@.subrange(off as int, off + 8));
        }
        r.unwrap()
    }
}

/// Signed integers travel in two's complement.
impl Wire for i32 {
    open spec fn wire(&self) -> Seq<u8> {
        le::le32(*self as u32)
    }

    open spec fn wire_len() -> nat {
        4
    }

    proof fn lemma_wire_len(&self) {
        le::lemma_le_len(0, *self as u32, 0);
    }

    proof fn lemma_injective(&self, other: &Self) {
        (*self as u32).lemma_injective(&(*other as u32));
        let a = *self;
        let b = *other;
        assert(a as u32 == b as u32 ==> a == b) by (bit_vector);
    }

    fn wire_size() -> (n: usize) {
        4
    }

    fn write_to(&self, out: &mut Vec<u8>) {
        let v: u32 = #[verifier::truncate]
        (*self as u32);
        v.write_to(out);
    }

    fn read_at(bytes: &[u8], off: usize) -> (r: Self) {
        let v: u32 = u32::read_at(bytes, off);
        let r: i32 = #[verifier::truncate]
        (v as i32);
        proof {
            assert((v as i32) as u32 == v) by (bit_vector);
        }
        r
    }
}

impl<const N: usize> Wire for [u8; N] {
    open spec fn wire(&self) -> Seq<u8> {
        self@
    }

    open spec fn wire_len() -> nat {
        N as nat
    }

    proof fn lemma_wire_len(&self) {
    }

    proof fn lemma_injective(&self, other: &Self) {
        assert(*self =~= *other);
    }

    fn wire_size() -> (n: usize) {
        N
    }

    fn write_to(&self, out: &mut Vec<u8>) {
        let mut i: usize = 0;
        while i < N
            invariant
                i <= N,
                out@ == old(out)@ + self@.subrange(0, i as int),
            decreases N - i,
        {
            out.push(self[i]);
            i += 1;
            proof {
                assert(out@ =~= old(out)@ + self@.subrange(0, i as int));
            }
        }
        proof {
            assert(self@.subrange(0, N as int) =~= self@);
        }
    }

    fn read_at(bytes: &[u8], off: usize) -> (r: Self) {
        proof {
            lemma_slice_len(bytes);
        }
        let mut r: [u8; N] = [0u8; N];
        let mut i: usize = 0;
        while i < N
            invariant
                i <= N,
                off + N <= bytes@.len() <= usize::MAX,
                forall|j: int| 0 <= j < i ==> r@[j] == bytes@[off + j],
            decreases N - i,
        {
            r[i] = bytes[off + i];
            i += 1;
        }
        proof {
            assert(r@ =~= bytes@.subrange(off as int, off + N));
        }
        r
    }
}

impl Wire for [u32; 4] {
    open spec fn wire(&self) -> Seq<u8> {
        self@[0].wire() + self@[1].wire() + self@[2].wire() + self@[3].wire()
    }

    open spec fn wire_len() -> nat {
        16
    }

    proof fn lemma_wire_len(&self) {
        self@[0].lemma_wire_len();
        self@[1].lemma_wire_len();
        self@[2].lemma_wire_len();
        self@[3].lemma_wire_len();
    }

    proof fn lemma_injective(&self, other: &Self) {
        let b = self.wire();
        assert forall|i: int| 0 <= i < 4 implies self@[i] == other@[i] by {
            self.lemma_wire_len();
            other.lemma_wire_len();
            self@[0].lemma_wire_len();
            self@[1].lemma_wire_len();
            self@[2].lemma_wire_len();
            self@[3].lemma_wire_len();
            other@[0].lemma_wire_len();
            other@[1].lemma_wire_len();
            other@[2].lemma_wire_len();
            other@[3].lemma_wire_len();
            assert(self@[i].wire() =~= b.subrange(4 * i, 4 * i + 4));
            assert(other@[i].wire() =~= b.subrange(4 * i, 4 * i + 4));
            self@[i].lemma_injective(&other@[i]);
        }
        assert(*self =~= *other);
    }

    fn wire_size() -> (n: usize) {
        16
    }

    fn write_to(&self, out: &mut Vec<u8>) {
        self[0].write_to(out);
        self[1].write_to(out);
        self[2].write_to(out);
        self[3].write_to(out);
        proof {
            assert(out@ =~= old(out)@ + self.wire());
        }
    }

    fn read_at(bytes: &[u8], off: usize) -> (r: Self) {
        proof {
            lemma_slice_len(bytes);
        }
        let r: [u32; 4] = [
            u32::read_at(bytes, off),
            u32::read_at(bytes, off + 4),
            u32::read_at(bytes, off + 8),
            u32::read_at(bytes, off + 12),
        ];
        proof {
            r.lemma_wire_len();
            assert(r.wire() =~= bytes@.subrange(off as int, off + 16));
        }
        r
    }
}

} // verus!
