//! Mathematical model of a ring buffer.
//!
//! A ring is a control page of `u32` words and a circular data area. The
//! model says what each access does to it, which bytes are pending
//! between the two indices, and which packets those bytes spell out.
use vstd::prelude::*;

verus! {

/// Control word: where the writer writes next.
pub const IDX_IN: usize = 0;

/// Control word: where the reader reads next.
pub const IDX_OUT: usize = 1;

/// Control word: non-zero while the reader wants no signal.
pub const IDX_INTERRUPT_MASK: usize = 2;

/// Control word: free bytes a blocked writer waits for.
pub const IDX_PENDING_SEND_SZ: usize = 3;

/// Control word: what the writer supports.
pub const IDX_FEATURE_BITS: usize = 16;

/// Number of `u32` words the control page exposes.
pub const CONTROL_WORD_COUNT: usize = 17;

/// The sizes a data area can have: powers of two that hold at least one
/// 8-byte unit and whose offsets fit in an index word.
pub open spec fn ring_len_ok(n: int) -> bool {
    &&& 8 <= n <= 0x8000_0000
    &&& vstd::arithmetic::power2::is_pow2(n)
}

/// What a ring's memory holds.
#[verifier::ext_equal]
pub struct RingState {
    /// The control words.
    pub words: Seq<u32>,
    /// The data area.
    pub data: Seq<u8>,
}

/// One access to a ring's memory, with the value that crossed.
pub enum Access {
    /// A control word was read.
    Load { word: int, value: u32 },
    /// A control word was written.
    Store { word: int, value: u32 },
    /// Data was read, wrapping at the end of the data area.
    Read { off: int, bytes: Seq<u8> },
    /// Data was written, wrapping at the end of the data area.
    Write { off: int, bytes: Seq<u8> },
}

impl RingState {
    /// Size of the data area.
    pub open spec fn len(self) -> int {
        self.data.len() as int
    }

    /// The memory has the shape of a ring.
    pub open spec fn wf(self) -> bool {
        &&& self.words.len() == CONTROL_WORD_COUNT
        &&& ring_len_ok(self.len())
    }

    /// The writer's index.
    pub open spec fn write_idx(self) -> u32 {
        self.words[IDX_IN as int]
    }

    /// The reader's index.
    pub open spec fn read_idx(self) -> u32 {
        self.words[IDX_OUT as int]
    }

    /// Both indices point at an 8-byte unit of the data area.
    pub open spec fn indices_ok(self) -> bool {
        &&& self.write_idx() < self.len()
        &&& self.read_idx() < self.len()
        &&& self.write_idx() % 8 == 0
        &&& self.read_idx() % 8 == 0
    }

    /// The memory after a store to a control word.
    pub open spec fn store(self, word: int, value: u32) -> RingState {
        RingState { words: self.words.update(word, value), data: self.data }
    }

    /// The memory after a write of `bytes` at `off`, wrapping at the end.
    pub open spec fn write(self, off: int, bytes: Seq<u8>) -> RingState
        decreases bytes.len(),
    {
        if bytes.len() == 0 {
            self
        } else {
            let before = self.write(off, bytes.drop_last());
            RingState {
                words: before.words,
                data: before.data.update((off + bytes.len() - 1) % self.len(), bytes.last()),
            }
        }
    }

    /// The `n` bytes at `off`, wrapping at the end.
    pub open spec fn bytes_at(self, off: int, n: int) -> Seq<u8> {
        Seq::new(n as nat, |i: int| self.data[(off + i) % self.len()])
    }

    /// The memory after `access`.
    pub open spec fn apply(self, access: Access) -> RingState {
        match access {
            Access::Load { .. } => self,
            Access::Store { word, value } => self.store(word, value),
            Access::Read { .. } => self,
            Access::Write { off, bytes } => self.write(off, bytes),
        }
    }

    /// The memory after a run of accesses.
    pub open spec fn apply_all(self, accesses: Seq<Access>) -> RingState
        decreases accesses.len(),
    {
        if accesses.len() == 0 {
            self
        } else {
            self.apply_all(accesses.drop_last()).apply(accesses.last())
        }
    }

    /// The bytes between the reader's index and the writer's.
    pub open spec fn pending(self) -> Seq<u8> {
        self.bytes_at(
            self.read_idx() as int,
            data_bytes(self.write_idx() as int, self.read_idx() as int, self.len()),
        )
    }
}

/// Free bytes between a writer at `w` and a reader at `r`. One 8-byte
/// unit stays reserved, so that equal indices mean an empty ring.
pub open spec fn free_bytes(w: int, r: int, len: int) -> int {
    if w >= r {
        len - (w - r) - 8
    } else {
        r - w - 8
    }
}

/// Bytes a reader at `r` can pull before it reaches a writer at `w`.
pub open spec fn data_bytes(w: int, r: int, len: int) -> int {
    if w >= r {
        w - r
    } else {
        len - (r - w)
    }
}

/// `n` rounded up to a multiple of 8.
pub open spec fn align8_spec(n: int) -> int {
    (n + 7) / 8 * 8
}

// ---------------------------------------------------------------------------
// Arithmetic
// ---------------------------------------------------------------------------
/// A legal ring size is a multiple of 8.
pub proof fn lemma_len_mod8(n: int)
    requires
        ring_len_ok(n),
    ensures
        n % 8 == 0,
{
    reveal(vstd::arithmetic::power2::is_pow2);
    lemma_pow2_mod8(n);
}

proof fn lemma_pow2_mod8(n: int)
    requires
        n >= 8,
        vstd::arithmetic::power2::is_pow2(n),
    ensures
        n % 8 == 0,
    decreases n,
{
    reveal(vstd::arithmetic::power2::is_pow2);
    if n >= 16 {
        lemma_pow2_mod8(n / 2);
    } else {
        reveal_with_fuel(vstd::arithmetic::power2::is_pow2, 5);
        assert(n == 8);
    }
}

/// Reducing a summand first does not change a remainder.
pub proof fn lemma_mod_add(a: int, b: int, m: int)
    requires
        m > 0,
    ensures
        (a % m + b) % m == (a + b) % m,
{
    vstd::arithmetic::div_mod::lemma_add_mod_noop(a, b, m);
    vstd::arithmetic::div_mod::lemma_add_mod_noop(a % m, b, m);
    vstd::arithmetic::div_mod::lemma_mod_twice(a, m);
}

/// Adding the modulus does not change a remainder, and small numbers are
/// their own remainder.
pub proof fn lemma_mod_shift(a: int, m: int)
    requires
        m > 0,
    ensures
        (a + m) % m == a % m,
        0 <= a % m < m,
        0 <= a < m ==> a % m == a,
{
    vstd::arithmetic::div_mod::lemma_mod_add_multiples_vanish(a, m);
    vstd::arithmetic::div_mod::lemma_mod_bound(a, m);
    if 0 <= a < m {
        vstd::arithmetic::div_mod::lemma_small_mod(a as nat, m as nat);
    }
}

/// Two offsets less than a turn apart meet only if they are equal.
proof fn lemma_mod_distinct(off: int, i: int, j: int, m: int)
    requires
        m > 0,
        0 <= i < m,
        0 <= j < m,
        (off + i) % m == (off + j) % m,
    ensures
        i == j,
{
    vstd::arithmetic::div_mod::lemma_mod_equivalence(off + i, off + j, m);
    let d = (off + i) - (off + j);
    assert(d % m == 0);
    if d > 0 {
        lemma_mod_shift(d, m);
    } else if d < 0 {
        lemma_mod_shift(d + m, m);
        lemma_mod_shift(d, m);
    }
}

/// A multiple of 8 stays one when reduced modulo a multiple of 8.
pub proof fn lemma_mod8_of_mod(a: int, m: int)
    requires
        m > 0,
        m % 8 == 0,
        a % 8 == 0,
    ensures
        (a % m) % 8 == 0,
{
    let k = m / 8;
    assert(m == 8 * k);
    vstd::arithmetic::div_mod::lemma_fundamental_div_mod(a, m);
    let q = a / m;
    assert((m * q) % 8 == 0) by {
        assert(m * q == 8 * (k * q)) by (nonlinear_arith)
            requires
                m == 8 * k,
        ;
        vstd::arithmetic::div_mod::lemma_mod_multiples_basic(k * q, 8);
        assert(8 * (k * q) == (k * q) * 8);
    }
}

// ---------------------------------------------------------------------------
// Accesses
// ---------------------------------------------------------------------------
impl RingState {
    /// A write keeps the shape and the control words.
    pub proof fn lemma_write_shape(self, off: int, bytes: Seq<u8>)
        requires
            self.len() > 0,
        ensures
            self.write(off, bytes).words == self.words,
            self.write(off, bytes).len() == self.len(),
        decreases bytes.len(),
    {
        if bytes.len() > 0 {
            self.lemma_write_shape(off, bytes.drop_last());
            lemma_mod_shift(off + bytes.len() - 1, self.len());
        }
    }

    /// Writing two pieces one after the other is writing both at once.
    pub proof fn lemma_write_concat(self, off: int, a: Seq<u8>, b: Seq<u8>)
        requires
            self.len() > 0,
        ensures
            self.write(off, a + b) == self.write(off, a).write((off + a.len()) % self.len(), b),
        decreases b.len(),
    {
        let m = self.len();
        if b.len() == 0 {
            assert(a + b =~= a);
        } else {
            self.lemma_write_concat(off, a, b.drop_last());
            self.lemma_write_shape(off, a);
            assert((a + b).drop_last() =~= a + b.drop_last());
            lemma_mod_add(off + a.len(), b.len() - 1, m);
            assert((off + a.len()) % m + (b.len() - 1) == (off + a.len()) % m + b.len() - 1);
        }
    }

    /// What a write leaves in the data area, seen from its offset: the
    /// bytes written, then what was there before.
    pub proof fn lemma_write_data(self, off: int, bytes: Seq<u8>, k: int)
        requires
            self.len() > 0,
            bytes.len() <= self.len(),
            0 <= k < self.len(),
        ensures
            self.write(off, bytes).data[(off + k) % self.len()] == (if k < bytes.len() {
                bytes[k]
            } else {
                self.data[(off + k) % self.len()]
            }),
        decreases bytes.len(),
    {
        let m = self.len();
        lemma_mod_shift(off + k, m);
        if bytes.len() > 0 {
            let last = bytes.len() - 1;
            self.lemma_write_data(off, bytes.drop_last(), k);
            self.lemma_write_shape(off, bytes.drop_last());
            lemma_mod_shift(off + last, m);
            assert(off + bytes.len() - 1 == off + last);
            if k != last && (off + k) % m == (off + last) % m {
                lemma_mod_distinct(off, k, last, m);
            }
        }
    }

    /// Offsets a full turn apart are the same place.
    pub proof fn lemma_write_mod(self, off: int, bytes: Seq<u8>)
        requires
            self.len() > 0,
        ensures
            self.write(off, bytes) == self.write(off % self.len(), bytes),
        decreases bytes.len(),
    {
        if bytes.len() > 0 {
            self.lemma_write_mod(off, bytes.drop_last());
            lemma_mod_add(off, bytes.len() - 1, self.len());
            assert(off % self.len() + bytes.len() - 1 == off % self.len() + (bytes.len() - 1));
        }
    }

    /// Offsets a full turn apart are the same place.
    pub proof fn lemma_bytes_at_mod(self, off: int, n: int)
        requires
            self.len() > 0,
            n >= 0,
        ensures
            self.bytes_at(off, n) == self.bytes_at(off % self.len(), n),
    {
        assert forall|i: int| 0 <= i < n implies self.bytes_at(off, n)[i] == self.bytes_at(
            off % self.len(),
            n,
        )[i] by {
            lemma_mod_add(off, i, self.len());
        }
        assert(self.bytes_at(off, n) =~= self.bytes_at(off % self.len(), n));
    }

    /// A read can be split at any point.
    pub proof fn lemma_bytes_at_concat(self, off: int, a: int, b: int)
        requires
            self.len() > 0,
            a >= 0,
            b >= 0,
        ensures
            self.bytes_at(off, a + b) == self.bytes_at(off, a) + self.bytes_at(
                (off + a) % self.len(),
                b,
            ),
    {
        let tail = self.bytes_at((off + a) % self.len(), b);
        assert forall|i: int| 0 <= i < b implies #[trigger] tail[i] == self.bytes_at(
            off,
            a + b,
        )[a + i] by {
            lemma_mod_add(off + a, i, self.len());
        }
        assert(self.bytes_at(off, a + b) =~= self.bytes_at(off, a) + self.bytes_at(
            (off + a) % self.len(),
            b,
        ));
    }

    /// Accesses one after the other.
    pub proof fn lemma_apply_push(self, accesses: Seq<Access>, a: Access)
        ensures
            self.apply_all(accesses.push(a)) == self.apply_all(accesses).apply(a),
    {
        assert(accesses.push(a).drop_last() =~= accesses);
    }
}

/// How far the writer is ahead is the distance between the indices, going
/// round.
pub proof fn lemma_data_bytes_mod(w: int, r: int, len: int)
    requires
        0 <= w < len,
        0 <= r < len,
    ensures
        data_bytes(w, r, len) == (w - r) % len,
        0 <= data_bytes(w, r, len) < len,
        free_bytes(w, r, len) == if w == r {
            len - 8
        } else {
            len - data_bytes(w, r, len) - 8
        },
{
    lemma_mod_shift(w - r, len);
    lemma_mod_shift(w - r + len, len);
}

// ---------------------------------------------------------------------------
// The byte queue
// ---------------------------------------------------------------------------
impl RingState {
    /// Law: data written at the writer's index, followed by the index
    /// update, is appended to the pending bytes, if there is room for it.
    pub proof fn lemma_append(self, bytes: Seq<u8>, next: RingState)
        requires
            self.wf(),
            self.indices_ok(),
            bytes.len() % 8 == 0,
            bytes.len() <= free_bytes(
                self.write_idx() as int,
                self.read_idx() as int,
                self.len(),
            ),
            next == self.write(self.write_idx() as int, bytes).store(
                IDX_IN as int,
                ((self.write_idx() + bytes.len()) % self.len()) as u32,
            ),
        ensures
            next.wf(),
            next.indices_ok(),
            next.read_idx() == self.read_idx(),
            next.pending() == self.pending() + bytes,
    {
        let len = self.len();
        let w = self.write_idx() as int;
        let r = self.read_idx() as int;
        let n = bytes.len() as int;
        let avail = data_bytes(w, r, len);
        let w2 = (w + n) % len;
        lemma_len_mod8(len);
        lemma_data_bytes_mod(w, r, len);
        lemma_mod_shift(w + n, len);
        lemma_mod8_of_mod(w + n, len);
        self.lemma_write_shape(w, bytes);
        lemma_data_bytes_mod(w2, r, len);
        // The distance grows by what was written.
        assert((w2 - r) % len == avail + n) by {
            lemma_mod_add(w + n, -r, len);
            lemma_mod_add(w - r, n, len);
            assert((w + n) + (-r) == (w - r) + n);
            assert(w2 + (-r) == w2 - r);
            lemma_mod_shift(avail + n, len);
        }
        let written = self.write(w, bytes);
        assert forall|i: int| 0 <= i < avail + n implies next.pending()[i] == (self.pending()
            + bytes)[i] by {
            if i < avail {
                // Old data lies behind the end of what was written.
                let k = len - avail + i;
                self.lemma_write_data(w, bytes, k);
                lemma_mod_add(r + avail, k, len);
                lemma_mod_add(w - r, r + k, len);
                lemma_mod_shift(r + i, len);
                assert((w + k) % len == (r + i) % len) by {
                    assert((avail + (r + k)) % len == ((w - r) + (r + k)) % len);
                    assert(avail + r + k == (r + i) + len);
                    assert((w - r) + (r + k) == w + k);
                }
            } else {
                let k = i - avail;
                self.lemma_write_data(w, bytes, k);
                assert((r + i) % len == (w + k) % len) by {
                    lemma_mod_add(w - r, r + k, len);
                    assert(avail + (r + k) == r + i);
                    assert((w - r) + (r + k) == w + k);
                }
            }
        }
        assert(next.pending() =~= self.pending() + bytes);
    }

    /// Law: moving the reader's index over pending bytes removes exactly
    /// those bytes from the front.
    pub proof fn lemma_pop(self, n: int, next: RingState)
        requires
            self.wf(),
            self.indices_ok(),
            0 <= n <= self.pending().len(),
            n % 8 == 0,
            next == self.store(IDX_OUT as int, ((self.read_idx() + n) % self.len()) as u32),
        ensures
            next.wf(),
            next.indices_ok(),
            next.write_idx() == self.write_idx(),
            next.pending() == self.pending().skip(n),
    {
        let len = self.len();
        let w = self.write_idx() as int;
        let r = self.read_idx() as int;
        let avail = data_bytes(w, r, len);
        let r2 = (r + n) % len;
        lemma_len_mod8(len);
        lemma_data_bytes_mod(w, r, len);
        lemma_mod_shift(r + n, len);
        lemma_mod8_of_mod(r + n, len);
        lemma_data_bytes_mod(w, r2, len);
        assert((w - r2) % len == avail - n) by {
            vstd::arithmetic::div_mod::lemma_sub_mod_noop_right(w, r + n, len);
            lemma_mod_add(w - r, -n, len);
            assert((w - r) + (-n) == w - (r + n));
            assert(avail + (-n) == avail - n);
            lemma_mod_shift(avail - n, len);
        }
        assert forall|i: int| 0 <= i < avail - n implies next.pending()[i] == self.pending().skip(
            n,
        )[i] by {
            lemma_mod_add(r + n, i, len);
            assert((r + n) + i == r + (n + i));
        }
        assert(next.pending() =~= self.pending().skip(n));
    }

    /// Law: the ring is empty exactly when nothing is pending.
    pub proof fn lemma_empty(self)
        requires
            self.wf(),
            self.indices_ok(),
        ensures
            self.pending().len() == 0 <==> self.write_idx() == self.read_idx(),
            self.pending().len() <= self.len() - 8,
            free_bytes(self.write_idx() as int, self.read_idx() as int, self.len()) == self.len()
                - self.pending().len() - 8,
    {
        lemma_len_mod8(self.len());
        lemma_data_bytes_mod(self.write_idx() as int, self.read_idx() as int, self.len());
    }
}

} // verus!
