use vstd::prelude::*;
use vstd::arithmetic::div_mod::lemma_fundamental_div_mod;
use vstd::arithmetic::mul::lemma_mul_inequality;

verus! {

/// The value of a byte sequence read as a little-endian unsigned integer.
pub open spec fn le_value(b: Seq<u8>) -> nat
    decreases b.len(),
{
    if b.len() == 0 {
        0
    } else {
        b[0] as nat + 256 * le_value(b.drop_first())
    }
}

/// The `n`-byte little-endian encoding of `v`; higher bytes of `v` are cut off.
pub open spec fn le_bytes(v: nat, n: nat) -> Seq<u8>
    decreases n,
{
    if n == 0 {
        Seq::empty()
    } else {
        seq![(v % 256) as u8] + le_bytes(v / 256, (n - 1) as nat)
    }
}

/// 256^n: the number of distinct values an `n`-byte field can carry.
pub open spec fn pow256(n: nat) -> nat
    decreases n,
{
    if n == 0 {
        1
    } else {
        256 * pow256((n - 1) as nat)
    }
}

/// The concrete powers that the fixed-width reads below use.
pub proof fn lemma_pow256_small()
    ensures
        pow256(1) == 0x100,
        pow256(2) == 0x1_0000,
        pow256(4) == 0x1_0000_0000,
        pow256(8) == 0x1_0000_0000_0000_0000,
{
    assert(pow256(0) == 1);
    assert(pow256(1) == 256);
    assert(pow256(2) == 256 * 256);
    assert(pow256(3) == 256 * pow256(2));
    assert(pow256(4) == 256 * pow256(3));
    assert(pow256(5) == 256 * pow256(4));
    assert(pow256(6) == 256 * pow256(5));
    assert(pow256(7) == 256 * pow256(6));
    assert(pow256(8) == 256 * pow256(7));
}

pub proof fn lemma_le_bytes_len(v: nat, n: nat)
    ensures
        le_bytes(v, n).len() == n,
    decreases n,
{
    if n > 0 {
        lemma_le_bytes_len(v / 256, (n - 1) as nat);
    }
}

pub proof fn lemma_le_value_bound(b: Seq<u8>)
    ensures
        le_value(b) < pow256(b.len()),
    decreases b.len(),
{
    if b.len() > 0 {
        lemma_le_value_bound(b.drop_first());
    }
}

/// A value below 256^n survives the trip through its n-byte encoding.
pub proof fn lemma_le_round_trip(v: nat, n: nat)
    requires
        v < pow256(n),
    ensures
        le_value(le_bytes(v, n)) == v,
    decreases n,
{
    if n > 0 {
        let rest = le_bytes(v / 256, (n - 1) as nat);
        assert((seq![(v % 256) as u8] + rest).drop_first() =~= rest);
        assert(v / 256 < pow256((n - 1) as nat)) by {
            lemma_fundamental_div_mod(v as int, 256);
            if v / 256 >= pow256((n - 1) as nat) {
                lemma_mul_inequality(pow256((n - 1) as nat) as int, (v / 256) as int, 256);
            }
        }
        lemma_le_round_trip(v / 256, (n - 1) as nat);
        lemma_fundamental_div_mod(v as int, 256);
    }
}

/// A little-endian value splits at any byte boundary `k` into a low and a
/// high part.
pub proof fn lemma_le_value_split(b: Seq<u8>, k: int)
    requires
        0 <= k <= b.len(),
    ensures
        le_value(b) == le_value(b.take(k)) + pow256(k as nat) * le_value(b.skip(k)),
    decreases k,
{
    if k == 0 {
        assert(b.take(k) =~= Seq::<u8>::empty());
        assert(le_value(b.take(k)) == 0);
        assert(b.skip(k) =~= b);
        assert(le_value(b.skip(k)) == le_value(b));
        assert(pow256(k as nat) == 1);
        assert(le_value(b) == le_value(b.take(k)) + pow256(k as nat) * le_value(b.skip(k)));
    } else {
        let rest = b.drop_first();
        assert(b.take(k).drop_first() =~= rest.take(k - 1));
        assert(b.skip(k) =~= rest.skip(k - 1));
        lemma_le_value_split(rest, k - 1);
        assert(b.take(k).len() != 0);
        assert(b.take(k)[0] == b[0]);
        let lo = le_value(rest.take(k - 1));
        let hi = le_value(rest.skip(k - 1));
        let p = pow256((k - 1) as nat);
        assert(le_value(b) == b[0] + 256 * le_value(rest));
        assert(le_value(b.take(k)) == b[0] + 256 * lo);
        assert(le_value(rest) == lo + p * hi);
        assert(256 * (lo + p * hi) == 256 * lo + (256 * p) * hi) by (nonlinear_arith);
        assert(pow256(k as nat) == 256 * p);
        assert(pow256(k as nat) * hi == (256 * p) * hi);
        assert(le_value(b.skip(k)) == hi);
        assert(le_value(b) == le_value(b.take(k)) + pow256(k as nat) * le_value(b.skip(k)));
    }
}

/// Cursor over a borrowed byte buffer; reads are little-endian and the
/// cursor never moves past the end.
pub struct ByteStreamReader<'slc> {
    stream: &'slc [u8],
    pos: usize,
}

impl<'slc> ByteStreamReader<'slc> {
    /// The whole buffer the reader was created over.
    pub closed spec fn bytes(self) -> Seq<u8> {
        self.stream@
    }

    /// Index of the next unread byte.
    pub closed spec fn position(self) -> int {
        self.pos as int
    }

    /// The cursor stands inside the buffer (or just past its end).
    pub open spec fn wf(self) -> bool {
        0 <= self.position() <= self.bytes().len()
    }

    /// Number of bytes not yet read.
    pub open spec fn remaining(self) -> int {
        self.bytes().len() - self.position()
    }

    /// The unread suffix of the buffer.
    pub open spec fn rest(self) -> Seq<u8> {
        self.bytes().skip(self.position())
    }

    pub fn new(stream: &'slc [u8]) -> (r: Self)
        ensures
            r.bytes() == stream@,
            r.position() == 0,
            r.wf(),
    {
        Self { stream, pos: 0 }
    }

    /// How many bytes are still unread; decoders check this before reading.
    pub fn remaining_len(&self) -> (r: usize)
        requires
            self.wf(),
        ensures
            r == self.remaining(),
    {
        self.stream.len() - self.pos
    }

    pub fn u8(&mut self) -> (r: u8)
        requires
            old(self).wf(),
            old(self).remaining() >= 1,
        ensures
            final(self).wf(),
            final(self).bytes() == old(self).bytes(),
            final(self).position() == old(self).position() + 1,
            r == old(self).bytes()[old(self).position()],
    {
        let byte = self.stream[self.pos];
        self.advance_by(1);
        byte
    }

    pub fn u16(&mut self) -> (r: u16)
        requires
            old(self).wf(),
            old(self).remaining() >= 2,
        ensures
            final(self).wf(),
            final(self).bytes() == old(self).bytes(),
            final(self).position() == old(self).position() + 2,
            r as nat == le_value(
                old(self).bytes().subrange(old(self).position(), old(self).position() + 2),
            ),
    {
        let b0 = self.u8();
        let b1 = self.u8();
        let r = b0 as u16 + b1 as u16 * 256;
        proof {
            let s = old(self).bytes().subrange(old(self).position(), old(self).position() + 2);
            assert(s[0] == b0);
            assert(s[1] == b1);
            assert(s.drop_first() =~= old(self).bytes().subrange(
                old(self).position() + 1,
                old(self).position() + 2,
            ));
            assert(s.drop_first()[0] == b1);
            assert(s.drop_first().drop_first() =~= Seq::<u8>::empty());
            assert(le_value(s.drop_first().drop_first()) == 0);
            assert(le_value(s.drop_first()) == b1 as nat);
            assert(le_value(s) == b0 as nat + 256 * (b1 as nat));
        }
        r
    }

    pub fn u32(&mut self) -> (r: u32)
        requires
            old(self).wf(),
            old(self).remaining() >= 4,
        ensures
            final(self).wf(),
            final(self).bytes() == old(self).bytes(),
            final(self).position() == old(self).position() + 4,
            r as nat == le_value(
                old(self).bytes().subrange(old(self).position(), old(self).position() + 4),
            ),
    {
        let lo = self.u16();
        let hi = self.u16();
        let r = lo as u32 + hi as u32 * 0x1_0000;
        proof {
            let s = old(self).bytes().subrange(old(self).position(), old(self).position() + 4);
            lemma_le_value_split(s, 2);
            assert(s.take(2) =~= old(self).bytes().subrange(
                old(self).position(),
                old(self).position() + 2,
            ));
            assert(s.skip(2) =~= old(self).bytes().subrange(
                old(self).position() + 2,
                old(self).position() + 4,
            ));
            lemma_pow256_small();
        }
        r
    }

    pub fn u64(&mut self) -> (r: u64)
        requires
            old(self).wf(),
            old(self).remaining() >= 8,
        ensures
            final(self).wf(),
            final(self).bytes() == old(self).bytes(),
            final(self).position() == old(self).position() + 8,
            r as nat == le_value(
                old(self).bytes().subrange(old(self).position(), old(self).position() + 8),
            ),
    {
        let lo = self.u32();
        let hi = self.u32();
        let r = lo as u64 + hi as u64 * 0x1_0000_0000;
        proof {
            let s = old(self).bytes().subrange(old(self).position(), old(self).position() + 8);
            lemma_le_value_split(s, 4);
            assert(s.take(4) =~= old(self).bytes().subrange(
                old(self).position(),
                old(self).position() + 4,
            ));
            assert(s.skip(4) =~= old(self).bytes().subrange(
                old(self).position() + 4,
                old(self).position() + 8,
            ));
            lemma_le_value_bound(s.skip(4));
            lemma_pow256_small();
        }
        r
    }

    /// Skips `by` bytes without reading them.
    pub fn advance_by(&mut self, by: usize)
        requires
            old(self).wf(),
            old(self).remaining() >= by,
        ensures
            final(self).wf(),
            final(self).bytes() == old(self).bytes(),
            final(self).position() == old(self).position() + by,
    {
        // Reading the length first lets the verifier see that the
        // advanced cursor still fits in usize.
        let _total = self.stream.len();
        self.pos = self.pos + by;
    }
}

/// Appends the `n`-byte little-endian encoding of `v`, low byte first.
#[verifier::loop_isolation(false)]
pub fn push_le(out: &mut Vec<u8>, v: u64, n: usize)
    ensures
        final(out)@ == old(out)@ + le_bytes(v as nat, n as nat),
{
    let ghost base = old(out)@;
    let mut x = v;
    let mut i: usize = 0;
    while i < n
        invariant
            i <= n,
            out@ + le_bytes(x as nat, (n - i) as nat) =~= base + le_bytes(v as nat, n as nat),
        decreases n - i,
    {
        out.push((x % 256) as u8);
        proof {
            assert(le_bytes(x as nat, (n - i) as nat) == seq![(x as nat % 256) as u8] + le_bytes(
                x as nat / 256,
                (n - i - 1) as nat,
            ));
            assert((x % 256) as u8 == (x as nat % 256) as u8);
            assert((x / 256) as nat == x as nat / 256);
            assert(out@ + le_bytes((x / 256) as nat, (n - i - 1) as nat) =~= base + le_bytes(
                v as nat,
                n as nat,
            ));
        }
        x = x / 256;
        i = i + 1;
    }
    proof {
        assert(le_bytes(x as nat, 0) =~= Seq::<u8>::empty());
        assert(out@ =~= out@ + le_bytes(x as nat, 0));
        assert(out@ =~= base + le_bytes(v as nat, n as nat));
    }
}

/// A message part that knows how to read itself from a byte stream.
pub trait MessageDeserializer {
    type Result;

    fn deserialize_from(reader: &mut ByteStreamReader) -> Self::Result
        requires
            old(reader).wf(),
    ;
}

} // verus!
