//! A big-endian bit reader over the bytes of an entropy-coded segment;
//! bits past the end read as zero.
use vstd::prelude::*;
use vstd::arithmetic::power2::{pow2, lemma_pow2_adds, lemma_pow2_pos, lemma2_to64};
use vstd::arithmetic::div_mod::{
    lemma_fundamental_div_mod, lemma_fundamental_div_mod_converse, lemma_mod_bound,
};
use vstd::bits::{lemma_u64_shr_is_div, lemma_u64_shl_is_mul, lemma_u8_shr_is_div};

verus! {

/// Bit `i` of `data`, most significant bit of each byte first; zero past
/// the end.
pub open spec fn bit_of(data: Seq<u8>, i: int) -> int {
    if 0 <= i && i / 8 < data.len() {
        ((data[i / 8] as int) / (pow2((7 - i % 8) as nat) as int)) % 2
    } else {
        0
    }
}

/// The `n` bits of `data` from bit `start` on, as a big-endian number.
pub open spec fn bits_value(data: Seq<u8>, start: int, n: nat) -> int
    decreases n,
{
    if n == 0 {
        0
    } else {
        2 * bits_value(data, start, (n - 1) as nat) + bit_of(data, start + n - 1)
    }
}

/// Number of bytes of `data` not yet touched after `bitpos` bits: the
/// length less the bytes that the read bits reach into.
pub open spec fn extras_spec(len: int, bitpos: int) -> int {
    len - (bitpos + 7) / 8
}

pub proof fn lemma_bits_value_bound(data: Seq<u8>, start: int, n: nat)
    ensures
        0 <= bits_value(data, start, n) < pow2(n),
    decreases n,
{
    lemma_pow2_pos(n);
    if n > 0 {
        lemma_bits_value_bound(data, start, (n - 1) as nat);
        lemma_pow2_adds((n - 1) as nat, 1);
        lemma2_to64();
        let i = start + n - 1;
        if 0 <= i && i / 8 < data.len() {
            lemma_pow2_pos((7 - i % 8) as nat);
            lemma_mod_bound((data[i / 8] as int) / (pow2((7 - i % 8) as nat) as int), 2);
        }
    }
}

/// `a + b` bits split into the first `a` and the next `b`.
pub proof fn lemma_bits_value_split(data: Seq<u8>, start: int, a: nat, b: nat)
    ensures
        bits_value(data, start, a + b) == bits_value(data, start, a) * pow2(b) + bits_value(
            data,
            start + a,
            b,
        ),
    decreases b,
{
    lemma2_to64();
    if b == 0 {
        assert(a + b == a);
        assert(bits_value(data, start + a, b) == 0);
        assert(bits_value(data, start, a) * pow2(b) == bits_value(data, start, a));
    } else {
        let b1 = (b - 1) as nat;
        let ab1 = (a + b1) as nat;
        lemma_bits_value_split(data, start, a, b1);
        lemma_pow2_adds(b1, 1);
        let hi = bits_value(data, start, a);
        let lo1 = bits_value(data, start + a, b1);
        let bit = bit_of(data, start + a + b - 1);
        assert(a + b1 == ab1);
        assert(bits_value(data, start, ab1) == hi * pow2(b1) + lo1);
        assert((ab1 + 1) as nat == a + b);
        assert(bits_value(data, start, a + b) == 2 * bits_value(data, start, ab1) + bit_of(
            data,
            start + ab1,
        ));
        assert(bits_value(data, start + a, b) == 2 * lo1 + bit_of(data, start + a + b1));
        assert(hi * pow2(b) == 2 * (hi * pow2(b1))) by (nonlinear_arith)
            requires
                pow2(b) == pow2(b1) * 2,
        ;
    }
}

/// Eight bits from the start of byte `p` are that byte, or zero past the end.
pub proof fn lemma_byte_bits(data: Seq<u8>, p: int)
    requires
        p >= 0,
    ensures
        bits_value(data, 8 * p, 8) == if p < data.len() {
            data[p] as int
        } else {
            0
        },
{
    reveal_with_fuel(bits_value, 9);
    lemma2_to64();
    lemma_fundamental_div_mod_converse(8 * p + 0, 8, p, 0);
    lemma_fundamental_div_mod_converse(8 * p + 1, 8, p, 1);
    lemma_fundamental_div_mod_converse(8 * p + 2, 8, p, 2);
    lemma_fundamental_div_mod_converse(8 * p + 3, 8, p, 3);
    lemma_fundamental_div_mod_converse(8 * p + 4, 8, p, 4);
    lemma_fundamental_div_mod_converse(8 * p + 5, 8, p, 5);
    lemma_fundamental_div_mod_converse(8 * p + 6, 8, p, 6);
    lemma_fundamental_div_mod_converse(8 * p + 7, 8, p, 7);
    if p < data.len() {
        let x = data[p];
        assert(x as int == ((x as int / 128) % 2) * 128 + ((x as int / 64) % 2) * 64 + ((x as int
            / 32) % 2) * 32 + ((x as int / 16) % 2) * 16 + ((x as int / 8) % 2) * 8 + ((x as int
            / 4) % 2) * 4 + ((x as int / 2) % 2) * 2 + ((x as int / 1) % 2)) by {
            assert(x == ((x / 128) % 2) * 128 + ((x / 64) % 2) * 64 + ((x / 32) % 2) * 32 + ((x
                / 16) % 2) * 16 + ((x / 8) % 2) * 8 + ((x / 4) % 2) * 4 + ((x / 2) % 2) * 2 + ((x
                / 1) % 2)) by (bit_vector);
        }
    }
}

/// A bit reader: `nbits_av` bits after bit position `pos * 8 - nbits_av`
/// are held in `bits_av`; `pos` bytes have been loaded.
pub struct Stream<'a> {
    data: &'a [u8],
    pos: u64,
    nbits_av: u8,
    bits_av: u64,
}

/// Positions beyond this many bits are refused, which keeps the counters
/// far from overflow.
pub const MAX_BIT_POSITION: u64 = 0x1000_0000_0000_0000;

impl<'a> Stream<'a> {
    pub closed spec fn bytes(&self) -> Seq<u8> {
        self.data@
    }

    /// The number of bits read so far.
    pub closed spec fn bitpos(&self) -> int {
        self.pos * 8 - self.nbits_av
    }

    /// The number of bits held in the register.
    pub closed spec fn loaded(&self) -> int {
        self.nbits_av as int
    }

    pub closed spec fn wf(&self) -> bool {
        &&& self.nbits_av <= 64
        &&& self.pos * 8 >= self.nbits_av
        &&& self.pos <= MAX_BIT_POSITION / 8 + 8
        &&& self.bits_av as int == bits_value(self.data@, self.bitpos(), self.nbits_av as nat)
    }

    pub fn new(data: &'a [u8]) -> (r: Stream<'a>)
        ensures
            r.wf(),
            r.bytes() == data@,
            r.bitpos() == 0,
    {
        Stream { data, pos: 0, nbits_av: 0, bits_av: 0 }
    }

    /// The number of bits read so far.
    pub fn position(&self) -> (r: u64)
        requires
            self.wf(),
        ensures
            r as int == self.bitpos(),
    {
        self.pos * 8 - self.nbits_av as u64
    }

    /// Loads the next byte, or a zero past the end, into the register.
    pub fn get_extra_bits(&mut self)
        requires
            old(self).wf(),
            old(self).loaded() <= 56,
            old(self).bitpos() + 64 <= MAX_BIT_POSITION,
        ensures
            final(self).wf(),
            final(self).bytes() == old(self).bytes(),
            final(self).bitpos() == old(self).bitpos(),
            final(self).loaded() == old(self).loaded() + 8,
    {
        let byte: u8 = if self.pos < self.data.len() as u64 {
            self.data[self.pos as usize]
        } else {
            0
        };
        proof {
            let n = self.nbits_av as nat;
            lemma_byte_bits(self.data@, self.pos as int);
            lemma_bits_value_split(self.data@, self.bitpos(), n, 8);
            lemma_bits_value_bound(self.data@, self.bitpos(), n);
            lemma_pow2_adds(n, 8);
            lemma2_to64();
            if n + 8 < 64 {
                vstd::arithmetic::power2::lemma_pow2_strictly_increases(n + 8, 64);
            }
            assert(self.bits_av * 256 + byte < pow2(n + 8)) by (nonlinear_arith)
                requires
                    self.bits_av < pow2(n),
                    byte < 256,
                    pow2(n + 8) == pow2(n) * pow2(8),
                    pow2(8) == 256,
            ;
        }
        self.bits_av = self.bits_av * 256 + byte as u64;
        self.pos = self.pos + 1;
        self.nbits_av = self.nbits_av + 8;
    }

    fn fill(&mut self, count: u8)
        requires
            old(self).wf(),
            count <= 32,
            old(self).bitpos() + 64 <= MAX_BIT_POSITION,
        ensures
            final(self).wf(),
            final(self).bytes() == old(self).bytes(),
            final(self).bitpos() == old(self).bitpos(),
            final(self).nbits_av >= count,
            final(self).nbits_av <= 40 || final(self).nbits_av == old(self).nbits_av,
    {
        while self.nbits_av < count
            invariant
                self.wf(),
                self.loaded() == self.nbits_av as int,
                self.bytes() == old(self).bytes(),
                self.bitpos() == old(self).bitpos(),
                count <= 32,
                self.nbits_av <= 40 || self.nbits_av == old(self).nbits_av,
                old(self).bitpos() + 64 <= MAX_BIT_POSITION,
            decreases 64 - self.loaded(),
        {
            let ghost before = self.loaded();
            self.get_extra_bits();
            assert(self.loaded() == before + 8);
        }
    }

    /// The next `count` bits as a number, without consuming them.
    pub fn peek_bits(&mut self, count: u8) -> (r: u32)
        requires
            old(self).wf(),
            1 <= count <= 32,
            old(self).bitpos() + 64 <= MAX_BIT_POSITION,
        ensures
            final(self).wf(),
            final(self).bytes() == old(self).bytes(),
            final(self).bitpos() == old(self).bitpos(),
            r as int == bits_value(old(self).bytes(), old(self).bitpos(), count as nat),
    {
        self.fill(count);
        let k: u8 = self.nbits_av - count;
        proof {
            lemma_bits_value_split(self.data@, self.bitpos(), count as nat, k as nat);
            lemma_bits_value_bound(self.data@, self.bitpos() + count, k as nat);
            lemma_bits_value_bound(self.data@, self.bitpos(), count as nat);
            lemma_pow2_pos(k as nat);
            lemma_u64_shr_is_div(self.bits_av, k as u64);
            let hi = bits_value(self.data@, self.bitpos(), count as nat);
            let lo = bits_value(self.data@, self.bitpos() + count, k as nat);
            lemma_fundamental_div_mod_converse(self.bits_av as int, pow2(k as nat) as int, hi, lo);
            vstd::arithmetic::power2::lemma_pow2_strictly_increases(count as nat, 33);
            lemma2_to64();
            if count == 32 {
                assert(hi < 0x1_0000_0000);
            } else {
                vstd::arithmetic::power2::lemma_pow2_strictly_increases(count as nat, 32);
            }
        }
        (self.bits_av >> (k as u64)) as u32
    }

    /// Consumes `count` bits.
    pub fn consume_bits(&mut self, count: u8)
        requires
            old(self).wf(),
            count <= 32,
            old(self).bitpos() + 64 <= MAX_BIT_POSITION,
        ensures
            final(self).wf(),
            final(self).bytes() == old(self).bytes(),
            final(self).bitpos() == old(self).bitpos() + count,
    {
        self.fill(count);
        let k: u8 = self.nbits_av - count;
        proof {
            lemma_bits_value_split(self.data@, self.bitpos(), count as nat, k as nat);
            lemma_bits_value_bound(self.data@, self.bitpos() + count, k as nat);
            lemma_bits_value_bound(self.data@, self.bitpos(), count as nat);
            lemma_pow2_pos(k as nat);
            lemma2_to64();
        }
        if k == 64 {
            return;
        }
        proof {
            lemma_u64_shr_is_div(self.bits_av, k as u64);
            let hi = bits_value(self.data@, self.bitpos(), count as nat);
            let lo = bits_value(self.data@, self.bitpos() + count, k as nat);
            lemma_fundamental_div_mod_converse(self.bits_av as int, pow2(k as nat) as int, hi, lo);
            assert(hi * pow2(k as nat) <= self.bits_av) by (nonlinear_arith)
                requires
                    self.bits_av == hi * pow2(k as nat) + lo,
                    lo >= 0,
            ;
            lemma_u64_shl_is_mul((self.bits_av >> (k as u64)), k as u64);
        }
        let hi: u64 = self.bits_av >> (k as u64);
        self.bits_av = self.bits_av - (hi << (k as u64));
        self.nbits_av = k;
    }

    /// Bytes of the data that no read reached: positive when data is left
    /// over, negative when reads ran past the end.
    pub fn get_extras(&self) -> (r: i64)
        requires
            self.wf(),
            self.bytes().len() <= MAX_BIT_POSITION,
        ensures
            r as int == extras_spec(self.bytes().len() as int, self.bitpos()),
    {
        proof {
            let a = (self.nbits_av / 8) as int;
            let b = (self.nbits_av % 8) as int;
            lemma_fundamental_div_mod(self.nbits_av as int, 8);
            lemma_mod_bound(self.nbits_av as int, 8);
            let bp = self.bitpos();
            assert(bp + 7 == 8 * (self.pos - a) + (7 - b));
            lemma_fundamental_div_mod_converse(bp + 7, 8, self.pos - a, 7 - b);
            lemma_u8_shr_is_div(self.nbits_av, 3);
            lemma2_to64();
        }
        self.data.len() as i64 + (self.nbits_av >> 3) as i64 - self.pos as i64
    }
}

} // verus!
