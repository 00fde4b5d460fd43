//! Canonical Huffman tables of baseline JPEG (Annex C of the standard) and
//! the decoding of one coefficient block.
use vstd::prelude::*;
use vstd::arithmetic::power2::{pow2, lemma2_to64, lemma_pow2_adds};
use crate::bitstream::{bits_value, Stream};
use crate::error::UVIError;

verus! {

/// Code lengths of the symbols in order: `bits[i]` symbols of length
/// `i + 1`, for the first `upto` lengths.
pub open spec fn huffsize_of(bits: Seq<u8>, upto: nat) -> Seq<u8>
    decreases upto,
{
    if upto == 0 {
        Seq::empty()
    } else {
        huffsize_of(bits, (upto - 1) as nat) + Seq::new(bits[upto - 1] as nat, |j: int| upto as u8)
    }
}

/// The code of symbol `k` and the code length reached, by Figure C.2: the
/// first code is zero, each next one is the previous plus one, shifted left
/// as the length grows.
pub open spec fn gen_codes(sizes: Seq<u8>, k: nat) -> (int, int)
    decreases k,
{
    if k == 0 {
        (0, sizes[0] as int)
    } else {
        let (c, cs) = gen_codes(sizes, (k - 1) as nat);
        let grow = if sizes[k as int] > cs {
            sizes[k as int] - cs
        } else {
            0
        };
        ((c + 1) * pow2(grow as nat), cs + grow)
    }
}

/// A Huffman table as a list of symbols with their code lengths and codes.
pub struct HuffModel {
    pub sizes: Seq<u8>,
    pub codes: Seq<int>,
    pub values: Seq<u8>,
}

/// The table that `bits` and `values` define, or the error for a list of
/// lengths that overflows its codes or a value list that is too short.
pub open spec fn huffman_spec(bits: Seq<u8>, values: Seq<u8>) -> Result<HuffModel, UVIError> {
    let sizes = huffsize_of(bits, 16);
    if exists|k: int| 0 <= k < sizes.len() && #[trigger] gen_codes(sizes, k as nat).0 >= pow2(sizes[k] as nat) {
        Err(UVIError::HuffmanBadCodeLength)
    } else if values.len() < sizes.len() {
        Err(UVIError::HuffmanBadCodeLength)
    } else {
        Ok(
            HuffModel {
                sizes,
                codes: Seq::new(sizes.len(), |k: int| gen_codes(sizes, k as nat).0),
                values,
            },
        )
    }
}

/// A Huffman table: symbol `k` has code `codes[k]` of `sizes[k]` bits and
/// decodes to `values[k]`.
pub struct HuffmanTable {
    pub sizes: Vec<u8>,
    pub codes: Vec<u16>,
    pub values: Vec<u8>,
}

impl View for HuffmanTable {
    type V = HuffModel;

    open spec fn view(&self) -> HuffModel {
        HuffModel {
            sizes: self.sizes@,
            codes: Seq::new(self.codes@.len(), |k: int| self.codes@[k] as int),
            values: self.values@,
        }
    }
}

impl HuffModel {
    pub open spec fn wf(self) -> bool {
        &&& self.sizes.len() == self.codes.len()
        &&& self.sizes.len() <= self.values.len()
        &&& forall|k: int| 0 <= k < self.sizes.len() ==> 1 <= #[trigger] self.sizes[k] <= 16
    }
}

/// The first symbol whose code matches the bits at `bp`, with its length.
pub open spec fn first_match(t: HuffModel, data: Seq<u8>, bp: int, k: nat) -> Option<(u8, nat)>
    decreases t.sizes.len() - k,
{
    if k >= t.sizes.len() {
        None
    } else if bits_value(data, bp, t.sizes[k as int] as nat) == t.codes[k as int] {
        Some((t.values[k as int], t.sizes[k as int] as nat))
    } else {
        first_match(t, data, bp, k + 1)
    }
}

/// Reads past this many bits are refused.
pub const DECODE_LIMIT: u64 = 0x0FFF_FFFF_FFFF_FF00;

/// The symbol at bit `bp` and its code length, if some code matches there.
pub open spec fn decode_spec(t: HuffModel, data: Seq<u8>, bp: int) -> Option<(u8, nat)> {
    if bp > DECODE_LIMIT {
        None
    } else {
        first_match(t, data, bp, 0)
    }
}

proof fn lemma_huffsize_range(bits: Seq<u8>, upto: nat)
    requires
        upto <= 16,
    ensures
        forall|k: int|
            0 <= k < huffsize_of(bits, upto).len() ==> 1 <= #[trigger] huffsize_of(bits, upto)[k]
                <= upto,
    decreases upto,
{
    if upto > 0 {
        let prev = huffsize_of(bits, (upto - 1) as nat);
        let grp = Seq::new(bits[upto - 1] as nat, |j: int| upto as u8);
        lemma_huffsize_range(bits, (upto - 1) as nat);
        assert forall|k: int| 0 <= k < huffsize_of(bits, upto).len() implies 1 <= #[trigger] huffsize_of(
            bits,
            upto,
        )[k] <= upto by {
            assert(huffsize_of(bits, upto) == prev + grp);
            if k < prev.len() {
                assert(huffsize_of(bits, upto)[k] == prev[k]);
            } else {
                assert(huffsize_of(bits, upto)[k] == grp[k - prev.len()]);
            }
        }
    }
}

impl HuffmanTable {
    /// A copy of the table.
    pub fn duplicate(&self) -> (r: HuffmanTable)
        ensures
            r@ == self@,
    {
        let r = HuffmanTable {
            sizes: self.sizes.clone(),
            codes: self.codes.clone(),
            values: self.values.clone(),
        };
        assert(r.sizes@ =~= self.sizes@);
        assert(r.codes@ =~= self.codes@);
        assert(r.values@ =~= self.values@);
        assert(r@.codes =~= self@.codes);
        r
    }

    /// Builds the table of the 16 counts `bits` and the symbol list `values`.
    pub fn new(bits: &[u8], values: &[u8]) -> (r: Result<HuffmanTable, UVIError>)
        requires
            bits@.len() == 16,
        ensures
            r is Ok <==> huffman_spec(bits@, values@) is Ok,
            r matches Ok(t) ==> t@.wf() && huffman_spec(bits@, values@) == Ok::<
                HuffModel,
                UVIError,
            >(t@),
            r matches Err(e) ==> huffman_spec(bits@, values@) == Err::<HuffModel, UVIError>(e),
    {
        // Figure C.1: the code length of each symbol.
        let mut sizes: Vec<u8> = Vec::new();
        let mut i: usize = 0;
        while i < 16
            invariant
                i <= 16,
                bits@.len() == 16,
                sizes@ == huffsize_of(bits@, i as nat),
                sizes@.len() <= 255 * i,
            decreases 16 - i,
        {
            let mut j: u8 = 0;
            let ghost before = sizes@;
            while j < bits[i]
                invariant
                    j <= bits@[i as int],
                    i < 16,
                    bits@.len() == 16,
                    sizes@ == before + Seq::new(j as nat, |m: int| (i + 1) as u8),
                    before.len() <= 255 * i,
                decreases bits@[i as int] - j,
            {
                sizes.push((i + 1) as u8);
                j = j + 1;
                assert(sizes@ =~= before + Seq::new(j as nat, |m: int| (i + 1) as u8));
            }
            i = i + 1;
            assert(sizes@ =~= huffsize_of(bits@, i as nat));
        }
        proof {
            lemma_huffsize_range(bits@, 16);
            lemma2_to64();
        }
        let n = sizes.len();
        // Figure C.2: the canonical codes.
        let mut codes: Vec<u16> = Vec::new();
        if n > 0 {
            let mut code: u32 = 0;
            let mut code_size: u8 = sizes[0];
            let mut k: usize = 0;
            while k < n
                invariant
                    n == sizes@.len(),
                    sizes@ == huffsize_of(bits@, 16),
                    n > 0,
                    k <= n,
                    forall|m: int| 0 <= m < n ==> 1 <= #[trigger] sizes@[m] <= 16,
                    codes@.len() == k,
                    forall|m: int|
                        0 <= m < k ==> #[trigger] codes@[m] as int == gen_codes(sizes@, m as nat).0,
                    forall|m: int|
                        0 <= m < k ==> #[trigger] gen_codes(sizes@, m as nat).0 < pow2(
                            sizes@[m] as nat,
                        ),
                    k == 0 ==> code == 0 && code_size == sizes@[0],
                    k > 0 ==> code as int == gen_codes(sizes@, (k - 1) as nat).0 + 1
                        && code_size as int == gen_codes(sizes@, (k - 1) as nat).1,
                    k > 0 ==> code_size >= sizes@[k - 1],
                    1 <= code_size <= 16,
                    code <= pow2(code_size as nat),
                decreases n - k,
            {
                let size = sizes[k];
                let ghost c0 = code;
                let ghost cs0 = code_size;
                proof {
                    lemma2_to64();
                    assert((code_size - cs0) as nat == 0nat);
                    assert(c0 * pow2(0nat) == c0);
                    assert(code as int == c0 * pow2((code_size - cs0) as nat));
                }
                while code_size < size
                    invariant
                        cs0 <= code_size,
                        code_size <= 16,
                        size <= 16,
                        code_size <= size || code_size == cs0,
                        code as int == c0 * pow2((code_size - cs0) as nat),
                        code <= pow2(code_size as nat),
                    decreases size - code_size,
                {
                    proof {
                        lemma2_to64();
                        vstd::arithmetic::power2::lemma_pow2_strictly_increases(
                            code_size as nat,
                            16,
                        );
                        lemma_pow2_adds(code_size as nat, 1);
                        lemma_pow2_adds((code_size - cs0) as nat, 1);
                        vstd::arithmetic::power2::lemma_pow2_strictly_increases(
                            (code_size + 1) as nat,
                            32,
                        );
                        assert((code_size + 1 - cs0) as nat == (code_size - cs0) as nat + 1);
                        assert(code * 2 == c0 * pow2((code_size + 1 - cs0) as nat)) by (
                        nonlinear_arith)
                            requires
                                code == c0 * pow2((code_size - cs0) as nat),
                                pow2((code_size + 1 - cs0) as nat) == pow2(
                                    (code_size - cs0) as nat,
                                ) * 2,
                        ;
                        vstd::bits::lemma_u32_shl_is_mul(code, 1);
                    }
                    code = code << 1;
                    code_size = code_size + 1;
                }
                proof {
                    if k > 0 {
                        let (pc, pcs) = gen_codes(sizes@, (k - 1) as nat);
                        assert(gen_codes(sizes@, k as nat) == (
                            (pc + 1) * pow2(
                                (if sizes@[k as int] > pcs {
                                    sizes@[k as int] - pcs
                                } else {
                                    0
                                }) as nat,
                            ),
                            pcs + (if sizes@[k as int] > pcs {
                                sizes@[k as int] - pcs
                            } else {
                                0
                            }),
                        ));
                    }
                    assert(code as int == gen_codes(sizes@, k as nat).0);
                    assert(code_size as int == gen_codes(sizes@, k as nat).1);
                    lemma2_to64();
                    vstd::arithmetic::power2::lemma_pow2_strictly_increases(size as nat, 32);
                    vstd::bits::lemma_u32_shl_is_mul(1, size as u32);
                    if size < 16 {
                        vstd::arithmetic::power2::lemma_pow2_strictly_increases(size as nat, 16);
                    }
                    if size < code_size {
                        vstd::arithmetic::power2::lemma_pow2_strictly_increases(
                            size as nat,
                            code_size as nat,
                        );
                    }
                }
                let limit: u32 = 1u32 << (size as u32);
                if code >= limit {
                    let ghost kk = k as int;
                    assert(0 <= kk < sizes@.len() && gen_codes(sizes@, kk as nat).0 >= pow2(
                        sizes@[kk] as nat,
                    ));
                    assert(huffman_spec(bits@, values@) is Err);
                    return Err(UVIError::HuffmanBadCodeLength);
                }
                codes.push(code as u16);
                code = code + 1;
                k = k + 1;
            }
        }
        if values.len() < n {
            return Err(UVIError::HuffmanBadCodeLength);
        }
        let mut vals: Vec<u8> = Vec::new();
        let mut v: usize = 0;
        while v < values.len()
            invariant
                v <= values@.len(),
                vals@ == values@.take(v as int),
            decreases values@.len() - v,
        {
            vals.push(values[v]);
            v = v + 1;
            assert(vals@ =~= values@.take(v as int));
        }
        assert(values@.take(values@.len() as int) =~= values@);
        let t = HuffmanTable { sizes, codes, values: vals };
        assert(t@.codes =~= huffman_spec(bits@, values@).unwrap().codes);
        Ok(t)
    }

    /// Decodes one symbol at the stream's position and consumes its code.
    pub fn decode(&self, st: &mut Stream) -> (r: Result<u8, UVIError>)
        requires
            self@.wf(),
            old(st).wf(),
        ensures
            final(st).wf(),
            final(st).bytes() == old(st).bytes(),
            match decode_spec(self@, old(st).bytes(), old(st).bitpos()) {
                None => r == Err::<u8, UVIError>(UVIError::HuffmanDecodeError),
                Some((v, sz)) => r == Ok::<u8, UVIError>(v) && final(st).bitpos() == old(
                    st,
                ).bitpos() + sz,
            },
            r is Ok ==> final(st).bitpos() <= DECODE_LIMIT + 16,
    {
        if st.position() > DECODE_LIMIT {
            return Err(UVIError::HuffmanDecodeError);
        }
        let n = self.sizes.len();
        let mut k: usize = 0;
        while k < n
            invariant
                self@.wf(),
                n == self@.sizes.len(),
                k <= n,
                st.wf(),
                st.bytes() == old(st).bytes(),
                st.bitpos() == old(st).bitpos(),
                st.bitpos() <= DECODE_LIMIT,
                first_match(self@, st.bytes(), st.bitpos(), 0) == first_match(
                    self@,
                    st.bytes(),
                    st.bitpos(),
                    k as nat,
                ),
            decreases n - k,
        {
            let size = self.sizes[k];
            let bits = st.peek_bits(size);
            if bits == self.codes[k] as u32 {
                st.consume_bits(size);
                return Ok(self.values[k]);
            }
            k = k + 1;
        }
        Err(UVIError::HuffmanDecodeError)
    }
}

/// The end position of the AC coefficients of a block whose `l`-th
/// coefficient comes next at bit `bp`: each symbol skips `v / 16` zeros and
/// one coefficient of `v % 16` bits; symbol zero ends the block.
pub open spec fn ac_spec(t: HuffModel, data: Seq<u8>, bp: int, l: nat) -> Result<int, UVIError>
    decreases (if l < 64 {
        64 - l
    } else {
        0
    }) as nat,
{
    if l >= 64 {
        Ok(bp)
    } else {
        match decode_spec(t, data, bp) {
            None => Err(UVIError::HuffmanDecodeError),
            Some((v, sz)) => if v == 0 {
                Ok(bp + sz)
            } else {
                ac_spec(t, data, bp + sz + v % 16, l + (v / 16) as nat + 1)
            },
        }
    }
}

/// The end position of one block at bit `bp`: a DC symbol giving the
/// number of raw bits that follow, then the AC coefficients.
pub open spec fn block_spec(dc: HuffModel, ac: HuffModel, data: Seq<u8>, bp: int) -> Result<
    int,
    UVIError,
> {
    match decode_spec(dc, data, bp) {
        None => Err(UVIError::HuffmanDecodeError),
        Some((v, sz)) => if v > 32 {
            Err(UVIError::HuffmanDecodeError)
        } else {
            ac_spec(ac, data, bp + sz + v, 1)
        },
    }
}

proof fn lemma_ac_unfold(t: HuffModel, data: Seq<u8>, bp: int, l: nat)
    requires
        l < 64,
    ensures
        ac_spec(t, data, bp, l) == match decode_spec(t, data, bp) {
            None => Err(UVIError::HuffmanDecodeError),
            Some((v, sz)) => if v == 0 {
                Ok(bp + sz)
            } else {
                ac_spec(t, data, bp + sz + v % 16, l + (v / 16) as nat + 1)
            },
        },
{
}

/// Skips the AC coefficients of a block from the `l`-th on.
fn skip_ac(ac: &HuffmanTable, st: &mut Stream, l0: u8) -> (r: Result<(), UVIError>)
    requires
        ac@.wf(),
        old(st).wf(),
        1 <= l0 <= 64,
        old(st).bitpos() <= DECODE_LIMIT + 64,
    ensures
        final(st).wf(),
        final(st).bytes() == old(st).bytes(),
        match ac_spec(ac@, old(st).bytes(), old(st).bitpos(), l0 as nat) {
            Err(e) => r == Err::<(), UVIError>(e),
            Ok(bp) => r is Ok && final(st).bitpos() == bp,
        },
{
    let mut l: u8 = l0;
    while l < 64
        invariant
            ac@.wf(),
            st.wf(),
            st.bytes() == old(st).bytes(),
            1 <= l <= 80,
            st.bitpos() <= DECODE_LIMIT + 64,
            ac_spec(ac@, old(st).bytes(), old(st).bitpos(), l0 as nat) == ac_spec(
                ac@,
                st.bytes(),
                st.bitpos(),
                l as nat,
            ),
        decreases 80 - l,
    {
        proof {
            lemma_ac_unfold(ac@, st.bytes(), st.bitpos(), l as nat);
        }
        let code = match ac.decode(st) {
            Ok(c) => c,
            Err(e) => {
                return Err(e);
            },
        };
        if code == 0 {
            return Ok(());
        }
        assert(code >> 4 == code / 16) by (bit_vector);
        assert(code & 0x0F == code % 16) by (bit_vector);
        l = l + (code >> 4) + 1;
        st.consume_bits(code & 0x0F);
    }
    Ok(())
}

/// Skips one coefficient block of the entropy-coded data.
pub fn build_matrix(tables: &Vec<HuffmanTable>, st: &mut Stream, id_huffman_dc: u8, id_huffman_ac: u8) -> (r: Result<(), UVIError>)
    requires
        tables@.len() == 32,
        forall|i: int| 0 <= i < 32 ==> (#[trigger] tables@[i])@.wf(),
        old(st).wf(),
    ensures
        final(st).wf(),
        final(st).bytes() == old(st).bytes(),
        match block_spec(
            tables@[(id_huffman_dc % 16) as int]@,
            tables@[16 + (id_huffman_ac % 16) as int]@,
            old(st).bytes(),
            old(st).bitpos(),
        ) {
            Err(e) => r == Err::<(), UVIError>(e),
            Ok(bp) => r is Ok && final(st).bitpos() == bp,
        },
{
    let dci: usize = (id_huffman_dc & 0xF) as usize;
    let aci: usize = (0x10 | (id_huffman_ac & 0xF)) as usize;
    assert(id_huffman_dc & 0xF == id_huffman_dc % 16) by (bit_vector);
    assert(0x10 | (id_huffman_ac & 0xF) == 16 + id_huffman_ac % 16) by (bit_vector);
    let dc = &tables[dci];
    let ac = &tables[aci];
    let code = match dc.decode(st) {
        Ok(c) => c,
        Err(e) => {
            return Err(e);
        },
    };
    if code > 32 {
        return Err(UVIError::HuffmanDecodeError);
    }
    st.consume_bits(code);
    skip_ac(ac, st, 1)
}

} // verus!
