//! Repair of motion JPEG frames: the segments of a frame are copied out,
//! Huffman tables are dropped (decoders fall back on the standard ones),
//! and an entropy-coded segment whose last byte is a stuffed `0xFF` that
//! the restart interval's blocks do not reach loses that byte.
use vstd::prelude::*;
use crate::bitstream::{extras_spec, Stream, MAX_BIT_POSITION};
use crate::error::UVIError;
use crate::huffman::{block_spec, build_matrix, huffman_spec, HuffModel, HuffmanTable};
use crate::std_tables::{
    ac0_bits, ac0_values, ac1_bits, ac1_values, dc0_bits, dc1_bits, dc_values, std_ac0_bits,
    std_ac0_values, std_ac1_bits, std_ac1_values, std_dc0_bits, std_dc1_bits, std_dc_values,
};

verus! {

/// The longest frame accepted.
pub const MAX_FRAME: u64 = 0x0000_1000_0000_0000;

/// One colour component of a frame: its id, the ids of its DC and AC
/// tables, and how many blocks of it an MCU holds.
#[derive(Debug, Clone, Copy, PartialEq, Eq, Structural)]
pub struct JpegComponent {
    pub id_component: u8,
    pub id_huffman_dc: u8,
    pub id_huffman_ac: u8,
    pub repeat: u8,
}

pub open spec fn models(tables: Seq<HuffmanTable>) -> Seq<HuffModel> {
    Seq::new(tables.len(), |i: int| tables[i]@)
}

/// The tables of each block of one MCU, in order: `repeat` blocks of each
/// component.
pub open spec fn mcu_blocks(comps: Seq<JpegComponent>) -> Seq<(u8, u8)>
    decreases comps.len(),
{
    if comps.len() == 0 {
        Seq::empty()
    } else {
        let c = comps.last();
        mcu_blocks(comps.drop_last()) + Seq::new(
            c.repeat as nat,
            |j: int| (c.id_huffman_dc, c.id_huffman_ac),
        )
    }
}

/// The end position of blocks `j..` of one MCU from bit `bp`.
pub open spec fn blocks_spec(
    tables: Seq<HuffModel>,
    blocks: Seq<(u8, u8)>,
    data: Seq<u8>,
    bp: int,
    j: nat,
) -> Result<int, UVIError>
    decreases blocks.len() - j,
{
    if j >= blocks.len() {
        Ok(bp)
    } else {
        match block_spec(
            tables[(blocks[j as int].0 % 16) as int],
            tables[16 + (blocks[j as int].1 % 16) as int],
            data,
            bp,
        ) {
            Err(e) => Err(e),
            Ok(b) => blocks_spec(tables, blocks, data, b, j + 1),
        }
    }
}

/// The end position of `n` MCUs from bit `bp`.
pub open spec fn mcus_spec(
    tables: Seq<HuffModel>,
    blocks: Seq<(u8, u8)>,
    data: Seq<u8>,
    bp: int,
    n: nat,
) -> Result<int, UVIError>
    decreases n,
{
    if n == 0 {
        Ok(bp)
    } else {
        match blocks_spec(tables, blocks, data, bp, 0) {
            Err(e) => Err(e),
            Ok(b) => mcus_spec(tables, blocks, data, b, (n - 1) as nat),
        }
    }
}

/// Whether the entropy-coded bytes `seg` hold more than `restart` MCUs
/// use, so that their trailing stuffed `0xFF` is bogus.
pub open spec fn tail_is_bogus(
    tables: Seq<HuffModel>,
    comps: Seq<JpegComponent>,
    restart: nat,
    seg: Seq<u8>,
) -> Result<bool, UVIError> {
    match mcus_spec(tables, mcu_blocks(comps), seg, 0, restart) {
        Err(e) => Err(e),
        Ok(bp) => Ok(extras_spec(seg.len() as int, bp) != 0),
    }
}

/// Scans a segment from index `i`, after its marker's `0xFF`: the index of
/// the next marker and the bytes so far with `FF 00` read as `FF`.
pub open spec fn scan_segment(data: Seq<u8>, i: int, blk: Seq<u8>) -> Option<(int, Seq<u8>)>
    decreases data.len() - i,
{
    if i < 0 || i + 2 > data.len() {
        None
    } else if data[i] != 0xFF {
        scan_segment(data, i + 1, blk.push(data[i]))
    } else if data[i + 1] == 0 {
        scan_segment(data, i + 2, blk.push(0xFF))
    } else {
        Some((i, blk))
    }
}

/// The components of a start-of-frame segment.
pub open spec fn sof_components(blk: Seq<u8>, n: nat) -> Seq<JpegComponent> {
    Seq::new(
        n,
        |c: int|
            JpegComponent {
                id_component: blk[10 + 3 * c],
                id_huffman_dc: 0,
                id_huffman_ac: 0,
                repeat: ((blk[11 + 3 * c] / 16) * (blk[11 + 3 * c] % 16)) as u8,
            },
    )
}

/// Gives the components with id `id` the tables of the selector byte `ids`.
pub open spec fn assign_tables(comps: Seq<JpegComponent>, id: u8, ids: u8) -> Seq<JpegComponent> {
    Seq::new(
        comps.len(),
        |k: int|
            if comps[k].id_component == id {
                JpegComponent { id_huffman_dc: ids / 16, id_huffman_ac: ids % 16, ..comps[k] }
            } else {
                comps[k]
            },
    )
}

/// The components after the first `i` entries of a start-of-scan header.
pub open spec fn sos_assign(comps: Seq<JpegComponent>, blk: Seq<u8>, i: nat) -> Seq<JpegComponent>
    decreases i,
{
    if i == 0 {
        comps
    } else {
        let k = i - 1;
        assign_tables(sos_assign(comps, blk, k as nat), blk[5 + 2 * k], blk[6 + 2 * k])
    }
}

/// What one segment leaves behind: the decoder state, where the next
/// segment starts, and the bytes to emit.
pub struct SegOut {
    pub restart: u16,
    pub comps: Seq<JpegComponent>,
    pub tables: Seq<HuffModel>,
    pub next: int,
    pub emit: Seq<u8>,
}

pub open spec fn seg_out(
    restart: u16,
    comps: Seq<JpegComponent>,
    tables: Seq<HuffModel>,
    next: int,
    emit: Seq<u8>,
) -> SegOut {
    SegOut { restart, comps, tables, next, emit }
}

/// The bytes emitted for an entropy-coded segment `data[ps..pi]` whose
/// destuffed bytes from `start` on are `blk.skip(start)`.
pub open spec fn ecs_emit(
    data: Seq<u8>,
    ps: int,
    pi: int,
    blk: Seq<u8>,
    start: int,
    restart: u16,
    comps: Seq<JpegComponent>,
    tables: Seq<HuffModel>,
) -> Result<Seq<u8>, UVIError> {
    match tail_is_bogus(tables, comps, restart as nat, blk.skip(start)) {
        Err(e) => Err(e),
        Ok(b) => Ok(
            if b {
                data.subrange(ps, pi - 2)
            } else {
                data.subrange(ps, pi)
            },
        ),
    }
}

/// A start-of-frame segment: its components replace the current ones.
pub open spec fn sof_step(blk: Seq<u8>) -> Result<Seq<JpegComponent>, UVIError> {
    if blk.len() < 10 || blk.len() < 10 + 3 * blk[9] {
        Err(UVIError::BadJpegError)
    } else {
        Ok(sof_components(blk, blk[9] as nat))
    }
}

/// A Huffman table segment: after the length, the table class and id
/// byte, the 16 code counts and the symbols; the table replaces the one in
/// the slot of that byte.
pub open spec fn dht_step(blk: Seq<u8>, tables: Seq<HuffModel>) -> Result<Seq<HuffModel>, UVIError> {
    if blk.len() < 30 {
        Err(UVIError::BadJpegError)
    } else {
        match huffman_spec(blk.subrange(5, 21), blk.skip(21)) {
            Err(e) => Err(e),
            Ok(t) => Ok(tables.update((blk[4] % 32) as int, t)),
        }
    }
}

/// A restart-interval segment: the interval it defines, if it is long
/// enough to hold one.
pub open spec fn dri_step(blk: Seq<u8>, restart: u16) -> u16 {
    if blk.len() >= 6 {
        (blk[4] * 256 + blk[5]) as u16
    } else {
        restart
    }
}

/// A start-of-scan segment: the components with their tables, and the
/// bytes to emit.
pub open spec fn sos_step(
    data: Seq<u8>,
    ps: int,
    pi: int,
    blk: Seq<u8>,
    restart: u16,
    comps: Seq<JpegComponent>,
    tables: Seq<HuffModel>,
) -> Result<(Seq<JpegComponent>, Seq<u8>), UVIError> {
    if blk.len() < 5 || blk.len() < 5 + 2 * blk[4] {
        Err(UVIError::BadJpegError)
    } else {
        let comps2 = sos_assign(comps, blk, blk[4] as nat);
        let prev = blk[2] * 256 + blk[3];
        if restart > 0 && blk.last() == 0xFF {
            if 2 + prev > blk.len() {
                Err(UVIError::BadJpegError)
            } else {
                match ecs_emit(data, ps, pi, blk, 2 + prev, restart, comps2, tables) {
                    Err(e) => Err(e),
                    Ok(em) => Ok((comps2, em)),
                }
            }
        } else {
            Ok((comps2, data.subrange(ps, pi)))
        }
    }
}

/// A restart segment: the bytes to emit; its tail is checked like a scan's
/// only under a restart interval.
pub open spec fn rst_step(
    data: Seq<u8>,
    ps: int,
    pi: int,
    blk: Seq<u8>,
    restart: u16,
    comps: Seq<JpegComponent>,
    tables: Seq<HuffModel>,
) -> Result<Seq<u8>, UVIError> {
    if restart > 0 && blk.last() == 0xFF {
        ecs_emit(data, ps, pi, blk, 2, restart, comps, tables)
    } else {
        Ok(data.subrange(ps, pi))
    }
}

/// The segment `data[ps..pi]`, destuffed as `blk`, by its marker `blk[1]`.
pub open spec fn marker_step(
    data: Seq<u8>,
    ps: int,
    pi: int,
    blk: Seq<u8>,
    restart: u16,
    comps: Seq<JpegComponent>,
    tables: Seq<HuffModel>,
) -> Result<SegOut, UVIError> {
    let m = blk[1];
    let whole = data.subrange(ps, pi);
    if m == 0xC0 {
        match sof_step(blk) {
            Err(e) => Err(e),
            Ok(c) => Ok(seg_out(restart, c, tables, pi, whole)),
        }
    } else if m == 0xC4 {
        match dht_step(blk, tables) {
            Err(e) => Err(e),
            Ok(t) => Ok(seg_out(restart, comps, t, pi, Seq::empty())),
        }
    } else if m == 0xDD {
        Ok(seg_out(dri_step(blk, restart), comps, tables, pi, whole))
    } else if m == 0xDA {
        match sos_step(data, ps, pi, blk, restart, comps, tables) {
            Err(e) => Err(e),
            Ok((c, em)) => Ok(seg_out(restart, c, tables, pi, em)),
        }
    } else if 0xD0 <= m <= 0xD7 {
        match rst_step(data, ps, pi, blk, restart, comps, tables) {
            Err(e) => Err(e),
            Ok(em) => Ok(seg_out(restart, comps, tables, pi, em)),
        }
    } else {
        Ok(seg_out(restart, comps, tables, pi, whole))
    }
}

/// One segment starting with the `0xFF` at `ps`.
#[verifier::opaque]
pub open spec fn segment_spec(
    data: Seq<u8>,
    ps: int,
    restart: u16,
    comps: Seq<JpegComponent>,
    tables: Seq<HuffModel>,
) -> Result<SegOut, UVIError> {
    match scan_segment(data, ps + 1, seq![data[ps]]) {
        None => Err(UVIError::BadJpegError),
        Some((pi, blk)) => marker_step(data, ps, pi, blk, restart, comps, tables),
    }
}

/// The repaired bytes of the segments from the marker at `pi` up to the
/// end-of-image marker, which is left out.
#[verifier::opaque]
pub open spec fn repair_from(
    data: Seq<u8>,
    pi: int,
    restart: u16,
    comps: Seq<JpegComponent>,
    tables: Seq<HuffModel>,
) -> Result<Seq<u8>, UVIError>
    decreases data.len() - pi,
{
    if pi < 0 || pi + 1 >= data.len() {
        Err(UVIError::BadJpegError)
    } else if data[pi + 1] == 0xD9 {
        Ok(Seq::empty())
    } else if data[pi + 1] == 0xFF {
        repair_from(data, pi + 1, restart, comps, tables)
    } else {
        match segment_spec(data, pi, restart, comps, tables) {
            Err(e) => Err(e),
            Ok(o) => if o.next <= pi || o.next >= data.len() {
                Err(UVIError::BadJpegError)
            } else {
                match repair_from(data, o.next, o.restart, o.comps, o.tables) {
                    Err(e) => Err(e),
                    Ok(rest) => Ok(o.emit + rest),
                }
            },
        }
    }
}

/// The standard tables: DC tables in slots `0..16`, AC tables in `16..32`,
/// luminance at even slots and chrominance at odd ones.
pub open spec fn base_models() -> Result<Seq<HuffModel>, UVIError> {
    match huffman_spec(std_dc0_bits(), std_dc_values()) {
        Err(e) => Err(e),
        Ok(d0) => match huffman_spec(std_dc1_bits(), std_dc_values()) {
            Err(e) => Err(e),
            Ok(d1) => match huffman_spec(std_ac0_bits(), std_ac0_values()) {
                Err(e) => Err(e),
                Ok(a0) => match huffman_spec(std_ac1_bits(), std_ac1_values()) {
                    Err(e) => Err(e),
                    Ok(a1) => Ok(
                        Seq::new(
                            32,
                            |i: int|
                                if i < 16 {
                                    if i % 2 == 0 {
                                        d0
                                    } else {
                                        d1
                                    }
                                } else {
                                    if i % 2 == 0 {
                                        a0
                                    } else {
                                        a1
                                    }
                                },
                        ),
                    ),
                },
            },
        },
    }
}

/// The repaired frame: refused unless it is at least 32 bytes long and
/// starts `FF D8 FF E0`; otherwise its repaired segments and `FF D9`.
pub open spec fn repair_spec(data: Seq<u8>) -> Result<Seq<u8>, UVIError> {
    if data.len() < 32 || data.len() > MAX_FRAME {
        Err(UVIError::BadJpegError)
    } else if data[0] != 0xFF || data[1] != 0xD8 || data[2] != 0xFF || data[3] != 0xE0 {
        Err(UVIError::BadJpegError)
    } else {
        match base_models() {
            Err(e) => Err(e),
            Ok(ts) => match repair_from(data, 0, 0, Seq::empty(), ts) {
                Err(e) => Err(e),
                Ok(s) => Ok(s + seq![0xFFu8, 0xD9u8]),
            },
        }
    }
}

pub open spec fn tables_ok(tables: Seq<HuffmanTable>) -> bool {
    tables.len() == 32 && forall|i: int| 0 <= i < 32 ==> (#[trigger] tables[i])@.wf()
}

fn copy_range(src: &[u8], start: usize, end: usize) -> (r: Vec<u8>)
    requires
        start <= end <= src@.len(),
    ensures
        r@ == src@.subrange(start as int, end as int),
{
    let mut r: Vec<u8> = Vec::new();
    let mut i: usize = start;
    while i < end
        invariant
            start <= i <= end,
            end <= src@.len(),
            r@ == src@.subrange(start as int, i as int),
        decreases end - i,
    {
        r.push(src[i]);
        i = i + 1;
        assert(r@ =~= src@.subrange(start as int, i as int));
    }
    r
}

fn emit_range(res: &mut Vec<u8>, src: &[u8], start: usize, end: usize)
    requires
        start <= end <= src@.len(),
    ensures
        final(res)@ == old(res)@ + src@.subrange(start as int, end as int),
{
    let mut i: usize = start;
    while i < end
        invariant
            start <= i <= end,
            end <= src@.len(),
            res@ == old(res)@ + src@.subrange(start as int, i as int),
        decreases end - i,
    {
        res.push(src[i]);
        i = i + 1;
        assert(res@ =~= old(res)@ + src@.subrange(start as int, i as int));
    }
}

/// The tables of each block of one MCU.
fn mcu_blocks_of(comps: &Vec<JpegComponent>) -> (r: Vec<(u8, u8)>)
    ensures
        r@ == mcu_blocks(comps@),
{
    let mut r: Vec<(u8, u8)> = Vec::new();
    let mut i: usize = 0;
    while i < comps.len()
        invariant
            i <= comps@.len(),
            r@ == mcu_blocks(comps@.take(i as int)),
        decreases comps@.len() - i,
    {
        let c = comps[i];
        let ghost before = r@;
        let mut j: u8 = 0;
        while j < c.repeat
            invariant
                j <= c.repeat,
                r@ == before + Seq::new(j as nat, |m: int| (c.id_huffman_dc, c.id_huffman_ac)),
            decreases c.repeat - j,
        {
            r.push((c.id_huffman_dc, c.id_huffman_ac));
            j = j + 1;
            assert(r@ =~= before + Seq::new(j as nat, |m: int| (c.id_huffman_dc, c.id_huffman_ac)));
        }
        proof {
            assert(comps@.take(i as int + 1).drop_last() =~= comps@.take(i as int));
            assert(comps@.take(i as int + 1).last() == c);
        }
        i = i + 1;
    }
    assert(comps@.take(comps@.len() as int) =~= comps@);
    r
}

/// Walks `restart` MCUs over the entropy-coded bytes `seg` and tells
/// whether bytes are left over.
fn tail_check(tables: &Vec<HuffmanTable>, comps: &Vec<JpegComponent>, restart: u16, seg: &[u8]) -> (r: Result<bool, UVIError>)
    requires
        tables_ok(tables@),
        seg@.len() <= MAX_BIT_POSITION,
    ensures
        match tail_is_bogus(models(tables@), comps@, restart as nat, seg@) {
            Err(e) => r == Err::<bool, UVIError>(e),
            Ok(b) => r == Ok::<bool, UVIError>(b),
        },
{
    let ghost ms = models(tables@);
    let blocks = mcu_blocks_of(comps);
    let mut st = Stream::new(seg);
    let mut n: u16 = 0;
    while n < restart
        invariant
            tables_ok(tables@),
            ms == models(tables@),
            blocks@ == mcu_blocks(comps@),
            st.wf(),
            st.bytes() == seg@,
            n <= restart,
            mcus_spec(ms, blocks@, seg@, 0, restart as nat) == mcus_spec(
                ms,
                blocks@,
                seg@,
                st.bitpos(),
                (restart - n) as nat,
            ),
        decreases restart - n,
    {
        let ghost start = st.bitpos();
        let mut j: usize = 0;
        while j < blocks.len()
            invariant
                tables_ok(tables@),
                ms == models(tables@),
                st.wf(),
                st.bytes() == seg@,
                n < restart,
                blocks@ == mcu_blocks(comps@),
                mcus_spec(ms, blocks@, seg@, 0, restart as nat) == mcus_spec(
                    ms,
                    blocks@,
                    seg@,
                    start,
                    (restart - n) as nat,
                ),
                j <= blocks@.len(),
                blocks_spec(ms, blocks@, seg@, start, 0) == blocks_spec(
                    ms,
                    blocks@,
                    seg@,
                    st.bitpos(),
                    j as nat,
                ),
            decreases blocks@.len() - j,
        {
            let (dc, ac) = blocks[j];
            assert(ms[(dc % 16) as int] == tables@[(dc % 16) as int]@);
            assert(ms[16 + (ac % 16) as int] == tables@[16 + (ac % 16) as int]@);
            let ghost bp = st.bitpos();
            match build_matrix(tables, &mut st, dc, ac) {
                Ok(()) => {},
                Err(e) => {
                    proof {
                        assert(blocks_spec(ms, blocks@, seg@, bp, j as nat) == Err::<int, UVIError>(e));
                        assert(mcus_spec(ms, blocks@, seg@, start, (restart - n) as nat) == Err::<
                            int,
                            UVIError,
                        >(e));
                    }
                    return Err(e);
                },
            }
            j = j + 1;
        }
        proof {
            assert(blocks_spec(ms, blocks@, seg@, st.bitpos(), j as nat) == Ok::<int, UVIError>(
                st.bitpos(),
            ));
            assert(mcus_spec(ms, blocks@, seg@, start, (restart - n) as nat) == mcus_spec(
                ms,
                blocks@,
                seg@,
                st.bitpos(),
                (restart - n - 1) as nat,
            ));
        }
        n = n + 1;
    }
    Ok(st.get_extras() != 0)
}

/// The standard tables in their 32 slots.
fn base_tables() -> (r: Result<Vec<HuffmanTable>, UVIError>)
    ensures
        match base_models() {
            Err(e) => r == Err::<Vec<HuffmanTable>, UVIError>(e),
            Ok(ts) => r matches Ok(v) && tables_ok(v@) && models(v@) == ts,
        },
{
    let dcv = dc_values();
    let d0 = match HuffmanTable::new(dc0_bits().as_slice(), dcv.as_slice()) {
        Ok(t) => t,
        Err(e) => {
            return Err(e);
        },
    };
    let d1 = match HuffmanTable::new(dc1_bits().as_slice(), dcv.as_slice()) {
        Ok(t) => t,
        Err(e) => {
            return Err(e);
        },
    };
    let a0 = match HuffmanTable::new(ac0_bits().as_slice(), ac0_values().as_slice()) {
        Ok(t) => t,
        Err(e) => {
            return Err(e);
        },
    };
    let a1 = match HuffmanTable::new(ac1_bits().as_slice(), ac1_values().as_slice()) {
        Ok(t) => t,
        Err(e) => {
            return Err(e);
        },
    };
    let ghost ts = base_models().unwrap();
    let mut v: Vec<HuffmanTable> = Vec::new();
    let mut i: usize = 0;
    while i < 32
        invariant
            i <= 32,
            v@.len() == i,
            base_models() == Ok::<Seq<HuffModel>, UVIError>(ts),
            ts.len() == 32,
            d0@.wf() && d1@.wf() && a0@.wf() && a1@.wf(),
            forall|k: int| 0 <= k < i ==> (#[trigger] v@[k])@ == ts[k],
            forall|k: int| 0 <= k < 32 ==> (#[trigger] ts[k]).wf(),
            ts[0] == d0@ && ts[1] == d1@ && ts[16] == a0@ && ts[17] == a1@,
            forall|k: int| 0 <= k < 32 ==> #[trigger] ts[k] == ts[if k < 16 { k % 2 } else { 16 + k % 2 }],
        decreases 32 - i,
    {
        let t = if i < 16 {
            if i % 2 == 0 {
                d0.duplicate()
            } else {
                d1.duplicate()
            }
        } else {
            if i % 2 == 0 {
                a0.duplicate()
            } else {
                a1.duplicate()
            }
        };
        v.push(t);
        i = i + 1;
    }
    assert(models(v@) =~= ts);
    Ok(v)
}

/// Scans the segment whose `0xFF` is at `ps`.
fn scan_block(data: &[u8], ps: usize) -> (r: Option<(usize, Vec<u8>)>)
    requires
        ps + 1 < data@.len(),
        data@[ps + 1] != 0xFF,
    ensures
        match scan_segment(data@, ps + 1, seq![data@[ps as int]]) {
            None => r is None,
            Some((pi, blk)) => r matches Some((p, b)) && p == pi && b@ == blk && ps + 2 <= p && p
                + 2 <= data@.len() && 2 <= b@.len() <= p,
        },
{
    let datalen = data.len();
    let mut blk: Vec<u8> = Vec::new();
    blk.push(data[ps]);
    let mut pi: usize = ps + 1;
    loop
        invariant
            ps + 1 <= pi <= datalen,
            ps + 1 < datalen,
            pi == ps + 1 ==> blk@ == seq![data@[ps as int]],
            pi > ps + 1 ==> pi >= ps + 2 && blk@.len() >= 2,
            blk@.len() <= pi,
            blk@.len() >= 1,
            data@[ps + 1] != 0xFF,
            datalen == data@.len(),
            scan_segment(data@, ps + 1, seq![data@[ps as int]]) == scan_segment(
                data@,
                pi as int,
                blk@,
            ),
        ensures
            datalen == data@.len(),
            ps + 2 <= pi,
            pi + 2 <= datalen,
            2 <= blk@.len() <= pi,
            scan_segment(data@, ps + 1, seq![data@[ps as int]]) == Some((pi as int, blk@)),
        decreases datalen - pi,
    {
        if datalen - pi < 2 {
            return None;
        }
        let el = data[pi];
        if el != 0xFF {
            blk.push(el);
            pi = pi + 1;
        } else if data[pi + 1] == 0x00 {
            blk.push(0xFF);
            pi = pi + 2;
        } else {
            break;
        }
    }
    Some((pi, blk))
}

fn sof_components_of(blk: &Vec<u8>) -> (r: Result<Vec<JpegComponent>, UVIError>)
    requires
        blk@.len() >= 2,
    ensures
        match sof_step(blk@) {
            Err(e) => r == Err::<Vec<JpegComponent>, UVIError>(e),
            Ok(c) => r matches Ok(v) && v@ == c,
        },
{
    if blk.len() < 10 || blk.len() < 10 + 3 * (blk[9] as usize) {
        return Err(UVIError::BadJpegError);
    }
    let n = blk[9] as usize;
    let mut cs: Vec<JpegComponent> = Vec::new();
    let mut c: usize = 0;
    while c < n
        invariant
            c <= n,
            n == blk@[9],
            blk@.len() >= 10 + 3 * n,
            cs@ == sof_components(blk@, n as nat).take(c as int),
        decreases n - c,
    {
        let sampling = blk[11 + c * 3];
        let horiz = sampling >> 4;
        let vert = sampling & 0xF;
        assert(sampling >> 4 == sampling / 16) by (bit_vector);
        assert(sampling & 0xF == sampling % 16) by (bit_vector);
        assert(horiz * vert <= 225) by (nonlinear_arith)
            requires
                horiz <= 15,
                vert <= 15,
        ;
        cs.push(
            JpegComponent {
                id_component: blk[10 + c * 3],
                id_huffman_dc: 0,
                id_huffman_ac: 0,
                repeat: horiz * vert,
            },
        );
        c = c + 1;
        assert(cs@ =~= sof_components(blk@, n as nat).take(c as int));
    }
    assert(cs@ =~= sof_components(blk@, n as nat));
    Ok(cs)
}

fn install_table(blk: &Vec<u8>, tables: &mut Vec<HuffmanTable>) -> (r: Result<(), UVIError>)
    requires
        tables_ok(old(tables)@),
        blk@.len() >= 6,
    ensures
        tables_ok(final(tables)@),
        match dht_step(blk@, models(old(tables)@)) {
            Err(e) => r == Err::<(), UVIError>(e),
            Ok(t) => r is Ok && models(final(tables)@) == t,
        },
{
    if blk.len() < 30 {
        return Err(UVIError::BadJpegError);
    }
    let ghost ms = models(tables@);
    let bits = copy_range(blk.as_slice(), 5, 21);
    let values = copy_range(blk.as_slice(), 21, blk.len());
    assert(values@ =~= blk@.skip(21));
    let t = match HuffmanTable::new(bits.as_slice(), values.as_slice()) {
        Ok(t) => t,
        Err(e) => {
            return Err(e);
        },
    };
    let class_id = blk[4];
    let idx: usize = (class_id & 0x1F) as usize;
    assert(class_id & 0x1F == class_id % 32) by (bit_vector);
    tables.set(idx, t);
    assert(models(tables@) =~= ms.update(idx as int, t@));
    Ok(())
}

fn assign_scan_tables(blk: &Vec<u8>, comps: &mut Vec<JpegComponent>)
    requires
        blk@.len() >= 5,
        blk@.len() >= 5 + 2 * blk@[4],
    ensures
        final(comps)@ == sos_assign(old(comps)@, blk@, blk@[4] as nat),
{
    let ncomp = blk[4] as usize;
    let mut i: usize = 0;
    while i < ncomp
        invariant
            i <= ncomp,
            ncomp == blk@[4],
            blk@.len() >= 5 + 2 * ncomp,
            comps@ == sos_assign(old(comps)@, blk@, i as nat),
        decreases ncomp - i,
    {
        let id = blk[5 + i * 2];
        let ids = blk[6 + i * 2];
        let ghost before = comps@;
        let mut k: usize = 0;
        while k < comps.len()
            invariant
                k <= comps@.len(),
                comps@.len() == before.len(),
                forall|q: int|
                    0 <= q < before.len() ==> #[trigger] comps@[q] == if q < k {
                        assign_tables(before, id, ids)[q]
                    } else {
                        before[q]
                    },
            decreases comps@.len() - k,
        {
            let c = comps[k];
            if c.id_component == id {
                assert(ids >> 4 == ids / 16) by (bit_vector);
                assert(ids & 0xF == ids % 16) by (bit_vector);
                comps.set(
                    k,
                    JpegComponent {
                        id_component: c.id_component,
                        id_huffman_dc: ids >> 4,
                        id_huffman_ac: ids & 0xF,
                        repeat: c.repeat,
                    },
                );
            }
            k = k + 1;
        }
        assert(comps@ =~= assign_tables(before, id, ids));
        i = i + 1;
    }
}

/// Emits an entropy-coded segment `data[ps..pi]`, less its last two bytes
/// when the walk from `start` in `blk` finds them bogus.
fn emit_ecs(
    data: &[u8],
    ps: usize,
    pi: usize,
    blk: &Vec<u8>,
    start: usize,
    restart: u16,
    comps: &Vec<JpegComponent>,
    tables: &Vec<HuffmanTable>,
    res: &mut Vec<u8>,
) -> (r: Result<(), UVIError>)
    requires
        ps + 2 <= pi <= data@.len(),
        start <= blk@.len() <= data@.len(),
        data@.len() <= MAX_FRAME,
        tables_ok(tables@),
    ensures
        match ecs_emit(data@, ps as int, pi as int, blk@, start as int, restart, comps@, models(tables@)) {
            Err(e) => r == Err::<(), UVIError>(e),
            Ok(em) => r is Ok && final(res)@ == old(res)@ + em,
        },
{
    let seg = copy_range(blk.as_slice(), start, blk.len());
    assert(seg@ =~= blk@.skip(start as int));
    let bogus = match tail_check(tables, comps, restart, seg.as_slice()) {
        Ok(b) => b,
        Err(e) => {
            return Err(e);
        },
    };
    let end = if bogus {
        pi - 2
    } else {
        pi
    };
    emit_range(res, data, ps, end);
    Ok(())
}

/// Copies one segment starting at the `0xFF` at `ps` to `res`, updating
/// the decoder state; returns where the next segment starts.
fn repair_segment(
    data: &[u8],
    ps: usize,
    restart: &mut u16,
    comps: &mut Vec<JpegComponent>,
    tables: &mut Vec<HuffmanTable>,
    res: &mut Vec<u8>,
) -> (r: Result<usize, UVIError>)
    requires
        ps + 1 < data@.len(),
        data@[ps + 1] != 0xFF,
        data@.len() <= MAX_FRAME,
        tables_ok(old(tables)@),
    ensures
        tables_ok(final(tables)@),
        match segment_spec(data@, ps as int, *old(restart), old(comps)@, models(old(tables)@)) {
            Err(e) => r == Err::<usize, UVIError>(e),
            Ok(o) => r matches Ok(n) && n == o.next && o.next > ps && o.next + 2 <= data@.len()
                && *final(restart) == o.restart && final(comps)@ == o.comps && models(
                final(tables)@,
            ) == o.tables && final(res)@ == old(res)@ + o.emit,
        },
{
    reveal(segment_spec);
    let (pi, blk) = match scan_block(data, ps) {
        Some(x) => x,
        None => {
            return Err(UVIError::BadJpegError);
        },
    };
    let m = blk[1];
    if m == 0xC0 {
        match sof_components_of(&blk) {
            Ok(cs) => {
                *comps = cs;
            },
            Err(e) => {
                return Err(e);
            },
        }
        emit_range(res, data, ps, pi);
    } else if m == 0xC4 {
        if blk.len() < 6 {
            return Err(UVIError::BadJpegError);
        }
        match install_table(&blk, tables) {
            Ok(()) => {},
            Err(e) => {
                return Err(e);
            },
        }
    } else if m == 0xDD {
        if blk.len() >= 6 {
            *restart = blk[4] as u16 * 256 + blk[5] as u16;
        }
        emit_range(res, data, ps, pi);
    } else if m == 0xDA {
        if blk.len() < 5 || blk.len() < 5 + 2 * (blk[4] as usize) {
            return Err(UVIError::BadJpegError);
        }
        assign_scan_tables(&blk, comps);
        let prev = blk[2] as usize * 256 + blk[3] as usize;
        let last = blk[blk.len() - 1];
        if *restart > 0 && last == 0xFF {
            if 2 + prev > blk.len() {
                return Err(UVIError::BadJpegError);
            }
            match emit_ecs(data, ps, pi, &blk, 2 + prev, *restart, comps, tables, res) {
                Ok(()) => {},
                Err(e) => {
                    return Err(e);
                },
            }
        } else {
            emit_range(res, data, ps, pi);
        }
    } else if 0xD0 <= m && m <= 0xD7 {
        let last = blk[blk.len() - 1];
        if *restart > 0 && last == 0xFF {
            match emit_ecs(data, ps, pi, &blk, 2, *restart, comps, tables, res) {
                Ok(()) => {},
                Err(e) => {
                    return Err(e);
                },
            }
        } else {
            emit_range(res, data, ps, pi);
        }
    } else {
        emit_range(res, data, ps, pi);
    }
    Ok(pi)
}

/// Prefixes the bytes of a successful result.
pub open spec fn prefixed(pre: Seq<u8>, r: Result<Seq<u8>, UVIError>) -> Result<Seq<u8>, UVIError> {
    match r {
        Err(e) => Err(e),
        Ok(s) => Ok(pre + s),
    }
}

proof fn lemma_prefixed_assoc(a: Seq<u8>, b: Seq<u8>, r: Result<Seq<u8>, UVIError>)
    ensures
        prefixed(a, prefixed(b, r)) == prefixed(a + b, r),
{
    match r {
        Ok(s) => {
            assert(a + (b + s) =~= (a + b) + s);
        },
        Err(_) => {},
    }
}

proof fn lemma_repair_step(
    data: Seq<u8>,
    pi: int,
    restart: u16,
    comps: Seq<JpegComponent>,
    tables: Seq<HuffModel>,
)
    requires
        0 <= pi,
        pi + 1 < data.len(),
        data[pi + 1] != 0xD9,
        data[pi + 1] != 0xFF,
        segment_spec(data, pi, restart, comps, tables) is Ok,
        segment_spec(data, pi, restart, comps, tables).unwrap().next > pi,
        segment_spec(data, pi, restart, comps, tables).unwrap().next + 2 <= data.len(),
    ensures
        ({
            let o = segment_spec(data, pi, restart, comps, tables).unwrap();
            repair_from(data, pi, restart, comps, tables) == prefixed(
                o.emit,
                repair_from(data, o.next, o.restart, o.comps, o.tables),
            )
        }),
{
    reveal(repair_from);
}

/// The cases of one step of the repair that end it or skip a fill byte.
proof fn lemma_repair_cases(
    data: Seq<u8>,
    pi: int,
    restart: u16,
    comps: Seq<JpegComponent>,
    tables: Seq<HuffModel>,
)
    requires
        0 <= pi,
    ensures
        pi + 1 >= data.len() ==> repair_from(data, pi, restart, comps, tables) == Err::<
            Seq<u8>,
            UVIError,
        >(UVIError::BadJpegError),
        pi + 1 < data.len() && data[pi + 1] == 0xD9 ==> repair_from(data, pi, restart, comps, tables)
            == Ok::<Seq<u8>, UVIError>(Seq::empty()),
        pi + 1 < data.len() && data[pi + 1] == 0xFF ==> repair_from(data, pi, restart, comps, tables)
            == repair_from(data, pi + 1, restart, comps, tables),
        pi + 1 < data.len() && data[pi + 1] != 0xFF && data[pi + 1] != 0xD9 && segment_spec(
            data,
            pi,
            restart,
            comps,
            tables,
        ) is Err ==> repair_from(data, pi, restart, comps, tables) == Err::<Seq<u8>, UVIError>(
            segment_spec(data, pi, restart, comps, tables)->Err_0,
        ),
{
    reveal(repair_from);
}

proof fn lemma_scan_advances(data: Seq<u8>, i: int, blk: Seq<u8>)
    ensures
        scan_segment(data, i, blk) matches Some((e, b)) ==> e >= i && e + 2 <= data.len()
            && b.len() >= blk.len() && b.take(blk.len() as int) == blk,
    decreases data.len() - i,
{
    if !(i < 0 || i + 2 > data.len()) {
        if data[i] != 0xFF {
            lemma_scan_advances(data, i + 1, blk.push(data[i]));
            if let Some((e, b)) = scan_segment(data, i, blk) {
                assert(b.take(blk.len() as int) =~= b.take(blk.len() as int + 1).take(blk.len() as int));
            }
        } else if data[i + 1] == 0 {
            lemma_scan_advances(data, i + 2, blk.push(0xFF));
            if let Some((e, b)) = scan_segment(data, i, blk) {
                assert(b.take(blk.len() as int) =~= b.take(blk.len() as int + 1).take(blk.len() as int));
            }
        }
    }
}

/// A segment whose marker byte at `ps + 1` is no table, frame, scan or
/// restart marker is emitted whole, and it reaches at least two bytes on.
proof fn lemma_plain_segment(
    data: Seq<u8>,
    ps: int,
    restart: u16,
    comps: Seq<JpegComponent>,
    tables: Seq<HuffModel>,
)
    requires
        0 <= ps,
        ps + 2 < data.len(),
        data[ps + 1] != 0xFF,
        data[ps + 1] != 0xC0 && data[ps + 1] != 0xC4 && data[ps + 1] != 0xDD && data[ps + 1]
            != 0xDA && !(0xD0 <= data[ps + 1] <= 0xD7),
        segment_spec(data, ps, restart, comps, tables) is Ok,
    ensures
        ({
            let o = segment_spec(data, ps, restart, comps, tables).unwrap();
            &&& o.next >= ps + 2
            &&& o.next + 2 <= data.len()
            &&& o.emit == data.subrange(ps, o.next)
            &&& o.restart == restart && o.comps == comps && o.tables == tables
        }),
{
    reveal(segment_spec);
    let b0 = seq![data[ps]];
    assert(b0.push(data[ps + 1]) =~= seq![data[ps], data[ps + 1]]);
    assert(scan_segment(data, ps + 1, b0) == scan_segment(data, ps + 2, seq![data[ps], data[ps + 1]]));
    lemma_scan_advances(data, ps + 2, seq![data[ps], data[ps + 1]]);
    let (pi, blk) = scan_segment(data, ps + 1, b0).unwrap();
    assert(blk[1] == blk.take(2)[1]);
}

/// A repaired frame begins with the start-of-image marker and the JFIF
/// application marker, `FF D8 FF E0`, and ends with the end-of-image
/// marker `FF D9`.
pub proof fn lemma_repair_well_formed(data: Seq<u8>)
    ensures
        repair_spec(data) matches Ok(s) ==> {
            &&& s.len() >= 6
            &&& s[0] == 0xFF && s[1] == 0xD8 && s[2] == 0xFF && s[3] == 0xE0
            &&& s[s.len() - 2] == 0xFF && s[s.len() - 1] == 0xD9
        },
{
    if let Ok(s) = repair_spec(data) {
        assert(data.len() >= 32);
        assert(data[0] == 0xFF && data[1] == 0xD8 && data[2] == 0xFF && data[3] == 0xE0);
        let ts = base_models().unwrap();
        let empty = Seq::<JpegComponent>::empty();
        let body = repair_from(data, 0, 0, empty, ts).unwrap();
        assert(s == body + seq![0xFFu8, 0xD9u8]);
        lemma_repair_cases(data, 0, 0, empty, ts);
        assert(segment_spec(data, 0, 0, empty, ts) is Ok);
        lemma_plain_segment(data, 0, 0, empty, ts);
        let o0 = segment_spec(data, 0, 0, empty, ts).unwrap();
        lemma_repair_step(data, 0, 0, empty, ts);
        let r1 = repair_from(data, o0.next, 0, empty, ts);
        assert(body == o0.emit + r1.unwrap());
        // The start-of-image segment ends where `FF E0` begins.
        assert(o0.next == 2) by {
            reveal(segment_spec);
            assert(seq![data[0]].push(data[1]) =~= seq![data[0], data[1]]);
            assert(scan_segment(data, 2, seq![data[0], data[1]]) == Some(
                (2int, seq![data[0], data[1]]),
            ));
        }
        lemma_repair_cases(data, 2, 0, empty, ts);
        assert(segment_spec(data, 2, 0, empty, ts) is Ok);
        lemma_plain_segment(data, 2, 0, empty, ts);
        lemma_repair_step(data, 2, 0, empty, ts);
        let o1 = segment_spec(data, 2, 0, empty, ts).unwrap();
        let rest = repair_from(data, o1.next, o1.restart, o1.comps, o1.tables).unwrap();
        assert(r1.unwrap() == o1.emit + rest);
        assert(s[0] == data[0] && s[1] == data[1] && s[2] == data[2] && s[3] == data[3]);
    }
}

/// Every `0xFF` of `b` is followed, within `b`, by `0x00`.
pub open spec fn stuffed(b: Seq<u8>) -> bool {
    forall|j: int| 0 <= j < b.len() && #[trigger] b[j] == 0xFF ==> j + 1 < b.len() && b[j + 1] == 0x00
}

/// An emitted segment: `0xFF`, a marker byte other than `0xFF`, and a body
/// in which every `0xFF` is stuffed.
pub open spec fn piece_ok(e: Seq<u8>) -> bool {
    e.len() >= 2 && e[0] == 0xFF && e[1] != 0xFF && stuffed(e.skip(2))
}

proof fn lemma_scan_body(data: Seq<u8>, i: int, blk: Seq<u8>)
    requires
        0 <= i,
    ensures
        scan_segment(data, i, blk) matches Some((e, b)) ==> {
            &&& i <= e
            &&& e + 2 <= data.len()
            &&& stuffed(data.subrange(i, e))
            &&& (b.len() > blk.len() && b.last() == 0xFF) ==> (i <= e - 2 && data[e - 2] == 0xFF
                && data[e - 1] == 0x00)
            &&& b.len() == blk.len() ==> e == i
            &&& b.len() >= blk.len()
        },
    decreases data.len() - i,
{
    if !(i < 0 || i + 2 > data.len()) {
        if data[i] != 0xFF {
            lemma_scan_body(data, i + 1, blk.push(data[i]));
            if let Some((e, b)) = scan_segment(data, i, blk) {
                let t = data.subrange(i, e);
                assert(data.subrange(i + 1, e) =~= t.skip(1));
                assert forall|j: int| 0 <= j < t.len() && #[trigger] t[j] == 0xFF implies j + 1 < t.len()
                    && t[j + 1] == 0x00 by {
                    assert(t[0] == data[i]);
                    assert(j > 0);
                    assert(t.skip(1)[j - 1] == t[j]);
                    assert(t.skip(1)[j] == t[j + 1]);
                }
                lemma_scan_advances(data, i + 1, blk.push(data[i]));
                if b.len() == blk.len() + 1 {
                    assert(b =~= b.take(blk.len() as int + 1));
                    assert(b.last() == data[i]);
                }
            }
        } else if data[i + 1] == 0 {
            lemma_scan_body(data, i + 2, blk.push(0xFF));
            if let Some((e, b)) = scan_segment(data, i, blk) {
                let t = data.subrange(i, e);
                assert(data.subrange(i + 2, e) =~= t.skip(2));
                assert forall|j: int| 0 <= j < t.len() && #[trigger] t[j] == 0xFF implies j + 1 < t.len()
                    && t[j + 1] == 0x00 by {
                    if j >= 2 {
                        assert(t.skip(2)[j - 2] == t[j]);
                        assert(t.skip(2)[j - 1] == t[j + 1]);
                    }
                }
                if b.len() == blk.len() + 1 {
                    assert(e == i + 2);
                }
            }
        } else {
            assert(data.subrange(i, i) =~= Seq::<u8>::empty());
        }
    }
}

proof fn lemma_stuffed_cut(x: Seq<u8>, a: int, e: int)
    requires
        0 <= a <= e - 2,
        e <= x.len(),
        stuffed(x.subrange(a, e)),
        x[e - 2] == 0xFF,
    ensures
        stuffed(x.subrange(a, e - 2)),
{
    let t = x.subrange(a, e);
    let u = x.subrange(a, e - 2);
    assert forall|j: int| 0 <= j < u.len() && #[trigger] u[j] == 0xFF implies j + 1 < u.len() && u[j + 1]
        == 0x00 by {
        assert(t[j] == u[j]);
        if j + 1 == u.len() {
            assert(t[j + 1] == x[e - 2]);
        } else {
            assert(t[j + 1] == u[j + 1]);
        }
    }
}

/// What a segment emits is nothing or one well-formed segment.
proof fn lemma_segment_piece(
    data: Seq<u8>,
    ps: int,
    restart: u16,
    comps: Seq<JpegComponent>,
    tables: Seq<HuffModel>,
)
    requires
        0 <= ps,
        ps + 1 < data.len(),
        data[ps] == 0xFF,
        data[ps + 1] != 0xFF,
        segment_spec(data, ps, restart, comps, tables) is Ok,
    ensures
        ({
            let o = segment_spec(data, ps, restart, comps, tables).unwrap();
            o.emit.len() == 0 || piece_ok(o.emit)
        }),
{
    reveal(segment_spec);
    let b0 = seq![data[ps]];
    let b1 = seq![data[ps], data[ps + 1]];
    assert(b0.push(data[ps + 1]) =~= b1);
    assert(scan_segment(data, ps + 1, b0) == scan_segment(data, ps + 2, b1));
    lemma_scan_body(data, ps + 2, b1);
    let (e, blk) = scan_segment(data, ps + 1, b0).unwrap();
    let o = segment_spec(data, ps, restart, comps, tables).unwrap();
    let whole = data.subrange(ps, e);
    assert(whole.skip(2) =~= data.subrange(ps + 2, e));
    if blk.len() > b1.len() && blk.last() == 0xFF {
        lemma_stuffed_cut(data, ps + 2, e);
        assert(data.subrange(ps, e - 2).skip(2) =~= data.subrange(ps + 2, e - 2));
    }
    lemma_scan_advances(data, ps + 2, b1);
    if blk.len() == b1.len() {
        assert(blk =~= blk.take(2));
        assert(blk.last() == data[ps + 1]);
    }
}

proof fn lemma_flatten_cons(e: Seq<u8>, ps: Seq<Seq<u8>>)
    ensures
        (seq![e] + ps).flatten() == e + ps.flatten(),
{
    let q = seq![e] + ps;
    assert(q.first() == e);
    assert(q.drop_first() =~= ps);
}

/// The repaired bytes from the segment at `pi` on are a run of well-formed
/// segments.
proof fn lemma_repair_pieces(
    data: Seq<u8>,
    pi: int,
    restart: u16,
    comps: Seq<JpegComponent>,
    tables: Seq<HuffModel>,
)
    requires
        0 <= pi < data.len(),
        data[pi] == 0xFF,
        repair_from(data, pi, restart, comps, tables) is Ok,
    ensures
        exists|pieces: Seq<Seq<u8>>|
            (forall|k: int| 0 <= k < pieces.len() ==> piece_ok(#[trigger] pieces[k]))
                && pieces.flatten() == repair_from(data, pi, restart, comps, tables).unwrap(),
    decreases data.len() - pi,
{
    let r = repair_from(data, pi, restart, comps, tables).unwrap();
    lemma_repair_cases(data, pi, restart, comps, tables);
    if data[pi + 1] == 0xD9 {
        let pieces = Seq::<Seq<u8>>::empty();
        assert(pieces.flatten() == r);
    } else if data[pi + 1] == 0xFF {
        lemma_repair_pieces(data, pi + 1, restart, comps, tables);
    } else {
        let o = segment_spec(data, pi, restart, comps, tables).unwrap();
        lemma_segment_piece(data, pi, restart, comps, tables);
        reveal(repair_from);
        assert(o.next > pi && o.next < data.len());
        lemma_scan_advances_marker(data, pi, restart, comps, tables);
        lemma_repair_pieces(data, o.next, o.restart, o.comps, o.tables);
        let rest = repair_from(data, o.next, o.restart, o.comps, o.tables).unwrap();
        assert(r == o.emit + rest);
        let ps = choose|pieces: Seq<Seq<u8>>|
            (forall|k: int| 0 <= k < pieces.len() ==> piece_ok(#[trigger] pieces[k]))
                && pieces.flatten() == rest;
        if o.emit.len() == 0 {
            assert(o.emit + rest =~= rest);
        } else {
            lemma_flatten_cons(o.emit, ps);
            let qs = seq![o.emit] + ps;
            assert forall|k: int| 0 <= k < qs.len() implies piece_ok(#[trigger] qs[k]) by {
                if k > 0 {
                    assert(qs[k] == ps[k - 1]);
                }
            }
            assert(qs.flatten() == r);
        }
    }
}

/// The next segment of a segment starts with `0xFF`.
proof fn lemma_scan_advances_marker(
    data: Seq<u8>,
    pi: int,
    restart: u16,
    comps: Seq<JpegComponent>,
    tables: Seq<HuffModel>,
)
    requires
        0 <= pi,
        pi + 1 < data.len(),
        data[pi + 1] != 0xFF,
        segment_spec(data, pi, restart, comps, tables) is Ok,
    ensures
        data[segment_spec(data, pi, restart, comps, tables).unwrap().next] == 0xFF,
{
    reveal(segment_spec);
    scan_ends_at_marker(data, pi + 1, seq![data[pi]]);
}

proof fn scan_ends_at_marker(data: Seq<u8>, i: int, blk: Seq<u8>)
    ensures
        scan_segment(data, i, blk) matches Some((e, b)) ==> 0 <= e < data.len() && data[e]
            == 0xFF,
    decreases data.len() - i,
{
    if !(i < 0 || i + 2 > data.len()) {
        if data[i] != 0xFF {
            scan_ends_at_marker(data, i + 1, blk.push(data[i]));
        } else if data[i + 1] == 0 {
            scan_ends_at_marker(data, i + 2, blk.push(0xFF));
        }
    }
}

/// A repaired frame is a run of segments, each `0xFF`, a marker byte and a
/// body in which every `0xFF` is followed by `0x00`, then `FF D9`.
pub proof fn lemma_repair_stuffing(data: Seq<u8>)
    ensures
        repair_spec(data) matches Ok(s) ==> exists|pieces: Seq<Seq<u8>>|
            (forall|k: int| 0 <= k < pieces.len() ==> piece_ok(#[trigger] pieces[k]))
                && s == pieces.flatten() + seq![0xFFu8, 0xD9u8],
{
    if let Ok(s) = repair_spec(data) {
        let ts = base_models().unwrap();
        lemma_repair_pieces(data, 0, 0, Seq::empty(), ts);
    }
}

/// A frame that holds no Huffman table, restart interval or fill byte, and
/// whose only end-of-image marker is its last two bytes: every `0xFF` is
/// followed by a byte other than `C4`, `DD` and `FF`, and by `D9` only at the
/// end.
pub open spec fn plain_frame(data: Seq<u8>) -> bool {
    &&& data.len() >= 2
    &&& data[data.len() - 2] == 0xFF && data[data.len() - 1] == 0xD9
    &&& forall|j: int|
        0 <= j < data.len() - 1 && #[trigger] data[j] == 0xFF ==> data[j + 1] != 0xC4 && data[j
            + 1] != 0xDD && data[j + 1] != 0xFF && (data[j + 1] == 0xD9 ==> j == data.len() - 2)
}

/// Without a restart interval, each segment of a plain frame is emitted
/// whole and the repaired bytes are the frame up to its end marker.
proof fn lemma_plain_copies(
    data: Seq<u8>,
    pi: int,
    comps: Seq<JpegComponent>,
    tables: Seq<HuffModel>,
)
    requires
        plain_frame(data),
        0 <= pi < data.len(),
        data[pi] == 0xFF,
        repair_from(data, pi, 0, comps, tables) is Ok,
    ensures
        pi <= data.len() - 2,
        repair_from(data, pi, 0, comps, tables).unwrap() == data.subrange(pi, data.len() - 2),
    decreases data.len() - pi,
{
    lemma_repair_cases(data, pi, 0, comps, tables);
    if data[pi + 1] == 0xD9 {
        assert(data.subrange(pi, data.len() - 2) =~= Seq::<u8>::empty());
    } else {
        let o = segment_spec(data, pi, 0, comps, tables).unwrap();
        assert(o.emit == data.subrange(pi, o.next) && o.restart == 0 && o.next > pi && o.next + 2
            <= data.len()) by {
            reveal(segment_spec);
            let b0 = seq![data[pi]];
            let b1 = seq![data[pi], data[pi + 1]];
            assert(b0.push(data[pi + 1]) =~= b1);
            assert(scan_segment(data, pi + 1, b0) == scan_segment(data, pi + 2, b1));
            lemma_scan_advances(data, pi + 2, b1);
            let (e, blk) = scan_segment(data, pi + 1, b0).unwrap();
            assert(blk[1] == blk.take(2)[1]);
        }
        lemma_scan_advances_marker(data, pi, 0, comps, tables);
        lemma_repair_step(data, pi, 0, comps, tables);
        lemma_plain_copies(data, o.next, o.comps, o.tables);
        assert(data.subrange(pi, o.next) + data.subrange(o.next, data.len() - 2) =~= data.subrange(
            pi,
            data.len() - 2,
        ));
    }
}

/// Repair leaves a plain frame as it is, so repairing twice is repairing
/// once.
pub proof fn lemma_repair_idempotent_plain(data: Seq<u8>)
    requires
        plain_frame(data),
    ensures
        repair_spec(data) matches Ok(r) ==> r == data && repair_spec(r) == Ok::<
            Seq<u8>,
            UVIError,
        >(r),
{
    if let Ok(r) = repair_spec(data) {
        let ts = base_models().unwrap();
        lemma_plain_copies(data, 0, Seq::empty(), ts);
        assert(data.subrange(0, data.len() - 2) + seq![0xFFu8, 0xD9u8] =~= data);
    }
}

/// Repairs one motion JPEG frame.
pub fn get_good_jpeg(data: &[u8]) -> (r: Result<Vec<u8>, UVIError>)
    ensures
        match repair_spec(data@) {
            Err(e) => r == Err::<Vec<u8>, UVIError>(e),
            Ok(s) => r matches Ok(v) && v@ == s,
        },
{
    let datalen = data.len();
    if datalen < 32 || datalen as u64 > MAX_FRAME {
        return Err(UVIError::BadJpegError);
    }
    if data[0] != 0xFF || data[1] != 0xD8 || data[2] != 0xFF || data[3] != 0xE0 {
        return Err(UVIError::BadJpegError);
    }
    let mut tables = match base_tables() {
        Ok(t) => t,
        Err(e) => {
            return Err(e);
        },
    };
    let ghost ts = models(tables@);
    let mut restart: u16 = 0;
    let mut components: Vec<JpegComponent> = Vec::new();
    let mut res: Vec<u8> = Vec::new();
    let mut pi: usize = 0;
    loop
        invariant
            datalen == data@.len(),
            32 <= datalen <= MAX_FRAME,
            pi <= datalen,
            data@[0] == 0xFF && data@[1] == 0xD8 && data@[2] == 0xFF && data@[3] == 0xE0,
            base_models() == Ok::<Seq<HuffModel>, UVIError>(ts),
            tables_ok(tables@),
            repair_from(data@, 0, 0, Seq::empty(), ts) == prefixed(
                res@,
                repair_from(data@, pi as int, restart, components@, models(tables@)),
            ),
        ensures
            repair_from(data@, 0, 0, Seq::empty(), ts) == Ok::<Seq<u8>, UVIError>(res@),
        decreases datalen - pi,
    {
        proof {
            lemma_repair_cases(data@, pi as int, restart, components@, models(tables@));
        }
        if datalen - pi < 2 {
            return Err(UVIError::BadJpegError);
        }
        if data[pi + 1] == 0xD9 {
            assert(res@ + Seq::<u8>::empty() =~= res@);
            break;
        }
        if data[pi + 1] == 0xFF {
            pi = pi + 1;
        } else {
            let ghost r0 = res@;
            let ghost pi0 = pi as int;
            let ghost st0 = (restart, components@, models(tables@));
            match repair_segment(data, pi, &mut restart, &mut components, &mut tables, &mut res) {
                Ok(next) => {
                    proof {
                        let o = segment_spec(data@, pi0, st0.0, st0.1, st0.2).unwrap();
                        lemma_repair_step(data@, pi0, st0.0, st0.1, st0.2);
                        lemma_prefixed_assoc(
                            r0,
                            o.emit,
                            repair_from(data@, o.next, o.restart, o.comps, o.tables),
                        );
                    }
                    pi = next;
                },
                Err(e) => {
                    return Err(e);
                },
            }
        }
    }
    res.push(0xFF);
    res.push(0xD9);
    Ok(res)
}

} // verus!
