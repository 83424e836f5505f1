//! Blocks of 256 five-bit numbers (GGML type 13).
//!
//! A block has 176 bytes: the block scale and the block minimum as
//! half-precision numbers, 12 bytes with eight scales and eight minima, 32
//! bytes with the high bit of each number, and 128 bytes with the four low
//! bits.  A number is the block scale times its scale times its code, less the
//! block minimum times its minimum; the arithmetic is left to the caller, and
//! the unpacked scales and minima are handed in.
use vstd::prelude::*;

use crate::error::{Fault, ModelError};
use crate::quant::q3_k::{bit_found, eight_bits, pow2_small, shift_bits};
use crate::text::{concat, decimal, decimal_string};

verus! {

pub const Q5_K_BLOCK_BYTES: usize = 176;

pub const Q5_K_BLOCK_ELEMS: usize = 256;

/// The eight scales and eight minima of one block.
pub struct Q5Scales {
    pub scales: Vec<u8>,
    pub mins: Vec<u8>,
}

impl Q5Scales {
    /// There are eight of each.
    pub open spec fn wf(&self) -> bool {
        self.scales@.len() == 8 && self.mins@.len() == 8
    }
}

/// One number of a block: block scale, scale, code, block minimum, minimum.
#[derive(Debug, Clone, Copy, PartialEq, Eq, Structural)]
pub struct Q5Code {
    pub d_bits: u16,
    pub dmin_bits: u16,
    pub scale: u8,
    pub min: u8,
    pub code: u8,
}

/// The code of number `e` of a block: four low bits, and 16 more where the
/// high bit is set.  Of each 64 numbers the first 32 have the low halves of
/// their bytes, the others the high halves.
pub open spec fn q5_code(block: Seq<u8>, e: int) -> int {
    let group = e / 64;
    let upper = (e % 64) / 32;
    let lane = e % 32;
    let byte = block[48 + 32 * group + lane] as int;
    let low = if upper == 0 {
        byte % 16
    } else {
        byte / 16
    };
    let high_set = (block[16 + lane] as int / pow2_small(2 * group + upper)) % 2 == 1;
    if high_set {
        low + 16
    } else {
        low
    }
}

/// Number `e` of a block with the given scales.
pub open spec fn q5_element(block: Seq<u8>, s: Q5Scales, e: int) -> Q5Code {
    Q5Code {
        d_bits: (block[0] + 256 * block[1]) as u16,
        dmin_bits: (block[2] + 256 * block[3]) as u16,
        scale: s.scales@[e / 32],
        min: s.mins@[e / 32],
        code: q5_code(block, e) as u8,
    }
}

/// Number `e` of a row of blocks.
pub open spec fn q5_at(data: Seq<u8>, scales: Seq<Q5Scales>, e: int) -> Q5Code {
    let b = e / 256;
    q5_element(data.subrange(176 * b, 176 * b + 176), scales[b], e % 256)
}

/// What is said of a row of blocks that has not the length it should have.
pub open spec fn q5_fault(data_len: nat, n_elements: nat) -> Fault {
    Fault::Parse("Q5_K: "@ + decimal(data_len) + " bytes for "@ + decimal(n_elements) + " elements"@)
}

/// Whole blocks are there.
pub open spec fn q5_sized(data_len: nat, n_elements: nat) -> bool {
    n_elements % 256 == 0 && data_len >= 176 * (n_elements / 256)
}

/// The block into which a block scale, a block minimum, twelve bytes of scales
/// and 256 five-bit codes are packed.
pub open spec fn packed_block(d: u16, dmin: u16, sc: Seq<u8>, codes: Seq<int>) -> Seq<u8> {
    Seq::new(
        176,
        |i: int|
            if i == 0 {
                (d % 256) as u8
            } else if i == 1 {
                (d / 256) as u8
            } else if i == 2 {
                (dmin % 256) as u8
            } else if i == 3 {
                (dmin / 256) as u8
            } else if i < 16 {
                sc[i - 4]
            } else if i < 48 {
                eight_bits(Seq::new(8, |k: int| codes[32 * k + (i - 16)] / 16))
            } else {
                let first = 64 * ((i - 48) / 32) + (i - 48) % 32;
                (codes[first] % 16 + 16 * (codes[first + 32] % 16)) as u8
            },
    )
}

/// Each of two numbers below sixteen is found again in their byte.
proof fn halves_found(a: int, b: int)
    requires
        0 <= a < 16,
        0 <= b < 16,
    ensures
        (a + 16 * b) as u8 as int % 16 == a,
        (a + 16 * b) as u8 as int / 16 == b,
{
    let s = a + 16 * b;
    assert(s as u8 as int == s);
    assert(s % 16 == a && s / 16 == b);
}

/// A number in two bytes, the lower one first.
proof fn two_bytes(v: u16)
    ensures
        (v % 256) as u8 as int + 256 * ((v / 256) as u8 as int) == v as int,
{
}

/// Decoding undoes packing: number `e` of a packed block has the block scale,
/// the block minimum, its own code, and the scale and the minimum of its own
/// run of 32 numbers.
pub proof fn block_unpacked(
    d: u16,
    dmin: u16,
    sc: Seq<u8>,
    codes: Seq<int>,
    s: Q5Scales,
    e: int,
)
    requires
        codes.len() == 256,
        forall|k: int| 0 <= k < 256 ==> 0 <= #[trigger] codes[k] < 32,
        0 <= e < 256,
    ensures
        ({
            let x = q5_element(packed_block(d, dmin, sc, codes), s, e);
            &&& x.d_bits == d
            &&& x.dmin_bits == dmin
            &&& x.scale == s.scales@[e / 32]
            &&& x.min == s.mins@[e / 32]
            &&& x.code == codes[e]
        }),
{
    let block = packed_block(d, dmin, sc, codes);
    assert(0 <= codes[e] < 32);
    let group = e / 64;
    let upper = (e % 64) / 32;
    let lane = e % 32;
    let bits = Seq::new(8, |k: int| codes[32 * k + lane] / 16);
    assert forall|i: int| 0 <= i < 8 implies 0 <= #[trigger] bits[i] < 2 by {
        assert(0 <= codes[32 * i + lane] < 32);
    }
    let k = 2 * group + upper;
    assert(32 * k + lane == e);
    assert(block[16 + lane] == eight_bits(bits));
    bit_found(bits, k);
    let first = 64 * group + lane;
    assert(0 <= codes[first] < 32 && 0 <= codes[first + 32] < 32);
    let at = 48 + 32 * group + lane;
    assert((at - 48) / 32 == group && (at - 48) % 32 == lane);
    assert(block[at] == (codes[first] % 16 + 16 * (codes[first + 32] % 16)) as u8);
    halves_found(codes[first] % 16, codes[first + 32] % 16);
    assert(first + 32 * upper == e);
    let low = if upper == 0 {
        block[at] as int % 16
    } else {
        block[at] as int / 16
    };
    assert(low == codes[e] % 16);
    assert(codes[e] == codes[e] % 16 + 16 * (codes[e] / 16));
    assert(bits[k] == codes[e] / 16);
    assert(q5_code(block, e) == codes[e]);
    two_bytes(d);
    two_bytes(dmin);
}

/// Decoding a row of blocks undoes packing them: number `256 * b + e` is
/// number `e` of block `b`.
pub proof fn row_unpacked(
    data: Seq<u8>,
    all: Seq<Q5Scales>,
    b: int,
    d: u16,
    dmin: u16,
    sc: Seq<u8>,
    codes: Seq<int>,
    e: int,
)
    requires
        0 <= b < all.len(),
        176 * b + 176 <= data.len(),
        forall|i: int|
            0 <= i < 176 ==> #[trigger] data[176 * b + i] == packed_block(d, dmin, sc, codes)[i],
        codes.len() == 256,
        forall|k: int| 0 <= k < 256 ==> 0 <= #[trigger] codes[k] < 32,
        0 <= e < 256,
    ensures
        ({
            let x = q5_at(data, all, 256 * b + e);
            &&& x.d_bits == d
            &&& x.dmin_bits == dmin
            &&& x.scale == all[b].scales@[e / 32]
            &&& x.min == all[b].mins@[e / 32]
            &&& x.code == codes[e]
        }),
{
    let block = packed_block(d, dmin, sc, codes);
    let part = data.subrange(176 * b, 176 * b + 176);
    assert forall|i: int| 0 <= i < 176 implies part[i] == block[i] by {
        assert(part[i] == data[176 * b + i]);
    }
    assert(part =~= block);
    assert((256 * b + e) / 256 == b && (256 * b + e) % 256 == e);
    block_unpacked(d, dmin, sc, codes, all[b], e);
}

/// The code of number `e` of the block that starts at `at`.
fn code_at(data: &[u8], at: usize, e: usize) -> (r: u8)
    requires
        at + 176 <= data@.len(),
        e < 256,
    ensures
        r == q5_code(data@.subrange(at as int, at + 176), e as int),
{
    assert(data@.len() == data.len());
    let group: usize = e / 64;
    let upper: usize = (e % 64) / 32;
    let lane: usize = e % 32;
    let byte: u8 = data[at + 48 + 32 * group + lane];
    let low: u8 = if upper == 0 {
        byte % 16
    } else {
        byte / 16
    };
    let high: u8 = shift_bits(data[at + 16 + lane], 2 * group + upper) % 2;
    if high == 1 {
        low + 16
    } else {
        low
    }
}

/// The numbers of a row of blocks, in order.  Fails if the number of elements
/// is not a multiple of the block size or the bytes are too few.
pub fn dequantize_q5_k(data: &[u8], scales: &Vec<Q5Scales>, n_elements: usize) -> (r: Result<
    Vec<Q5Code>,
    ModelError,
>)
    requires
        scales@.len() == n_elements as nat / 256,
        forall|b: int| 0 <= b < scales@.len() ==> (#[trigger] scales@[b]).wf(),
    ensures
        match r {
            Ok(v) => q5_sized(data@.len(), n_elements as nat) && v@ == Seq::new(
                n_elements as nat,
                |e: int| q5_at(data@, scales@, e),
            ),
            Err(e) => !q5_sized(data@.len(), n_elements as nat) && e@ == q5_fault(
                data@.len(),
                n_elements as nat,
            ),
        },
{
    let n_blocks: usize = n_elements / Q5_K_BLOCK_ELEMS;
    if n_elements % Q5_K_BLOCK_ELEMS != 0 || data.len() / Q5_K_BLOCK_BYTES < n_blocks {
        let a = decimal_string(data.len() as u64);
        let b = decimal_string(n_elements as u64);
        let head = concat("Q5_K: ", a.as_str());
        let body = concat(concat(head.as_str(), " bytes for ").as_str(), b.as_str());
        return Err(ModelError::Parse(concat(body.as_str(), " elements")));
    }
    let mut out: Vec<Q5Code> = Vec::new();
    let mut b: usize = 0;
    while b < n_blocks
        invariant
            0 <= b <= n_blocks,
            n_elements == n_blocks * 256,
            scales@.len() == n_blocks,
            forall|k: int| 0 <= k < scales@.len() ==> (#[trigger] scales@[k]).wf(),
            176 * n_blocks <= data@.len(),
            out@ == Seq::new((256 * b) as nat, |e: int| q5_at(data@, scales@, e)),
        decreases n_blocks - b,
    {
        assert(data@.len() == data.len());
        let at: usize = b * Q5_K_BLOCK_BYTES;
        let ghost block = data@.subrange(at as int, at + 176);
        let d_bits: u16 = data[at] as u16 + 256 * (data[at + 1] as u16);
        let dmin_bits: u16 = data[at + 2] as u16 + 256 * (data[at + 3] as u16);
        let s = &scales[b];
        assert(scales@[b as int].wf());
        let mut e: usize = 0;
        while e < 256
            invariant
                0 <= e <= 256,
                0 <= b < n_blocks,
                at == 176 * b,
                at + 176 <= data@.len(),
                block == data@.subrange(at as int, at + 176),
                scales@.len() == n_blocks,
                s == scales@[b as int],
                s.wf(),
                d_bits == block[0] + 256 * block[1],
                dmin_bits == block[2] + 256 * block[3],
                out@ == Seq::new((256 * b + e) as nat, |k: int| q5_at(data@, scales@, k)),
            decreases 256 - e,
        {
            let ghost k = 256 * b + e;
            let code = code_at(data, at, e);
            let scale: u8 = s.scales[e / 32];
            let min: u8 = s.mins[e / 32];
            assert(k / 256 == b && k % 256 == e);
            out.push(Q5Code { d_bits, dmin_bits, scale, min, code });
            e += 1;
            assert(out@ =~= Seq::new((256 * b + e) as nat, |k: int| q5_at(data@, scales@, k)));
        }
        b += 1;
    }
    Ok(out)
}

} // verus!
