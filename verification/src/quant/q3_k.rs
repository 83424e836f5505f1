//! Blocks of 256 three-bit numbers (GGML type 11).
//!
//! A block has 110 bytes: 32 bytes with the high bit of each number, 64 bytes
//! with the two low bits, 12 bytes with sixteen six-bit scales, and the block
//! scale as a half-precision number.  A number is the block scale times its
//! scale times its code; the products are left to the caller.
use vstd::prelude::*;

use crate::error::{Fault, ModelError};
use crate::text::{concat, decimal, decimal_string};

verus! {

pub const Q3_K_BLOCK_BYTES: usize = 110;

pub const Q3_K_BLOCK_ELEMS: usize = 256;

/// One number of a block: the bits of the half-precision block scale, the
/// scale and the code, to be multiplied in this order.
#[derive(Debug, Clone, Copy, PartialEq, Eq, Structural)]
pub struct Q3Code {
    pub d_bits: u16,
    pub scale: i8,
    pub code: i8,
}

/// Four to the power of `k`, for `k` below four.
pub open spec fn pow4(k: int) -> int {
    if k == 0 {
        1
    } else if k == 1 {
        4
    } else if k == 2 {
        16
    } else {
        64
    }
}

/// Two to the power of `k`, for `k` below eight.
pub open spec fn pow2_small(k: int) -> int {
    if k == 0 {
        1
    } else if k == 1 {
        2
    } else if k == 2 {
        4
    } else if k == 3 {
        8
    } else if k == 4 {
        16
    } else if k == 5 {
        32
    } else if k == 6 {
        64
    } else {
        128
    }
}

/// Scale `i` of the twelve bytes `sc`: four low bits from one of the first
/// eight bytes, two high bits from one of the last four, less 32.
pub open spec fn q3_scale(sc: Seq<u8>, i: int) -> int {
    let low = if i < 8 {
        sc[i] as int % 16
    } else {
        sc[i - 8] as int / 16
    };
    let high = (sc[8 + i % 4] as int / pow4(i / 4)) % 4;
    low + 16 * high - 32
}

/// The code of number `e` of a block: two low bits, and 4 less where the high
/// bit is not set.
pub open spec fn q3_code(block: Seq<u8>, e: int) -> int {
    let half = e / 128;
    let group = (e % 128) / 32;
    let lane = e % 32;
    let low = (block[32 + 32 * half + lane] as int / pow4(group)) % 4;
    let high_set = (block[lane] as int / pow2_small(4 * half + group)) % 2 == 1;
    if high_set {
        low
    } else {
        low - 4
    }
}

/// The bits of the block scale.
pub open spec fn q3_d(block: Seq<u8>) -> int {
    block[108] + 256 * block[109]
}

/// Number `e` of a block.
pub open spec fn q3_element(block: Seq<u8>, e: int) -> Q3Code {
    Q3Code {
        d_bits: q3_d(block) as u16,
        scale: q3_scale(block.subrange(96, 108), e / 16) as i8,
        code: q3_code(block, e) as i8,
    }
}

/// Number `e` of a row of blocks.
pub open spec fn q3_at(data: Seq<u8>, e: int) -> Q3Code {
    let b = e / 256;
    q3_element(data.subrange(110 * b, 110 * b + 110), e % 256)
}

/// What is said of a row of blocks that has not the length it should have.
pub open spec fn q3_fault(data_len: nat, n_elements: nat) -> Fault {
    Fault::Parse("Q3_K: "@ + decimal(data_len) + " bytes for "@ + decimal(n_elements) + " elements"@)
}

/// `n` whole blocks are there.
pub open spec fn q3_sized(data_len: nat, n_elements: nat) -> bool {
    n_elements % 256 == 0 && data_len >= 110 * (n_elements / 256)
}

/// Four numbers below four in one byte, the first in the lowest bits.
pub open spec fn four_pairs(a: int, b: int, c: int, d: int) -> u8 {
    (a + 4 * b + 16 * c + 64 * d) as u8
}

/// Eight bits in one byte, the first in the lowest.
pub open spec fn eight_bits(b: Seq<int>) -> u8 {
    (b[0] + 2 * b[1] + 4 * b[2] + 8 * b[3] + 16 * b[4] + 32 * b[5] + 64 * b[6] + 128 * b[7]) as u8
}

/// The bytes into which sixteen six-bit scales are packed: of scales `i` and
/// `i + 8` the low four bits share a byte, of scales `j`, `j + 4`, `j + 8` and
/// `j + 12` the high two.
pub open spec fn packed_scales(scales: Seq<int>) -> Seq<u8> {
    Seq::new(
        12,
        |i: int|
            if i < 8 {
                (scales[i] % 16 + 16 * (scales[i + 8] % 16)) as u8
            } else {
                four_pairs(
                    scales[i - 8] / 16,
                    scales[i - 4] / 16,
                    scales[i] / 16,
                    scales[i + 4] / 16,
                )
            },
    )
}

/// The block into which a block scale, sixteen six-bit scales and 256 three-bit
/// codes are packed.
pub open spec fn packed_block(d: u16, scales: Seq<int>, codes: Seq<int>) -> Seq<u8> {
    Seq::new(
        110,
        |i: int|
            if i < 32 {
                eight_bits(Seq::new(8, |k: int| codes[32 * k + i] / 4))
            } else if i < 96 {
                let first = 128 * ((i - 32) / 32) + (i - 32) % 32;
                four_pairs(
                    codes[first] % 4,
                    codes[first + 32] % 4,
                    codes[first + 64] % 4,
                    codes[first + 96] % 4,
                )
            } else if i < 108 {
                packed_scales(scales)[i - 96]
            } else if i == 108 {
                (d % 256) as u8
            } else {
                (d / 256) as u8
            },
    )
}

/// The scales and the codes are as wide as their places in a block.
pub open spec fn packable(scales: Seq<int>, codes: Seq<int>) -> bool {
    &&& scales.len() == 16
    &&& forall|i: int| 0 <= i < 16 ==> 0 <= #[trigger] scales[i] < 64
    &&& codes.len() == 256
    &&& forall|e: int| 0 <= e < 256 ==> 0 <= #[trigger] codes[e] < 8
}

/// Each of four numbers is found again in their byte.
proof fn pair_found(a: int, b: int, c: int, d: int, k: int)
    requires
        0 <= a < 4,
        0 <= b < 4,
        0 <= c < 4,
        0 <= d < 4,
        0 <= k < 4,
    ensures
        (four_pairs(a, b, c, d) as int / pow4(k)) % 4 == (if k == 0 {
            a
        } else if k == 1 {
            b
        } else if k == 2 {
            c
        } else {
            d
        }),
{
    let s = a + 4 * b + 16 * c + 64 * d;
    assert(four_pairs(a, b, c, d) as int == s);
    if k == 0 {
        assert(s == 4 * (b + 4 * c + 16 * d) + a);
        assert(s % 4 == a);
    } else if k == 1 {
        assert(s / 4 == b + 4 * c + 16 * d);
        assert((b + 4 * (c + 4 * d)) % 4 == b);
    } else if k == 2 {
        assert(s / 16 == c + 4 * d);
        assert((c + 4 * d) % 4 == c);
    } else {
        assert(s / 64 == d);
        assert(d % 4 == d);
    }
}

/// Each of eight bits is found again in their byte.
pub proof fn bit_found(b: Seq<int>, k: int)
    requires
        b.len() == 8,
        forall|i: int| 0 <= i < 8 ==> 0 <= #[trigger] b[i] < 2,
        0 <= k < 8,
    ensures
        (eight_bits(b) as int / pow2_small(k)) % 2 == b[k],
{
    assert(0 <= b[0] < 2 && 0 <= b[1] < 2 && 0 <= b[2] < 2 && 0 <= b[3] < 2);
    assert(0 <= b[4] < 2 && 0 <= b[5] < 2 && 0 <= b[6] < 2 && 0 <= b[7] < 2);
}

/// Unpacking sixteen six-bit scales gives each of them back, less 32.
pub proof fn scales_unpacked(scales: Seq<int>, i: int)
    requires
        scales.len() == 16,
        forall|k: int| 0 <= k < 16 ==> 0 <= #[trigger] scales[k] < 64,
        0 <= i < 16,
    ensures
        q3_scale(packed_scales(scales), i) == scales[i] - 32,
{
    let sc = packed_scales(scales);
    let j = i % 4;
    assert(0 <= scales[j] < 64 && 0 <= scales[j + 4] < 64);
    assert(0 <= scales[j + 8] < 64 && 0 <= scales[j + 12] < 64);
    pair_found(scales[j] / 16, scales[j + 4] / 16, scales[j + 8] / 16, scales[j + 12] / 16, i / 4);
    assert(0 <= scales[i % 8] < 64 && 0 <= scales[i % 8 + 8] < 64);
}

/// Decoding undoes packing: number `e` of a packed block has the block scale,
/// its own code less 4, and the scale of its own run of sixteen numbers less
/// 32.
pub proof fn block_unpacked(d: u16, scales: Seq<int>, codes: Seq<int>, e: int)
    requires
        packable(scales, codes),
        0 <= e < 256,
    ensures
        ({
            let x = q3_element(packed_block(d, scales, codes), e);
            x.d_bits == d && x.scale == scales[e / 16] - 32 && x.code == codes[e] - 4
        }),
{
    let block = packed_block(d, scales, codes);
    assert(block.subrange(96, 108) =~= packed_scales(scales));
    scales_unpacked(scales, e / 16);
    assert(0 <= scales[e / 16] < 64 && 0 <= codes[e] < 8);
    let half = e / 128;
    let group = (e % 128) / 32;
    let lane = e % 32;
    let bits = Seq::new(8, |k: int| codes[32 * k + lane] / 4);
    assert forall|i: int| 0 <= i < 8 implies 0 <= #[trigger] bits[i] < 2 by {
        assert(0 <= codes[32 * i + lane] < 8);
    }
    let k = 4 * half + group;
    assert(32 * k + lane == e);
    assert(block[lane] == eight_bits(bits));
    bit_found(bits, k);
    let first = 128 * half + lane;
    assert(0 <= codes[first] < 8 && 0 <= codes[first + 32] < 8);
    assert(0 <= codes[first + 64] < 8 && 0 <= codes[first + 96] < 8);
    assert((32 * half + lane) / 32 == half && (32 * half + lane) % 32 == lane);
    pair_found(
        codes[first] % 4,
        codes[first + 32] % 4,
        codes[first + 64] % 4,
        codes[first + 96] % 4,
        group,
    );
    assert(first + 32 * group == e);
}

/// Decoding a row of blocks undoes packing them: number `256 * b + e` is
/// number `e` of block `b`.
pub proof fn row_unpacked(
    data: Seq<u8>,
    b: int,
    d: u16,
    scales: Seq<int>,
    codes: Seq<int>,
    e: int,
)
    requires
        packable(scales, codes),
        0 <= b,
        110 * b + 110 <= data.len(),
        forall|i: int|
            0 <= i < 110 ==> #[trigger] data[110 * b + i] == packed_block(d, scales, codes)[i],
        0 <= e < 256,
    ensures
        ({
            let x = q3_at(data, 256 * b + e);
            x.d_bits == d && x.scale == scales[e / 16] - 32 && x.code == codes[e] - 4
        }),
{
    let block = packed_block(d, scales, codes);
    let part = data.subrange(110 * b, 110 * b + 110);
    assert forall|i: int| 0 <= i < 110 implies part[i] == block[i] by {
        assert(part[i] == data[110 * b + i]);
    }
    assert(part =~= block);
    assert((256 * b + e) / 256 == b && (256 * b + e) % 256 == e);
    block_unpacked(d, scales, codes, e);
}

/// A byte divided by four to the power of `k`.
fn shift_pairs(v: u8, k: usize) -> (r: u8)
    requires
        k < 4,
    ensures
        r == v as int / pow4(k as int),
{
    if k == 0 {
        v
    } else if k == 1 {
        v / 4
    } else if k == 2 {
        v / 16
    } else {
        v / 64
    }
}

/// A byte divided by two to the power of `k`.
pub(crate) fn shift_bits(v: u8, k: usize) -> (r: u8)
    requires
        k < 8,
    ensures
        r == v as int / pow2_small(k as int),
{
    if k == 0 {
        v
    } else if k == 1 {
        v / 2
    } else if k == 2 {
        v / 4
    } else if k == 3 {
        v / 8
    } else if k == 4 {
        v / 16
    } else if k == 5 {
        v / 32
    } else if k == 6 {
        v / 64
    } else {
        v / 128
    }
}

/// Scale `i` of the twelve bytes that start at `at`.
fn scale_at(data: &[u8], at: usize, i: usize) -> (r: i8)
    requires
        at + 12 <= data@.len(),
        i < 16,
    ensures
        r == q3_scale(data@.subrange(at as int, at + 12), i as int),
        -32 <= r < 32,
{
    assert(data@.len() == data.len());
    let low: u8 = if i < 8 {
        data[at + i] % 16
    } else {
        data[at + (i - 8)] / 16
    };
    let high: u8 = shift_pairs(data[at + 8 + i % 4], i / 4) % 4;
    let raw: i8 = (low + 16 * high) as i8;
    raw - 32
}

/// The sixteen scales of twelve packed bytes.
pub fn unpack_q3k_scales(sc: &[u8]) -> (r: Vec<i8>)
    requires
        sc@.len() >= 12,
    ensures
        r@.len() == 16,
        forall|i: int| 0 <= i < 16 ==> #[trigger] r@[i] == q3_scale(sc@.subrange(0, 12), i),
{
    let mut out: Vec<i8> = Vec::new();
    let mut i: usize = 0;
    while i < 16
        invariant
            0 <= i <= 16,
            sc@.len() >= 12,
            out@.len() == i,
            forall|k: int| 0 <= k < i ==> #[trigger] out@[k] == q3_scale(sc@.subrange(0, 12), k),
        decreases 16 - i,
    {
        out.push(scale_at(sc, 0, i));
        i += 1;
    }
    out
}

/// The code of number `e` of the block that starts at `at`.
fn code_at(data: &[u8], at: usize, e: usize) -> (r: i8)
    requires
        at + 110 <= data@.len(),
        e < 256,
    ensures
        r == q3_code(data@.subrange(at as int, at + 110), e as int),
{
    assert(data@.len() == data.len());
    let half: usize = e / 128;
    let group: usize = (e % 128) / 32;
    let lane: usize = e % 32;
    let low: u8 = shift_pairs(data[at + 32 + 32 * half + lane], group) % 4;
    let high: u8 = shift_bits(data[at + lane], 4 * half + group) % 2;
    if high == 1 {
        low as i8
    } else {
        low as i8 - 4
    }
}

/// The numbers of a row of blocks, in order.  Fails if the number of elements
/// is not a multiple of the block size or the bytes are too few.
pub fn dequantize_q3_k(data: &[u8], n_elements: usize) -> (r: Result<Vec<Q3Code>, ModelError>)
    ensures
        match r {
            Ok(v) => q3_sized(data@.len(), n_elements as nat) && v@ == Seq::new(
                n_elements as nat,
                |e: int| q3_at(data@, e),
            ),
            Err(e) => !q3_sized(data@.len(), n_elements as nat) && e@ == q3_fault(
                data@.len(),
                n_elements as nat,
            ),
        },
{
    let n_blocks: usize = n_elements / Q3_K_BLOCK_ELEMS;
    if n_elements % Q3_K_BLOCK_ELEMS != 0 || data.len() / Q3_K_BLOCK_BYTES < n_blocks {
        let a = decimal_string(data.len() as u64);
        let b = decimal_string(n_elements as u64);
        let head = concat("Q3_K: ", a.as_str());
        let body = concat(concat(head.as_str(), " bytes for ").as_str(), b.as_str());
        return Err(ModelError::Parse(concat(body.as_str(), " elements")));
    }
    let mut out: Vec<Q3Code> = Vec::new();
    let mut b: usize = 0;
    while b < n_blocks
        invariant
            0 <= b <= n_blocks,
            n_elements == n_blocks * 256,
            110 * n_blocks <= data@.len(),
            out@ == Seq::new((256 * b) as nat, |e: int| q3_at(data@, e)),
        decreases n_blocks - b,
    {
        assert(data@.len() == data.len());
        let at: usize = b * Q3_K_BLOCK_BYTES;
        let ghost block = data@.subrange(at as int, at + 110);
        let d_bits: u16 = data[at + 108] as u16 + 256 * (data[at + 109] as u16);
        let mut e: usize = 0;
        while e < 256
            invariant
                0 <= e <= 256,
                0 <= b < n_blocks,
                at == 110 * b,
                at + 110 <= data@.len(),
                block == data@.subrange(at as int, at + 110),
                d_bits == q3_d(block),
                out@ == Seq::new((256 * b + e) as nat, |k: int| q3_at(data@, k)),
            decreases 256 - e,
        {
            let ghost k = 256 * b + e;
            assert(data@.len() == data.len());
            let scale = scale_at(data, at + 96, e / 16);
            let code = code_at(data, at, e);
            assert(block.subrange(96, 108) =~= data@.subrange(at + 96, at + 108));
            assert(k / 256 == b && k % 256 == e);
            out.push(Q3Code { d_bits, scale, code });
            e += 1;
            assert(out@ =~= Seq::new((256 * b + e) as nat, |k: int| q3_at(data@, k)));
        }
        b += 1;
    }
    Ok(out)
}

} // verus!
