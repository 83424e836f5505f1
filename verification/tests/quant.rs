use larql::quant::q3_k::{
    dequantize_q3_k, unpack_q3k_scales, Q3Code, Q3_K_BLOCK_BYTES, Q3_K_BLOCK_ELEMS,
};
use larql::quant::q5_k::{
    dequantize_q5_k, Q5Code, Q5Scales, Q5_K_BLOCK_BYTES, Q5_K_BLOCK_ELEMS,
};
use larql::quant::rotation::{check_power_of_two, flips_sign, wht_pairs};

/// A half-precision number of normal size, or zero.
fn half(bits: u16) -> f32 {
    if bits == 0 {
        return 0.0;
    }
    let sign = if bits >> 15 == 1 { -1.0 } else { 1.0 };
    let exponent = ((bits >> 10) & 31) as i32 - 15;
    let fraction = (bits & 1023) as f32 / 1024.0;
    sign * (1.0 + fraction) * 2f32.powi(exponent)
}

fn q3_value(c: &Q3Code) -> f32 {
    half(c.d_bits) * (c.scale as f32) * (c.code as f32)
}

fn q5_value(c: &Q5Code) -> f32 {
    half(c.d_bits) * (c.scale as f32) * (c.code as f32) - half(c.dmin_bits) * (c.min as f32)
}

fn q3_block(d_bits: u16, hmask: [u8; 32], qs: [u8; 64], scales: [u8; 12]) -> Vec<u8> {
    let mut b = Vec::with_capacity(Q3_K_BLOCK_BYTES);
    b.extend_from_slice(&hmask);
    b.extend_from_slice(&qs);
    b.extend_from_slice(&scales);
    b.extend_from_slice(&d_bits.to_le_bytes());
    assert_eq!(b.len(), Q3_K_BLOCK_BYTES);
    b
}

fn q5_block(d: u16, dmin: u16, scales: [u8; 12], qh: [u8; 32], qs: [u8; 128]) -> Vec<u8> {
    let mut b = Vec::with_capacity(Q5_K_BLOCK_BYTES);
    b.extend_from_slice(&d.to_le_bytes());
    b.extend_from_slice(&dmin.to_le_bytes());
    b.extend_from_slice(&scales);
    b.extend_from_slice(&qh);
    b.extend_from_slice(&qs);
    assert_eq!(b.len(), Q5_K_BLOCK_BYTES);
    b
}

fn q5_scales(first: u8) -> Vec<Q5Scales> {
    let mut scales = vec![0u8; 8];
    scales[0] = first;
    vec![Q5Scales { scales, mins: vec![0u8; 8] }]
}

#[test]
fn hbit_set_no_subtract() {
    let d_bits: u16 = 0x3C00;
    let mut scales_raw = [0u8; 12];
    let block = q3_block(d_bits, [0xFF; 32], [0u8; 64], scales_raw);
    let out = dequantize_q3_k(&block, Q3_K_BLOCK_ELEMS).unwrap();
    assert_eq!(out.len(), Q3_K_BLOCK_ELEMS);
    assert!(out.iter().all(|c| q3_value(c) == 0.0), "all zero-scale → zero output");

    scales_raw[0] = 0xFF;
    let block2 = q3_block(d_bits, [0u8; 32], [0u8; 64], scales_raw);
    let out2 = dequantize_q3_k(&block2, Q3_K_BLOCK_ELEMS).unwrap();
    assert_eq!(out2.len(), Q3_K_BLOCK_ELEMS);
}

#[test]
fn hmask_clear_subtracts_4() {
    let d_bits: u16 = 0x3C00;
    let mut sb = [0u8; 12];
    sb[0..4].copy_from_slice(&0x01010101u32.to_le_bytes());
    sb[4..8].copy_from_slice(&0x01010101u32.to_le_bytes());
    sb[8..12].copy_from_slice(&0u32.to_le_bytes());
    let mut hmask = [0xFFu8; 32];
    hmask[0] = 0xFE;

    let block = q3_block(d_bits, hmask, [0u8; 64], sb);
    let out = dequantize_q3_k(&block, Q3_K_BLOCK_ELEMS).unwrap();
    assert!((q3_value(&out[0]) - 124.0).abs() < 0.5);
    assert!(q3_value(&out[1]).abs() < 0.5);
    assert_eq!(out[0], Q3Code { d_bits: 0x3C00, scale: -31, code: -4 });
}

#[test]
fn q3_k_wrong_size_returns_error() {
    assert!(dequantize_q3_k(&[0u8; 5], 256).is_err());
}

#[test]
fn six_bit_scales_join_their_halves() {
    // Scale 0 is 0x0A in its low bits and 2 in its high bits, scale 8 is the
    // upper half of the same byte with the high bits of position 4.
    let mut sc = [0u8; 12];
    sc[0] = 0x5A;
    sc[8] = 0b0001_0010;
    let scales = unpack_q3k_scales(&sc);
    assert_eq!(scales.len(), 16);
    assert_eq!(scales[0], 10 + 32 - 32);
    assert_eq!(scales[4], -32);
    assert_eq!(scales[8], 5 + 16 - 32);
    assert_eq!(scales[15], -32);
}

#[test]
fn second_half_of_a_three_bit_block_reads_its_own_bits() {
    // Number 128 + 64 + 20 lies in the second half, group 2, lane 20.
    let mut qs = [0u8; 64];
    qs[32 + 20] = 0b0011_0000;
    let mut hmask = [0u8; 32];
    hmask[20] = 1 << 6;
    let block = q3_block(0x4000, hmask, qs, [0u8; 12]);
    let out = dequantize_q3_k(&block, 256).unwrap();
    assert_eq!(out[212], Q3Code { d_bits: 0x4000, scale: -32, code: 3 });
    assert_eq!(out[211], Q3Code { d_bits: 0x4000, scale: -32, code: -4 });
    assert_eq!(q3_value(&out[212]), 2.0 * -32.0 * 3.0);
}

#[test]
fn zero_scales_all_zero() {
    let block = q5_block(0x3C00, 0x0000, [0u8; 12], [0u8; 32], [0u8; 128]);
    let out = dequantize_q5_k(&block, &q5_scales(0), Q5_K_BLOCK_ELEMS).unwrap();
    assert_eq!(out.len(), Q5_K_BLOCK_ELEMS);
    assert!(out.iter().all(|c| q5_value(c) == 0.0));
}

#[test]
fn high_bit_set_adds_16() {
    let mut sc = [0u8; 12];
    sc[0] = 1;
    let mut qh = [0u8; 32];
    qh[0] = 0x01;
    let mut qs = [0u8; 128];
    qs[0] = 0x01;

    let block = q5_block(0x3C00, 0x0000, sc, qh, qs);
    let out = dequantize_q5_k(&block, &q5_scales(1), Q5_K_BLOCK_ELEMS).unwrap();
    assert!((q5_value(&out[0]) - 17.0).abs() < 0.01);
    assert!((q5_value(&out[32]) - 0.0).abs() < 0.01);
}

#[test]
fn q5_k_wrong_size_returns_error() {
    assert!(dequantize_q5_k(&[0u8; 10], &q5_scales(0), 256).is_err());
}

#[test]
fn five_bit_numbers_subtract_their_minimum() {
    let mut qs = [0u8; 128];
    qs[33] = 0x70;
    let mut qh = [0u8; 32];
    qh[1] = 0x08;
    let block = q5_block(0x4000, 0x3C00, [0u8; 12], qh, qs);
    let scales = vec![Q5Scales {
        scales: vec![0, 0, 0, 3, 0, 0, 0, 0],
        mins: vec![0, 0, 0, 5, 0, 0, 0, 0],
    }];
    let out = dequantize_q5_k(&block, &scales, 256).unwrap();
    // Number 97: second pair, upper half of byte 33, high bit 3.
    assert_eq!(
        out[97],
        Q5Code { d_bits: 0x4000, dmin_bits: 0x3C00, scale: 3, min: 5, code: 23 }
    );
    assert_eq!(q5_value(&out[97]), 2.0 * 3.0 * 23.0 - 5.0);
}

/// The rotation of `x`: signs, butterflies, scaling, signs.
fn wht(x: &[f32]) -> Vec<f32> {
    assert!(check_power_of_two(x.len()));
    let mut y = x.to_vec();
    let flip = |y: &mut Vec<f32>| {
        for (i, v) in y.iter_mut().enumerate() {
            if flips_sign(i as u64) {
                *v = -*v;
            }
        }
    };
    flip(&mut y);
    for (j, k) in wht_pairs(x.len()) {
        let (a, b) = (y[j], y[k]);
        y[j] = a + b;
        y[k] = a - b;
    }
    let scale = 1.0 / (x.len() as f32).sqrt();
    for v in &mut y {
        *v *= scale;
    }
    flip(&mut y);
    y
}

/// The rotation by its stages: pairs at a distance of one, two, four, ...
fn wht_by_stages(x: &[f32]) -> Vec<f32> {
    let d = x.len();
    let mut y = x.to_vec();
    let sign = |i: usize| if ((i as u64).wrapping_mul(2654435761) >> 16) & 1 == 1 { -1.0 } else { 1.0 };
    for i in 0..d {
        y[i] *= sign(i);
    }
    let mut half = 1;
    while half < d {
        let mut i = 0;
        while i < d {
            for j in i..i + half {
                let a = y[j];
                let b = y[j + half];
                y[j] = a + b;
                y[j + half] = a - b;
            }
            i += half * 2;
        }
        half *= 2;
    }
    let scale = 1.0 / (d as f32).sqrt();
    for i in 0..d {
        y[i] *= scale * sign(i);
    }
    y
}

#[test]
fn test_wht_self_inverse() {
    let x: Vec<f32> = (0..128).map(|i| (i as f32 - 64.0) / 100.0).collect();
    let y = wht(&x);
    let x_recon = wht(&y);
    for (a, b) in x.iter().zip(x_recon.iter()) {
        assert!((a - b).abs() < 1e-4, "WHT not self-inverse: {a} vs {b}");
    }
}

#[test]
fn test_wht_preserves_norm() {
    let x: Vec<f32> = (0..256).map(|i| (i as f32 * 0.01) - 1.28).collect();
    let norm_x: f32 = x.iter().map(|v| v * v).sum::<f32>().sqrt();
    let y = wht(&x);
    let norm_y: f32 = y.iter().map(|v| v * v).sum::<f32>().sqrt();
    let err = (norm_x - norm_y).abs() / norm_x;
    assert!(err < 1e-4, "WHT changed norm by {err}: {norm_x} vs {norm_y}");
}

#[test]
fn the_rotation_of_integers_keeps_the_norm() {
    for d in [1usize, 2, 8, 32] {
        let mut y: Vec<i64> = (0..d as i64).map(|i| 3 * i * i - 7 * i + 1).collect();
        let before: i64 = y.iter().map(|v| v * v).sum();
        for round in 0..2 {
            for (i, v) in y.iter_mut().enumerate() {
                if flips_sign(i as u64) {
                    *v = -*v;
                }
            }
            if round == 0 {
                for (j, k) in wht_pairs(d) {
                    let (a, b) = (y[j], y[k]);
                    y[j] = a + b;
                    y[k] = a - b;
                }
            }
        }
        assert_eq!(y.iter().map(|v| v * v).sum::<i64>(), d as i64 * before);
    }
}

#[test]
fn wht_inplace_matches_wht() {
    let x: Vec<f32> = (0..256).map(|i| (i as f32 - 128.0) / 64.0).collect();
    for (a, b) in wht(&x).iter().zip(wht_by_stages(&x).iter()) {
        assert!((a - b).abs() < 1e-5, "the pairs diverged from the stages: {a} vs {b}");
    }
}

#[test]
fn wht_inplace_scalar_matches_scalar_reference_at_sizes() {
    for d in [4usize, 8, 16, 32, 64, 128, 256] {
        let x: Vec<f32> = (0..d).map(|i| (i as f32 + 1.0) / (d as f32)).collect();
        let y = wht(&wht(&x));
        for (a, b) in x.iter().zip(y.iter()) {
            assert!((a - b).abs() < 1e-4, "not self-inverse at d={d}: {a} vs {b}");
        }
    }
}

#[test]
fn four_numbers_are_paired_in_two_stages() {
    assert_eq!(wht_pairs(4), vec![(0, 1), (2, 3), (0, 2), (1, 3)]);
    assert!(wht_pairs(1).is_empty());
    assert!(!check_power_of_two(0));
    assert!(!check_power_of_two(12));
    assert!(check_power_of_two(1));
}
