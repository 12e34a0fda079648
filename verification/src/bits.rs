//! Bit addressing and span extraction: the only code that touches raw bytes.
//!
//! A byte buffer is viewed as a sequence of addressable bits.  Under the
//! `Lsb` order, bit index 0 of a byte is its least-significant bit and the
//! first bit of a span is the least-significant bit of the extracted value;
//! under the `Msb` order, bit index 0 of a byte is its most-significant bit
//! and the first bit of a span is the most-significant bit of the value.

use vstd::prelude::*;
use vstd::arithmetic::power2::{pow2, lemma_pow2_unfold, lemma_pow2_strictly_increases, lemma2_to64, lemma2_to64_rest};
use crate::policy::BitOrder;

verus! {

/// The number of addressable bits of a buffer.
pub open spec fn bit_len(data: Seq<u8>) -> nat {
    data.len() * 8
}

/// The bit of `data` addressed by index `i` under the given bit order.
pub open spec fn bit_at(data: Seq<u8>, order: BitOrder, i: nat) -> bool
    recommends
        i < bit_len(data),
{
    let byte = data[i as int / 8];
    let sh: u8 = match order {
        BitOrder::Lsb => (i % 8) as u8,
        BitOrder::Msb => (7 - (i % 8)) as u8,
    };
    (byte >> sh) & 1 == 1
}

/// The unsigned value of the span of `width` bits starting at bit index
/// `offset`, assembled according to the bit order: the first addressed bit
/// is the least-significant bit of the value under `Lsb` and the
/// most-significant bit under `Msb`.
pub open spec fn span_val(data: Seq<u8>, order: BitOrder, offset: nat, width: nat) -> nat
    decreases width,
{
    if width == 0 {
        0
    } else {
        match order {
            BitOrder::Lsb => (if bit_at(data, order, offset) {
                1nat
            } else {
                0nat
            }) + 2 * span_val(data, order, (offset + 1) as nat, (width - 1) as nat),
            BitOrder::Msb => 2 * span_val(data, order, offset, (width - 1) as nat) + (
            if bit_at(data, order, (offset + width - 1) as nat) {
                1nat
            } else {
                0nat
            }),
        }
    }
}

/// A span of `width` bits always holds a value below `pow2(width)`.
pub proof fn lemma_span_val_bound(data: Seq<u8>, order: BitOrder, offset: nat, width: nat)
    ensures
        span_val(data, order, offset, width) < pow2(width),
    decreases width,
{
    lemma2_to64();
    if width > 0 {
        lemma_pow2_unfold(width);
        match order {
            BitOrder::Lsb => lemma_span_val_bound(
                data,
                order,
                (offset + 1) as nat,
                (width - 1) as nat,
            ),
            BitOrder::Msb => lemma_span_val_bound(data, order, offset, (width - 1) as nat),
        }
    }
}

/// Reads the single bit addressed by `i`.
pub fn read_bit(data: &[u8], order: BitOrder, i: usize) -> (b: bool)
    requires
        i < bit_len(data@),
    ensures
        b == bit_at(data@, order, i as nat),
{
    let byte = data[i / 8];
    let r = i % 8;
    let sh: u8 = match order {
        BitOrder::Lsb => r as u8,
        BitOrder::Msb => 7 - (r as u8),
    };
    ((byte >> sh) & 1) == 1
}

/// Extracts the `width`-bit span starting at `offset` as an unsigned value.
pub fn read_span(data: &[u8], order: BitOrder, offset: usize, width: usize) -> (r: u64)
    requires
        width <= 64,
        offset + width <= bit_len(data@),
        bit_len(data@) <= usize::MAX,
    ensures
        r as nat == span_val(data@, order, offset as nat, width as nat),
{
    let mut acc: u64 = 0;
    match order {
        BitOrder::Msb => {
            let mut j: usize = 0;
            while j < width
                invariant
                    j <= width,
                    width <= 64,
                    offset + width <= bit_len(data@),
                    bit_len(data@) <= usize::MAX,
                    acc as nat == span_val(data@, BitOrder::Msb, offset as nat, j as nat),
                decreases width - j,
            {
                proof {
                    lemma_span_val_bound(data@, BitOrder::Msb, offset as nat, j as nat);
                    if (j as nat) < 63 {
                        lemma_pow2_strictly_increases(j as nat, 63);
                    }
                    lemma2_to64_rest();
                }
                let b = read_bit(data, BitOrder::Msb, offset + j);
                acc = acc * 2 + (if b {
                    1
                } else {
                    0
                });
                j = j + 1;
            }
            acc
        }
        BitOrder::Lsb => {
            let mut j: usize = width;
            while j > 0
                invariant
                    j <= width,
                    width <= 64,
                    offset + width <= bit_len(data@),
                    bit_len(data@) <= usize::MAX,
                    acc as nat == span_val(
                        data@,
                        BitOrder::Lsb,
                        (offset + j) as nat,
                        (width - j) as nat,
                    ),
                decreases j,
            {
                proof {
                    lemma_span_val_bound(
                        data@,
                        BitOrder::Lsb,
                        (offset + j) as nat,
                        (width - j) as nat,
                    );
                    if ((width - j) as nat) < 63 {
                        lemma_pow2_strictly_increases((width - j) as nat, 63);
                    }
                    lemma2_to64_rest();
                }
                j = j - 1;
                let b = read_bit(data, BitOrder::Lsb, offset + j);
                acc = acc * 2 + (if b {
                    1
                } else {
                    0
                });
            }
            acc
        }
    }
}

/// Reinterprets a `width`-bit unsigned span value as a two's-complement
/// signed value: if the span's top bit is set the value represents
/// `v - pow2(width)`.
pub open spec fn sign_extend(v: nat, width: nat) -> int {
    if width > 0 && v >= pow2((width - 1) as nat) {
        v - pow2(width)
    } else {
        v as int
    }
}

/// Applies two's-complement sign extension based on the field's bit width.
pub fn sign_extend_i64(v: u64, width: usize) -> (r: i64)
    requires
        width <= 64,
        (v as nat) < pow2(width as nat),
    ensures
        r as int == sign_extend(v as nat, width as nat),
{
    proof {
        lemma2_to64();
    }
    if width == 0 {
        return 0;
    }
    let half: u64 = 1u64 << ((width - 1) as u64);
    proof {
        vstd::bits::lemma_u64_pow2_no_overflow((width - 1) as nat);
        vstd::bits::lemma_u64_shl_is_mul(1u64, (width - 1) as u64);
        lemma_pow2_unfold(width as nat);
        if ((width - 1) as nat) < 63 {
            lemma_pow2_strictly_increases((width - 1) as nat, 63);
        }
        lemma2_to64_rest();
    }
    if v >= half {
        // the represented value is v - pow2(width), a negative number whose
        // magnitude is at most pow2(width - 1)
        let diff: u64 = half - (v - half);
        if diff <= 0x7fff_ffff_ffff_ffffu64 {
            -(diff as i64)
        } else {
            i64::MIN
        }
    } else {
        v as i64
    }
}

}
