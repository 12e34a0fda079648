//! Bit-order policy: resolves record-level configuration into the concrete
//! bit-addressing scheme used by every field read of that record.

use vstd::prelude::*;
use vstd::string::StrSliceExecFns;

verus! {

/// Whether bit index 0 of an addressable span is the least- or the
/// most-significant bit.
#[derive(Clone, Copy, Debug, PartialEq, Eq, Structural)]
pub enum BitOrder {
    Lsb,
    Msb,
}

/// Record-level byte-order attribute.  It is declared and carried through,
/// but only the bit order affects extraction; this attribute is reserved.
#[derive(Clone, Copy, Debug, PartialEq, Eq, Structural)]
pub enum Endianness {
    Little,
    Big,
}

/// One policy per record, applied uniformly to every field extraction.
#[derive(Clone, Copy, Debug, PartialEq, Eq, Structural)]
pub struct BitOrderPolicy {
    pub endianness: Endianness,
    pub bit_order: BitOrder,
}

/// The bit order a configuration string resolves to: `"msb"` is recognized,
/// anything else (including an absent value) falls back to the default.
pub open spec fn bit_order_of(s: Option<&str>) -> BitOrder {
    match s {
        Some(t) => if t@ == "msb"@ {
            BitOrder::Msb
        } else {
            BitOrder::Lsb
        },
        None => BitOrder::Lsb,
    }
}

/// The endianness a configuration string resolves to: `"big"` is recognized,
/// anything else (including an absent value) falls back to the default.
pub open spec fn endianness_of(s: Option<&str>) -> Endianness {
    match s {
        Some(t) => if t@ == "big"@ {
            Endianness::Big
        } else {
            Endianness::Little
        },
        None => Endianness::Little,
    }
}

/// Character-by-character string comparison.
pub(crate) fn str_eq(a: &str, b: &str) -> (r: bool)
    ensures
        r == (a@ == b@),
{
    let n = a.unicode_len();
    let m = b.unicode_len();
    if n != m {
        proof {
            assert(a@.len() != b@.len());
        }
        return false;
    }
    let mut i: usize = 0;
    while i < n
        invariant
            i <= n,
            n == a@.len(),
            n == b@.len(),
            forall|j: int| 0 <= j < i ==> a@[j] == b@[j],
        decreases n - i,
    {
        if a.get_char(i) != b.get_char(i) {
            return false;
        }
        i = i + 1;
    }
    proof {
        assert(a@ =~= b@);
    }
    true
}

/// Resolves the record-level configuration strings into a concrete policy.
///
/// This is a deliberately permissive resolution, not a validation gate:
/// unspecified or unrecognized values silently fall back to the defaults,
/// little-endian and least-significant-bit-first.
pub fn resolve_policy(endianness: Option<&str>, bit_order: Option<&str>) -> (r: BitOrderPolicy)
    ensures
        r.endianness == endianness_of(endianness),
        r.bit_order == bit_order_of(bit_order),
{
    let e = match endianness {
        Some(s) => if str_eq(s, "big") {
            Endianness::Big
        } else {
            Endianness::Little
        },
        None => Endianness::Little,
    };
    let b = match bit_order {
        Some(s) => if str_eq(s, "msb") {
            BitOrder::Msb
        } else {
            BitOrder::Lsb
        },
        None => BitOrder::Lsb,
    };
    BitOrderPolicy { endianness: e, bit_order: b }
}

}
