//! Bit cursor: a stateful view over a borrowed byte buffer plus a bit
//! offset, the fundamental primitive all field reads compose from.

use vstd::prelude::*;
use crate::policy::BitOrder;
use crate::bits::{bit_len, span_val, read_span, lemma_span_val_bound};
use crate::schema::{TargetKind, FieldValue, raw_value, make_raw};
use crate::ReadError;

verus! {

/// A read position, in bits, over a read-only byte buffer.  The buffer is
/// borrowed for the duration of one decode call and never copied or
/// mutated.
pub struct BitCursor<'a> {
    pub data: &'a [u8],
    pub offset: usize,
}

impl<'a> BitCursor<'a> {
    /// The cursor's offset never exceeds the buffer's bit length, and the
    /// buffer is small enough that every one of its bits has a `usize`
    /// index.
    pub open spec fn inv(self) -> bool {
        self.offset <= bit_len(self.data@) && bit_len(self.data@) <= usize::MAX
    }

    /// A fresh cursor over `data`, at bit offset 0.
    pub fn new(data: &'a [u8]) -> (r: Self)
        requires
            bit_len(data@) <= usize::MAX,
        ensures
            r.data@ == data@,
            r.offset == 0,
            r.inv(),
    {
        BitCursor { data, offset: 0 }
    }

    /// Extracts `width` consecutive bits at the current offset as an
    /// unsigned value and advances the offset by exactly `width`; when the
    /// span would run past the buffer's bit length, fails with
    /// `OutOfBounds` and leaves the offset unchanged.
    pub fn read_bits(&mut self, width: usize, order: BitOrder) -> (r: Result<u64, ReadError>)
        requires
            old(self).inv(),
            width <= 64,
        ensures
            final(self).data@ == old(self).data@,
            final(self).inv(),
            old(self).offset + width <= bit_len(old(self).data@) ==> ({
                &&& r is Ok
                &&& r->Ok_0 as nat == span_val(
                    old(self).data@,
                    order,
                    old(self).offset as nat,
                    width as nat,
                )
                &&& final(self).offset == old(self).offset + width
            }),
            old(self).offset + width > bit_len(old(self).data@) ==> ({
                &&& r == Result::<u64, ReadError>::Err(ReadError::OutOfBounds)
                &&& final(self).offset == old(self).offset
            }),
    {
        let blen = self.data.len() * 8;
        if width > blen - self.offset {
            Err(ReadError::OutOfBounds)
        } else {
            let v = read_span(self.data, order, self.offset, width);
            self.offset = self.offset + width;
            Ok(v)
        }
    }

    /// Reads `width` bits at the current offset as a value of the target
    /// kind and advances by `width`: the span is extracted as an unsigned
    /// value under the bit order and reinterpreted by the kind (pass
    /// through, sign extension, or comparison against zero).
    pub fn read_value(&mut self, width: usize, kind: TargetKind, order: BitOrder) -> (r: Result<
        FieldValue,
        ReadError,
    >)
        requires
            old(self).inv(),
            width <= 64,
        ensures
            final(self).data@ == old(self).data@,
            final(self).inv(),
            old(self).offset + width <= bit_len(old(self).data@) ==> ({
                &&& r is Ok
                &&& r->Ok_0 == raw_value(
                    kind,
                    span_val(old(self).data@, order, old(self).offset as nat, width as nat),
                    width as nat,
                )
                &&& final(self).offset == old(self).offset + width
            }),
            old(self).offset + width > bit_len(old(self).data@) ==> ({
                &&& r == Result::<FieldValue, ReadError>::Err(ReadError::OutOfBounds)
                &&& final(self).offset == old(self).offset
            }),
    {
        let ghost off0 = self.offset as nat;
        match self.read_bits(width, order) {
            Ok(v) => {
                proof {
                    lemma_span_val_bound(self.data@, order, off0, width as nat);
                }
                Ok(make_raw(kind, v, width))
            }
            Err(e) => Err(e),
        }
    }

    /// Moves the offset forward by `width` bits without reading.
    pub fn advance(&mut self, width: usize)
        requires
            old(self).inv(),
            old(self).offset + width <= bit_len(old(self).data@),
        ensures
            final(self).data@ == old(self).data@,
            final(self).offset == old(self).offset + width,
            final(self).inv(),
    {
        self.offset = self.offset + width;
    }
}

}
