//! Properties of the decode engine, proved once and for all over the
//! engine's specification `run_steps`.

use vstd::prelude::*;
use crate::policy::BitOrder;
use crate::bits::{bit_len, span_val, bit_at};
use crate::schema::{Step, FieldValue, TargetKind, raw_value, zero_value};
use crate::engine::{run_steps, total_width, decode_post};
use crate::ReadError;

verus! {

/// Determinism: decoding is a pure, single-pass function of the step
/// list, the buffer and the bit order — any two results that the decode
/// engine's contract admits for the same inputs are identical.
pub proof fn lemma_decode_deterministic(
    steps: Seq<Step>,
    data: Seq<u8>,
    order: BitOrder,
    r1: Result<Seq<FieldValue>, ReadError>,
    r2: Result<Seq<FieldValue>, ReadError>,
)
    requires
        decode_post(steps, data, order, r1),
        decode_post(steps, data, order, r2),
    ensures
        r1 == r2,
{
}

/// Offset conservation: a successful run's final cursor offset is the
/// starting offset plus the sum of all read-step widths (skip steps
/// contribute zero), and that offset never exceeds the buffer's bit
/// length.
pub proof fn lemma_offset_conservation(
    steps: Seq<Step>,
    data: Seq<u8>,
    order: BitOrder,
    offset: nat,
)
    requires
        offset <= bit_len(data),
        run_steps(steps, data, order, offset) is Ok,
    ensures
        run_steps(steps, data, order, offset)->Ok_0.1 == offset + total_width(steps),
        offset + total_width(steps) <= bit_len(data),
    decreases steps.len(),
{
    if steps.len() > 0 {
        match steps[0] {
            Step::Skip { .. } => {
                lemma_offset_conservation(steps.drop_first(), data, order, offset);
            }
            Step::Read { width_bits, .. } => {
                lemma_offset_conservation(
                    steps.drop_first(),
                    data,
                    order,
                    (offset + width_bits) as nat,
                );
            }
        }
    }
}

/// Out of bounds: when the total declared bit width runs past the buffer's
/// bit length, the run fails — no truncated result is ever produced — and
/// unless an earlier step's transform already failed, the error is
/// `OutOfBounds`.
pub proof fn lemma_out_of_bounds(steps: Seq<Step>, data: Seq<u8>, order: BitOrder, offset: nat)
    requires
        offset <= bit_len(data),
        offset + total_width(steps) > bit_len(data),
    ensures
        run_steps(steps, data, order, offset) is Err,
        run_steps(steps, data, order, offset) != Result::<(Seq<FieldValue>, nat), ReadError>::Err(
            ReadError::TransformFailure,
        ) ==> run_steps(steps, data, order, offset) == Result::<
            (Seq<FieldValue>, nat),
            ReadError,
        >::Err(ReadError::OutOfBounds),
    decreases steps.len(),
{
    if steps.len() > 0 {
        match steps[0] {
            Step::Skip { .. } => {
                lemma_out_of_bounds(steps.drop_first(), data, order, offset);
            }
            Step::Read { width_bits, .. } => {
                if offset + width_bits <= bit_len(data) {
                    lemma_out_of_bounds(
                        steps.drop_first(),
                        data,
                        order,
                        (offset + width_bits) as nat,
                    );
                }
            }
        }
    }
}

/// Skip purity: a skip step never touches the cursor, so inserting one
/// anywhere in a step list adds exactly its own default value to the
/// decoded values and changes nothing else — not the other fields'
/// extracted bits, not the final offset, and not the outcome.
pub proof fn lemma_skip_purity(
    steps: Seq<Step>,
    i: int,
    default: FieldValue,
    data: Seq<u8>,
    order: BitOrder,
    offset: nat,
)
    requires
        0 <= i <= steps.len(),
    ensures
        run_steps(steps.insert(i, Step::Skip { default }), data, order, offset) == (
        match run_steps(steps, data, order, offset) {
            Ok(p) => Ok::<(Seq<FieldValue>, nat), ReadError>((p.0.insert(i, default), p.1)),
            Err(e) => Err(e),
        }),
    decreases steps.len(),
{
    let with = steps.insert(i, Step::Skip { default });
    if i == 0 {
        assert(with[0] == Step::Skip { default });
        assert(with.drop_first() =~= steps);
        match run_steps(steps, data, order, offset) {
            Ok(p) => {
                assert(seq![default] + p.0 =~= p.0.insert(0, default));
            }
            Err(_) => {}
        }
    } else {
        assert(steps.len() > 0);
        assert(with[0] == steps[0]);
        assert(with.drop_first() =~= steps.drop_first().insert(i - 1, Step::Skip { default }));
        match steps[0] {
            Step::Skip { default: d0 } => {
                lemma_skip_purity(steps.drop_first(), i - 1, default, data, order, offset);
                match run_steps(steps.drop_first(), data, order, offset) {
                    Ok(p) => {
                        crate::engine::lemma_run_len(steps.drop_first(), data, order, offset);
                        assert(seq![d0] + p.0.insert(i - 1, default) =~= (seq![d0] + p.0).insert(
                            i,
                            default,
                        ));
                    }
                    Err(_) => {}
                }
            }
            Step::Read { width_bits, kind, transform } => {
                if offset + width_bits <= bit_len(data) {
                    lemma_skip_purity(
                        steps.drop_first(),
                        i - 1,
                        default,
                        data,
                        order,
                        (offset + width_bits) as nat,
                    );
                    match run_steps(
                        steps.drop_first(),
                        data,
                        order,
                        (offset + width_bits) as nat,
                    ) {
                        Ok(p) => {
                            crate::engine::lemma_run_len(
                                steps.drop_first(),
                                data,
                                order,
                                (offset + width_bits) as nat,
                            );
                            let v = raw_value(
                                kind,
                                span_val(data, order, offset, width_bits as nat),
                                width_bits as nat,
                            );
                            match crate::schema::transformed(transform, v) {
                                Ok(w) => {
                                    assert(seq![w] + p.0.insert(i - 1, default) =~= (seq![w]
                                        + p.0).insert(i, default));
                                }
                                Err(_) => {}
                            }
                        }
                        Err(_) => {}
                    }
                }
            }
        }
    }
}

/// Zero-width no-op: a field of width 0 always decodes to its kind's zero
/// value and leaves the cursor offset unchanged, regardless of the buffer
/// contents — the read step behaves exactly like a skip step carrying the
/// zero value.
pub proof fn lemma_zero_width_noop(
    rest: Seq<Step>,
    kind: TargetKind,
    data: Seq<u8>,
    order: BitOrder,
    offset: nat,
)
    requires
        offset <= bit_len(data),
    ensures
        run_steps(
            seq![Step::Read { width_bits: 0, kind, transform: None }] + rest,
            data,
            order,
            offset,
        ) == run_steps(seq![Step::Skip { default: zero_value(kind) }] + rest, data, order, offset),
{
    let reads = seq![Step::Read { width_bits: 0, kind, transform: None }] + rest;
    let skips = seq![Step::Skip { default: zero_value(kind) }] + rest;
    assert(reads[0] == Step::Read { width_bits: 0, kind, transform: None });
    assert(skips[0] == Step::Skip { default: zero_value(kind) });
    assert(reads.drop_first() =~= rest);
    assert(skips.drop_first() =~= rest);
    assert(span_val(data, order, offset, 0) == 0);
    assert(raw_value(kind, 0, 0) == zero_value(kind));
}

/// Single-bit boolean equivalence: a 1-bit span holds 1 exactly when its
/// addressed bit is set, so extracting it as a boolean equals extracting
/// it as a 1-bit unsigned integer and comparing against zero.
pub proof fn lemma_single_bit_bool(
    data: Seq<u8>,
    order: BitOrder,
    offset: nat,
    storage_bits: usize,
)
    ensures
        ({
            let v = span_val(data, order, offset, 1);
            &&& raw_value(TargetKind::Bool, v, 1) == FieldValue::Bool(v != 0)
            &&& raw_value(TargetKind::Bool, v, 1) == FieldValue::Bool(bit_at(data, order, offset))
            &&& raw_value(TargetKind::Unsigned { storage_bits }, v, 1) == FieldValue::Unsigned(
                if bit_at(data, order, offset) {
                    1
                } else {
                    0
                },
            )
        }),
{
    assert(span_val(data, order, (offset + 1) as nat, 0) == 0);
    assert(span_val(data, order, offset, 0) == 0);
    assert(span_val(data, order, offset, 1) == (if bit_at(data, order, offset) {
        1nat
    } else {
        0nat
    }));
}

}
