//! Decode engine: executes a compiled step list against a bit cursor,
//! producing the decoded field values (or a fully populated named record)
//! or failing fast with the first classified error.

use vstd::prelude::*;
use crate::policy::BitOrder;
use crate::bits::{bit_len, span_val};
use crate::cursor::BitCursor;
use crate::schema::{
    Step, FieldValue, CompiledSchema, raw_value, transformed, steps_wf, step_wf, apply_transform,
};
use crate::ReadError;

verus! {

/// The sum of all read-step widths; skip steps contribute zero bits.
pub open spec fn total_width(steps: Seq<Step>) -> nat
    decreases steps.len(),
{
    if steps.len() == 0 {
        0
    } else {
        (match steps[0] {
            Step::Read { width_bits, .. } => width_bits as nat,
            Step::Skip { .. } => 0nat,
        }) + total_width(steps.drop_first())
    }
}

/// The meaning of a compiled step list over a buffer, starting at a given
/// bit offset: the decoded values in step order together with the final
/// cursor offset, or the first error in step order.  Decoding is a pure
/// function of the step list, the buffer and the bit order: any two decode
/// calls on the same inputs yield this same result.
pub open spec fn run_steps(
    steps: Seq<Step>,
    data: Seq<u8>,
    order: BitOrder,
    offset: nat,
) -> Result<(Seq<FieldValue>, nat), ReadError>
    decreases steps.len(),
{
    if steps.len() == 0 {
        Ok((Seq::empty(), offset))
    } else {
        match steps[0] {
            Step::Skip { default } => match run_steps(steps.drop_first(), data, order, offset) {
                Ok(p) => Ok((seq![default] + p.0, p.1)),
                Err(e) => Err(e),
            },
            Step::Read { width_bits, kind, transform } => if offset + width_bits > bit_len(data) {
                Err(ReadError::OutOfBounds)
            } else {
                match transformed(
                    transform,
                    raw_value(kind, span_val(data, order, offset, width_bits as nat), width_bits as nat),
                ) {
                    Ok(v) => match run_steps(
                        steps.drop_first(),
                        data,
                        order,
                        (offset + width_bits) as nat,
                    ) {
                        Ok(p) => Ok((seq![v] + p.0, p.1)),
                        Err(e) => Err(e),
                    },
                    Err(e) => Err(e),
                }
            },
        }
    }
}

/// A successful run yields exactly one value per step.
pub proof fn lemma_run_len(steps: Seq<Step>, data: Seq<u8>, order: BitOrder, offset: nat)
    requires
        run_steps(steps, data, order, offset) is Ok,
    ensures
        run_steps(steps, data, order, offset)->Ok_0.0.len() == steps.len(),
    decreases steps.len(),
{
    if steps.len() > 0 {
        match steps[0] {
            Step::Skip { .. } => lemma_run_len(steps.drop_first(), data, order, offset),
            Step::Read { width_bits, .. } => lemma_run_len(
                steps.drop_first(),
                data,
                order,
                (offset + width_bits) as nat,
            ),
        }
    }
}

/// What the engine guarantees of a decode result: on success the decoded
/// values are exactly the run's values, on failure the error is exactly
/// the run's error.  `run_steps` is a function of the step list, buffer
/// and bit order alone, so this pins the result completely.
pub open spec fn decode_post(
    steps: Seq<Step>,
    data: Seq<u8>,
    order: BitOrder,
    r: Result<Seq<FieldValue>, ReadError>,
) -> bool {
    match run_steps(steps, data, order, 0) {
        Ok(p) => r == Result::<Seq<FieldValue>, ReadError>::Ok(p.0),
        Err(e) => r == Result::<Seq<FieldValue>, ReadError>::Err(e),
    }
}

/// `r` with `prefix` prepended to its values on success.
pub open spec fn prefixed(
    prefix: Seq<FieldValue>,
    r: Result<(Seq<FieldValue>, nat), ReadError>,
) -> Result<(Seq<FieldValue>, nat), ReadError> {
    match r {
        Ok(p) => Ok((prefix + p.0, p.1)),
        Err(e) => Err(e),
    }
}

/// Executes the compiled steps strictly in order over a fresh cursor at
/// offset 0, returning the decoded values in step order, or the first
/// error with no partial result.  The result is completely determined by
/// `(steps, buffer, bit_order)`: see `run_steps`.
pub fn decode(steps: &Vec<Step>, buffer: &[u8], bit_order: BitOrder) -> (r: Result<
    Vec<FieldValue>,
    ReadError,
>)
    requires
        steps_wf(steps@),
        bit_len(buffer@) <= usize::MAX,
    ensures
        decode_post(
            steps@,
            buffer@,
            bit_order,
            (match r {
                Ok(v) => Ok(v@),
                Err(e) => Err(e),
            }),
        ),
{
    let mut cursor = BitCursor::new(buffer);
    let mut out: Vec<FieldValue> = Vec::new();
    let mut i: usize = 0;
    proof {
        assert(steps@.skip(0) =~= steps@);
        let whole = run_steps(steps@, buffer@, bit_order, 0);
        if whole is Ok {
            assert(Seq::<FieldValue>::empty() + whole->Ok_0.0 =~= whole->Ok_0.0);
        }
    }
    while i < steps.len()
        invariant
            steps_wf(steps@),
            i <= steps@.len(),
            cursor.inv(),
            cursor.data@ == buffer@,
            run_steps(steps@, buffer@, bit_order, 0) == prefixed(
                out@,
                run_steps(steps@.skip(i as int), buffer@, bit_order, cursor.offset as nat),
            ),
        decreases steps@.len() - i,
    {
        proof {
            assert(steps@.skip(i as int)[0] == steps@[i as int]);
            assert(steps@.skip(i as int).drop_first() =~= steps@.skip(i as int + 1));
            assert(step_wf(steps@[i as int]));
        }
        let ghost out0 = out@;
        let ghost off0 = cursor.offset as nat;
        match steps[i] {
            Step::Read { width_bits, kind, transform } => {
                match cursor.read_value(width_bits, kind, bit_order) {
                    Ok(raw) => {
                        match apply_transform(transform, raw) {
                            Ok(value) => {
                                out.push(value);
                                proof {
                                    let rest = run_steps(
                                        steps@.skip(i as int + 1),
                                        buffer@,
                                        bit_order,
                                        cursor.offset as nat,
                                    );
                                    assert(raw == raw_value(
                                        kind,
                                        span_val(buffer@, bit_order, off0, width_bits as nat),
                                        width_bits as nat,
                                    ));
                                    assert(run_steps(steps@.skip(i as int), buffer@, bit_order, off0)
                                        == prefixed(seq![value], rest));
                                    assert(out@ =~= out0 + seq![value]);
                                    if rest is Ok {
                                        assert(out0 + (seq![value] + rest->Ok_0.0) =~= out@
                                            + rest->Ok_0.0);
                                    }
                                    assert(prefixed(out0, prefixed(seq![value], rest)) == prefixed(
                                        out@,
                                        rest,
                                    ));
                                }
                            }
                            Err(e) => {
                                return Err(e);
                            }
                        }
                    }
                    Err(e) => {
                        return Err(e);
                    }
                }
            }
            Step::Skip { default } => {
                out.push(default);
                proof {
                    let rest = run_steps(
                        steps@.skip(i as int + 1),
                        buffer@,
                        bit_order,
                        cursor.offset as nat,
                    );
                    assert(run_steps(steps@.skip(i as int), buffer@, bit_order, off0) == prefixed(
                        seq![default],
                        rest,
                    ));
                    assert(out@ =~= out0 + seq![default]);
                    if rest is Ok {
                        assert(out0 + (seq![default] + rest->Ok_0.0) =~= out@ + rest->Ok_0.0);
                    }
                    assert(prefixed(out0, prefixed(seq![default], rest)) == prefixed(out@, rest));
                }
            }
        }
        i = i + 1;
    }
    proof {
        assert(steps@.skip(steps@.len() as int) =~= Seq::<Step>::empty());
        let whole = run_steps(steps@, buffer@, bit_order, 0);
        if whole is Ok {
            assert(out@ + Seq::<FieldValue>::empty() =~= out@);
        }
    }
    Ok(out)
}

/// One decoded field of a record: the field's name and its value.
#[derive(Debug, PartialEq, Eq)]
pub struct FieldEntry {
    pub name: String,
    pub value: FieldValue,
}

/// A decoded record: an order-preserving mapping from field name to field
/// value, in the schema's declaration order, owned solely by the caller.
#[derive(Debug, PartialEq, Eq)]
pub struct DecodedRecord {
    pub entries: Vec<FieldEntry>,
}

/// The value of the first entry carrying the given field name, if any.
pub open spec fn lookup(entries: Seq<FieldEntry>, name: Seq<char>) -> Option<FieldValue>
    decreases entries.len(),
{
    if entries.len() == 0 {
        None
    } else if entries[0].name@ == name {
        Some(entries[0].value)
    } else {
        lookup(entries.drop_first(), name)
    }
}

impl DecodedRecord {
    /// Looks the named field up, walking the entries in declaration order.
    pub fn get(&self, name: &str) -> (r: Option<FieldValue>)
        ensures
            r == lookup(self.entries@, name@),
    {
        let mut i: usize = 0;
        proof {
            assert(self.entries@.skip(0) =~= self.entries@);
        }
        while i < self.entries.len()
            invariant
                i <= self.entries@.len(),
                lookup(self.entries@, name@) == lookup(self.entries@.skip(i as int), name@),
            decreases self.entries@.len() - i,
        {
            proof {
                assert(self.entries@.skip(i as int)[0] == self.entries@[i as int]);
                assert(self.entries@.skip(i as int).drop_first() =~= self.entries@.skip(
                    i as int + 1,
                ));
            }
            if crate::policy::str_eq(self.entries[i].name.as_str(), name) {
                return Some(self.entries[i].value);
            }
            i = i + 1;
        }
        proof {
            assert(self.entries@.skip(self.entries@.len() as int) =~= Seq::<FieldEntry>::empty());
        }
        None
    }
}

/// Decodes a buffer against a compiled schema, pairing each decoded value
/// with its field's name, in declaration order.
pub fn decode_record(schema: &CompiledSchema, buffer: &[u8]) -> (r: Result<
    DecodedRecord,
    ReadError,
>)
    requires
        schema.wf(),
        bit_len(buffer@) <= usize::MAX,
    ensures
        (match run_steps(schema.steps@, buffer@, schema.bit_order, 0) {
            Ok(p) => r is Ok && r->Ok_0.entries@.len() == p.0.len() && (forall|i: int|
                0 <= i < p.0.len() ==> (#[trigger] r->Ok_0.entries@[i]).value == p.0[i]
                    && r->Ok_0.entries@[i].name == schema.names@[i]),
            Err(e) => r is Err && r->Err_0 == e,
        }),
{
    match decode(&schema.steps, buffer, schema.bit_order) {
        Ok(values) => {
            proof {
                lemma_run_len(schema.steps@, buffer@, schema.bit_order, 0);
            }
            let mut entries: Vec<FieldEntry> = Vec::new();
            let mut i: usize = 0;
            while i < values.len()
                invariant
                    values@.len() == schema.names@.len(),
                    i <= values@.len(),
                    entries@.len() == i,
                    forall|j: int| 0 <= j < i ==> (#[trigger] entries@[j]).value == values@[j]
                        && entries@[j].name == schema.names@[j],
                decreases values@.len() - i,
            {
                entries.push(FieldEntry { name: schema.names[i].clone(), value: values[i] });
                i = i + 1;
            }
            Ok(DecodedRecord { entries })
        }
        Err(e) => Err(e),
    }
}

}
