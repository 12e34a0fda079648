//! Field descriptors and the schema compiler: translates an ordered list of
//! declarative field descriptors into an ordered list of compiled decode
//! steps, resolving the record's policy at this stage so that the decode
//! engine performs no further policy lookups.

use vstd::prelude::*;
use vstd::arithmetic::power2::pow2;
use crate::policy::{BitOrder, BitOrderPolicy};
use crate::bits::{sign_extend, sign_extend_i64};
use crate::ReadError;

verus! {

/// How the raw bits of a field are reinterpreted before any transform.
///
/// The wire width of a field (its `width_bits`) and the logical storage
/// width (`storage_bits`, the bit width of the numeric type the field is
/// declared with) are carried separately; a well-formed field's wire width
/// fits its storage width.  A field whose logical type is floating-point
/// declares the integer kind its raw span is extracted as: raw bit spans
/// never directly represent floating values here, which only arise through
/// value transforms applied, outside this core, to the extracted integers.
#[derive(Clone, Copy, Debug, PartialEq, Eq, Structural)]
pub enum TargetKind {
    Bool,
    Unsigned { storage_bits: usize },
    Signed { storage_bits: usize },
}

/// A pure value transform applied to the raw extracted value.
#[derive(Clone, Copy, Debug, PartialEq, Eq, Structural)]
pub enum Transform {
    /// Multiply an unsigned raw value by a constant factor.
    Scale { factor: u64 },
}

/// A decoded field value: the raw extraction reinterpreted by the field's
/// target kind, after any transform.
#[derive(Clone, Copy, Debug, PartialEq, Eq, Structural)]
pub enum FieldValue {
    Bool(bool),
    Unsigned(u64),
    Signed(i64),
}

/// The declarative data model for one record field.
pub struct FieldDescriptor {
    pub name: String,
    /// Number of bits the field occupies on the wire; 0 is a degenerate
    /// no-op field that resolves to the kind's zero value.
    pub width_bits: usize,
    pub kind: TargetKind,
    pub transform: Option<Transform>,
    /// A skipped field consumes zero bits and is populated from `default`,
    /// or from the kind's zero value when no default is given.
    pub skip: bool,
    pub default: Option<FieldValue>,
}

/// A compiled, buffer-independent decode instruction: read a span and
/// convert it, or populate a default without touching the cursor.
#[derive(Clone, Copy, Debug)]
pub enum Step {
    Read { width_bits: usize, kind: TargetKind, transform: Option<Transform> },
    Skip { default: FieldValue },
}

/// The zero value of a target kind.
pub open spec fn zero_value(kind: TargetKind) -> FieldValue {
    match kind {
        TargetKind::Bool => FieldValue::Bool(false),
        TargetKind::Unsigned { .. } => FieldValue::Unsigned(0),
        TargetKind::Signed { .. } => FieldValue::Signed(0),
    }
}

/// How a raw `width`-bit span value is reinterpreted as a target kind:
/// unsigned values pass through, signed values get two's-complement sign
/// extension based on the field's bit width, and a boolean is the span
/// compared against zero (for a 1-bit field, exactly the addressed bit).
pub open spec fn raw_value(kind: TargetKind, v: nat, width: nat) -> FieldValue
    recommends
        v < pow2(width),
        width <= 64,
{
    match kind {
        TargetKind::Bool => FieldValue::Bool(v != 0),
        TargetKind::Unsigned { .. } => FieldValue::Unsigned(v as u64),
        TargetKind::Signed { .. } => FieldValue::Signed(sign_extend(v, width) as i64),
    }
}

/// The result of applying an optional transform: absent transforms pass the
/// value through; a scale transform multiplies an unsigned value, failing
/// on overflow or on a value of any other kind.
pub open spec fn transformed(t: Option<Transform>, v: FieldValue) -> Result<FieldValue, ReadError> {
    match t {
        None => Ok(v),
        Some(Transform::Scale { factor }) => match v {
            FieldValue::Unsigned(u) => if u * factor <= u64::MAX {
                Ok(FieldValue::Unsigned((u * factor) as u64))
            } else {
                Err(ReadError::TransformFailure)
            },
            FieldValue::Bool(_) => Err(ReadError::TransformFailure),
            FieldValue::Signed(_) => Err(ReadError::TransformFailure),
        },
    }
}

/// Internal consistency of a field's widths: the wire width fits the
/// declared storage width, which fits the widest machine value.
pub open spec fn kind_wf(width_bits: usize, kind: TargetKind) -> bool {
    match kind {
        TargetKind::Bool => width_bits <= 64,
        TargetKind::Unsigned { storage_bits } => width_bits <= storage_bits && storage_bits <= 64,
        TargetKind::Signed { storage_bits } => width_bits <= storage_bits && storage_bits <= 64,
    }
}

pub open spec fn step_wf(s: Step) -> bool {
    match s {
        Step::Read { width_bits, kind, .. } => kind_wf(width_bits, kind),
        Step::Skip { .. } => true,
    }
}

pub open spec fn steps_wf(steps: Seq<Step>) -> bool {
    forall|i: int| 0 <= i < steps.len() ==> step_wf(#[trigger] steps[i])
}

/// A descriptor is well formed when it is skipped (it then consumes no
/// bits) or its widths are internally consistent.
pub open spec fn desc_wf(d: FieldDescriptor) -> bool {
    d.skip || kind_wf(d.width_bits, d.kind)
}

pub open spec fn descs_wf(ds: Seq<FieldDescriptor>) -> bool {
    forall|i: int| 0 <= i < ds.len() ==> desc_wf(#[trigger] ds[i])
}

/// The step a descriptor compiles to: a skipped field becomes a skip step
/// carrying its default (or the kind's zero value), any other field becomes
/// a read step.
pub open spec fn compiled_step(d: FieldDescriptor) -> Step {
    if d.skip {
        Step::Skip {
            default: match d.default {
                Some(v) => v,
                None => zero_value(d.kind),
            },
        }
    } else {
        Step::Read { width_bits: d.width_bits, kind: d.kind, transform: d.transform }
    }
}

/// The zero value of a target kind.
pub fn zero_of(kind: TargetKind) -> (r: FieldValue)
    ensures
        r == zero_value(kind),
{
    match kind {
        TargetKind::Bool => FieldValue::Bool(false),
        TargetKind::Unsigned { .. } => FieldValue::Unsigned(0),
        TargetKind::Signed { .. } => FieldValue::Signed(0),
    }
}

/// Reinterprets a raw span value according to the target kind.
pub fn make_raw(kind: TargetKind, v: u64, width: usize) -> (r: FieldValue)
    requires
        width <= 64,
        (v as nat) < pow2(width as nat),
    ensures
        r == raw_value(kind, v as nat, width as nat),
{
    match kind {
        TargetKind::Bool => FieldValue::Bool(v != 0),
        TargetKind::Unsigned { .. } => FieldValue::Unsigned(v),
        TargetKind::Signed { .. } => FieldValue::Signed(sign_extend_i64(v, width)),
    }
}

/// Applies an optional transform to a decoded value.
pub fn apply_transform(t: Option<Transform>, v: FieldValue) -> (r: Result<FieldValue, ReadError>)
    ensures
        r == transformed(t, v),
{
    match t {
        None => Ok(v),
        Some(Transform::Scale { factor }) => match v {
            FieldValue::Unsigned(u) => match u.checked_mul(factor) {
                Some(p) => Ok(FieldValue::Unsigned(p)),
                None => Err(ReadError::TransformFailure),
            },
            FieldValue::Bool(_) => Err(ReadError::TransformFailure),
            FieldValue::Signed(_) => Err(ReadError::TransformFailure),
        },
    }
}

/// A compiled schema: one step per declared field, in declaration order,
/// paired with the field names and the record's resolved bit order.  It is
/// immutable after compilation and safely shareable across decode calls.
pub struct CompiledSchema {
    pub names: Vec<String>,
    pub steps: Vec<Step>,
    pub bit_order: BitOrder,
}

impl CompiledSchema {
    pub open spec fn wf(self) -> bool {
        self.names@.len() == self.steps@.len() && steps_wf(self.steps@)
    }
}

/// Translates ordered field descriptors into ordered compiled steps, one
/// step per descriptor, in declaration order; the record's policy is
/// resolved here.  No bounds checking happens at this stage: buffer lengths
/// are unknown until decode time.
pub fn compile(descs: &Vec<FieldDescriptor>, policy: &BitOrderPolicy) -> (r: CompiledSchema)
    ensures
        r.steps@.len() == descs@.len(),
        forall|i: int| 0 <= i < descs@.len() ==> r.steps@[i] == compiled_step(#[trigger] descs@[i]),
        r.names@.len() == descs@.len(),
        forall|i: int| 0 <= i < descs@.len() ==> r.names@[i] == (#[trigger] descs@[i]).name,
        r.bit_order == policy.bit_order,
        descs_wf(descs@) ==> r.wf(),
{
    let mut names: Vec<String> = Vec::new();
    let mut steps: Vec<Step> = Vec::new();
    let mut i: usize = 0;
    while i < descs.len()
        invariant
            i <= descs@.len(),
            names@.len() == i,
            steps@.len() == i,
            forall|j: int| 0 <= j < i ==> steps@[j] == compiled_step(#[trigger] descs@[j]),
            forall|j: int| 0 <= j < i ==> names@[j] == (#[trigger] descs@[j]).name,
        decreases descs@.len() - i,
    {
        let name = descs[i].name.clone();
        let step = if descs[i].skip {
            let default = match descs[i].default {
                Some(v) => v,
                None => zero_of(descs[i].kind),
            };
            Step::Skip { default }
        } else {
            Step::Read {
                width_bits: descs[i].width_bits,
                kind: descs[i].kind,
                transform: descs[i].transform,
            }
        };
        names.push(name);
        steps.push(step);
        i = i + 1;
    }
    proof {
        if descs_wf(descs@) {
            assert forall|j: int| 0 <= j < steps@.len() implies step_wf(#[trigger] steps@[j]) by {
                assert(desc_wf(descs@[j]));
            }
        }
    }
    CompiledSchema { names, steps, bit_order: policy.bit_order }
}

}
