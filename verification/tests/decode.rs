use bitread::cursor::BitCursor;
use bitread::engine::{decode, decode_record};
use bitread::policy::{resolve_policy, BitOrder, Endianness};
use bitread::schema::{
    compile, CompiledSchema, FieldDescriptor, FieldValue, Step, TargetKind, Transform,
};
use bitread::{BitRead, ReadError};

fn desc(
    name: &str,
    width_bits: usize,
    kind: TargetKind,
    transform: Option<Transform>,
) -> FieldDescriptor {
    FieldDescriptor { name: name.to_string(), width_bits, kind, transform, skip: false, default: None }
}

fn as_bool(v: FieldValue) -> bool {
    match v {
        FieldValue::Bool(b) => b,
        _ => panic!("expected a boolean field"),
    }
}

fn as_u64(v: FieldValue) -> u64 {
    match v {
        FieldValue::Unsigned(u) => u,
        _ => panic!("expected an unsigned field"),
    }
}

fn as_i64(v: FieldValue) -> i64 {
    match v {
        FieldValue::Signed(s) => s,
        _ => panic!("expected a signed field"),
    }
}

#[derive(Debug, PartialEq)]
struct PositionWithInactivityTimer {
    last_fix_failed: bool,
    latitude_degrees: f64,
    longitude_degrees: f64,
    in_trip: bool,
    timestamp: u8,
    battery_critical: bool,
    inactivity_indicator_alarm: bool,
    inactivity_timer_minutes: u32,
    battery_voltage_volts: f64,
    heading_degrees: u32,
    speed_kmh: u32,
}

fn position_schema() -> CompiledSchema {
    let policy = resolve_policy(Some("little"), Some("lsb"));
    let descs = vec![
        desc("last_fix_failed", 1, TargetKind::Bool, None),
        desc("latitude_degrees", 23, TargetKind::Signed { storage_bits: 32 }, None),
        desc("longitude_degrees", 24, TargetKind::Signed { storage_bits: 32 }, None),
        desc("in_trip", 1, TargetKind::Bool, None),
        desc("timestamp", 7, TargetKind::Unsigned { storage_bits: 8 }, None),
        desc("battery_critical", 1, TargetKind::Bool, None),
        desc("inactivity_indicator_alarm", 1, TargetKind::Bool, None),
        desc(
            "inactivity_timer_minutes",
            14,
            TargetKind::Unsigned { storage_bits: 16 },
            Some(Transform::Scale { factor: 2 }),
        ),
        desc("battery_voltage_volts", 8, TargetKind::Unsigned { storage_bits: 8 }, None),
        desc(
            "heading_degrees",
            3,
            TargetKind::Unsigned { storage_bits: 8 },
            Some(Transform::Scale { factor: 45 }),
        ),
        desc(
            "speed_kmh",
            5,
            TargetKind::Unsigned { storage_bits: 8 },
            Some(Transform::Scale { factor: 5 }),
        ),
    ];
    compile(&descs, &policy)
}

impl BitRead for PositionWithInactivityTimer {
    fn read_from(data: &[u8]) -> Result<Self, ReadError> {
        let schema = position_schema();
        let values = decode(&schema.steps, data, schema.bit_order)?;
        Ok(PositionWithInactivityTimer {
            last_fix_failed: as_bool(values[0]),
            latitude_degrees: as_i64(values[1]) as f64 * (180.0 / ((1 << 23) as f64)),
            longitude_degrees: as_i64(values[2]) as f64 * (360.0 / ((1 << 24) as f64)),
            in_trip: as_bool(values[3]),
            timestamp: as_u64(values[4]) as u8,
            battery_critical: as_bool(values[5]),
            inactivity_indicator_alarm: as_bool(values[6]),
            inactivity_timer_minutes: as_u64(values[7]) as u32,
            battery_voltage_volts: 3.5 + as_u64(values[8]) as f64 * 0.032,
            heading_degrees: as_u64(values[9]) as u32,
            speed_kmh: as_u64(values[10]) as u32,
        })
    }
}

// Uplink Port 33: Position w/ Inactivity Timer
#[test]
fn test_parse_position_with_inactivity_timer() {
    let data = vec![
        0xE8, // Last fix failed (0), 23 bit latitude (remaining bits)
        0x25, // 23 bit latitude (continued)
        0xF4, // 23 bit latitude (continued)
        0x9B, // 24 bit longitude
        0x9E, // 24 bit longitude (continued)
        0x87, // 24 bit longitude (continued), In trip (1), Timestamp (remaining bits)
        0x2B, // Timestamp (continued), Battery critical (0), Inactivity indicator alarm (1)
        0x6A, // Inactivity timer (lower bits)
        0x99, // Inactivity timer (upper bits)
        0x2A, // Battery voltage
        0xAB, // Heading, Speed
    ];

    let position_with_inactivity_timer =
        PositionWithInactivityTimer::read_from(data.as_slice()).unwrap();

    assert_eq!(
        position_with_inactivity_timer,
        PositionWithInactivityTimer {
            last_fix_failed: false,
            latitude_degrees: -8.33338737487793,
            longitude_degrees: -169.28500413894653,
            in_trip: true,
            timestamp: 21,
            battery_critical: false,
            inactivity_indicator_alarm: true,
            inactivity_timer_minutes: 19636,
            battery_voltage_volts: 4.844,
            heading_degrees: 135,
            speed_kmh: 105,
        }
    );
}

#[test]
fn decode_twice_yields_identical_results() {
    let data = vec![0xE8, 0x25, 0xF4, 0x9B, 0x9E, 0x87, 0x2B, 0x6A, 0x99, 0x2A, 0xAB];
    let schema = position_schema();
    let first = decode(&schema.steps, data.as_slice(), schema.bit_order);
    let second = decode(&schema.steps, data.as_slice(), schema.bit_order);
    assert_eq!(first, second);
    assert!(first.is_ok());
}

#[test]
fn bit_order_changes_multibit_value() {
    let data = [0xE8u8, 0x25u8];
    let steps = vec![Step::Read {
        width_bits: 12,
        kind: TargetKind::Unsigned { storage_bits: 16 },
        transform: None,
    }];
    let lsb = decode(&steps, &data, BitOrder::Lsb).unwrap();
    let msb = decode(&steps, &data, BitOrder::Msb).unwrap();
    assert_eq!(lsb, vec![FieldValue::Unsigned(1512)]);
    assert_eq!(msb, vec![FieldValue::Unsigned(3714)]);
    assert_ne!(lsb, msb);
}

#[test]
fn zero_width_field_is_a_noop() {
    let data: [u8; 0] = [];
    let steps = vec![
        Step::Read { width_bits: 0, kind: TargetKind::Bool, transform: None },
        Step::Read { width_bits: 0, kind: TargetKind::Unsigned { storage_bits: 8 }, transform: None },
        Step::Read { width_bits: 0, kind: TargetKind::Signed { storage_bits: 8 }, transform: None },
    ];
    let values = decode(&steps, &data, BitOrder::Lsb).unwrap();
    assert_eq!(
        values,
        vec![FieldValue::Bool(false), FieldValue::Unsigned(0), FieldValue::Signed(0)]
    );
}

#[test]
fn skip_field_consumes_no_bits() {
    let data = [0xABu8];
    let read_step = Step::Read {
        width_bits: 8,
        kind: TargetKind::Unsigned { storage_bits: 8 },
        transform: None,
    };
    let with_skip = vec![Step::Skip { default: FieldValue::Unsigned(7) }, read_step];
    let without_skip = vec![read_step];
    let got = decode(&with_skip, &data, BitOrder::Lsb).unwrap();
    let base = decode(&without_skip, &data, BitOrder::Lsb).unwrap();
    assert_eq!(got, vec![FieldValue::Unsigned(7), FieldValue::Unsigned(0xAB)]);
    assert_eq!(base, vec![FieldValue::Unsigned(0xAB)]);
}

#[test]
fn skipped_descriptor_without_default_uses_zero_value() {
    let policy = resolve_policy(None, None);
    let descs = vec![FieldDescriptor {
        name: "reserved".to_string(),
        width_bits: 9,
        kind: TargetKind::Signed { storage_bits: 16 },
        transform: None,
        skip: true,
        default: None,
    }];
    let schema = compile(&descs, &policy);
    let values = decode(&schema.steps, &[], schema.bit_order).unwrap();
    assert_eq!(values, vec![FieldValue::Signed(0)]);
}

#[test]
fn out_of_bounds_fails_without_partial_result() {
    let data = [0xFFu8];
    let steps = vec![
        Step::Read { width_bits: 8, kind: TargetKind::Unsigned { storage_bits: 8 }, transform: None },
        Step::Read { width_bits: 1, kind: TargetKind::Bool, transform: None },
    ];
    assert_eq!(decode(&steps, &data, BitOrder::Lsb), Err(ReadError::OutOfBounds));
}

#[test]
fn transform_overflow_fails() {
    let data = [0xFFu8];
    let steps = vec![Step::Read {
        width_bits: 8,
        kind: TargetKind::Unsigned { storage_bits: 8 },
        transform: Some(Transform::Scale { factor: u64::MAX }),
    }];
    assert_eq!(decode(&steps, &data, BitOrder::Lsb), Err(ReadError::TransformFailure));
}

#[test]
fn transform_on_non_unsigned_value_fails() {
    let data = [0x01u8];
    let steps = vec![Step::Read {
        width_bits: 1,
        kind: TargetKind::Bool,
        transform: Some(Transform::Scale { factor: 2 }),
    }];
    assert_eq!(decode(&steps, &data, BitOrder::Lsb), Err(ReadError::TransformFailure));
}

#[test]
fn single_bit_bool_matches_single_bit_uint() {
    let data = [0xA5u8];
    for order in [BitOrder::Lsb, BitOrder::Msb] {
        for skip_bits in 0..8usize {
            let as_bool_steps = vec![
                Step::Skip { default: FieldValue::Unsigned(0) },
                Step::Read { width_bits: skip_bits, kind: TargetKind::Unsigned { storage_bits: 8 }, transform: None },
                Step::Read { width_bits: 1, kind: TargetKind::Bool, transform: None },
            ];
            let as_uint_steps = vec![
                Step::Skip { default: FieldValue::Unsigned(0) },
                Step::Read { width_bits: skip_bits, kind: TargetKind::Unsigned { storage_bits: 8 }, transform: None },
                Step::Read { width_bits: 1, kind: TargetKind::Unsigned { storage_bits: 8 }, transform: None },
            ];
            let b = decode(&as_bool_steps, &data, order).unwrap();
            let u = decode(&as_uint_steps, &data, order).unwrap();
            assert_eq!(as_bool(b[2]), as_u64(u[2]) != 0);
        }
    }
}

#[test]
fn signed_fields_sign_extend_by_field_width() {
    let data = [0x0Fu8];
    let narrow = vec![Step::Read {
        width_bits: 4,
        kind: TargetKind::Signed { storage_bits: 8 },
        transform: None,
    }];
    let wide = vec![Step::Read {
        width_bits: 5,
        kind: TargetKind::Signed { storage_bits: 8 },
        transform: None,
    }];
    assert_eq!(decode(&narrow, &data, BitOrder::Lsb).unwrap(), vec![FieldValue::Signed(-1)]);
    assert_eq!(decode(&wide, &data, BitOrder::Lsb).unwrap(), vec![FieldValue::Signed(15)]);
}

#[test]
fn scale_transform_multiplies_exactly() {
    let data = [0x07u8];
    let steps = vec![Step::Read {
        width_bits: 3,
        kind: TargetKind::Unsigned { storage_bits: 8 },
        transform: Some(Transform::Scale { factor: 45 }),
    }];
    assert_eq!(decode(&steps, &data, BitOrder::Lsb).unwrap(), vec![FieldValue::Unsigned(315)]);
}

#[test]
fn policy_defaults_to_little_lsb() {
    let p = resolve_policy(None, None);
    assert_eq!(p.endianness, Endianness::Little);
    assert_eq!(p.bit_order, BitOrder::Lsb);
}

#[test]
fn policy_recognizes_big_and_msb() {
    let p = resolve_policy(Some("big"), Some("msb"));
    assert_eq!(p.endianness, Endianness::Big);
    assert_eq!(p.bit_order, BitOrder::Msb);
}

#[test]
fn policy_falls_back_on_unrecognized_values() {
    let p = resolve_policy(Some("middle"), Some("MSB"));
    assert_eq!(p.endianness, Endianness::Little);
    assert_eq!(p.bit_order, BitOrder::Lsb);
}

#[test]
fn decode_record_pairs_names_with_values_in_order() {
    let policy = resolve_policy(None, None);
    let descs = vec![
        desc("flag", 1, TargetKind::Bool, None),
        desc("count", 7, TargetKind::Unsigned { storage_bits: 8 }, None),
    ];
    let schema = compile(&descs, &policy);
    let record = decode_record(&schema, &[0xABu8]).unwrap();
    assert_eq!(record.entries.len(), 2);
    assert_eq!(record.entries[0].name, "flag");
    assert_eq!(record.entries[0].value, FieldValue::Bool(true));
    assert_eq!(record.entries[1].name, "count");
    assert_eq!(record.entries[1].value, FieldValue::Unsigned(0x55));
}

#[test]
fn record_lookup_finds_fields_by_name() {
    let policy = resolve_policy(None, None);
    let descs = vec![
        desc("flag", 1, TargetKind::Bool, None),
        desc("count", 7, TargetKind::Unsigned { storage_bits: 8 }, None),
    ];
    let schema = compile(&descs, &policy);
    let record = decode_record(&schema, &[0xABu8]).unwrap();
    assert_eq!(record.get("flag"), Some(FieldValue::Bool(true)));
    assert_eq!(record.get("count"), Some(FieldValue::Unsigned(0x55)));
    assert_eq!(record.get("missing"), None);
}

#[test]
fn decode_record_propagates_errors() {
    let policy = resolve_policy(None, None);
    let descs = vec![desc("wide", 16, TargetKind::Unsigned { storage_bits: 16 }, None)];
    let schema = compile(&descs, &policy);
    assert_eq!(decode_record(&schema, &[0x00u8]), Err(ReadError::OutOfBounds));
}

#[test]
fn cursor_offset_advances_by_exactly_the_read_width() {
    let data = [0xFFu8, 0x00u8];
    let mut cursor = BitCursor::new(&data);
    assert_eq!(cursor.offset, 0);
    let first = cursor.read_bits(3, BitOrder::Lsb).unwrap();
    assert_eq!(first, 0b111);
    assert_eq!(cursor.offset, 3);
    let second = cursor.read_bits(5, BitOrder::Lsb).unwrap();
    assert_eq!(second, 0b11111);
    assert_eq!(cursor.offset, 8);
    let zero = cursor.read_bits(0, BitOrder::Lsb).unwrap();
    assert_eq!(zero, 0);
    assert_eq!(cursor.offset, 8);
    assert_eq!(cursor.read_bits(9, BitOrder::Lsb), Err(ReadError::OutOfBounds));
    assert_eq!(cursor.offset, 8);
    cursor.advance(8);
    assert_eq!(cursor.offset, 16);
}
