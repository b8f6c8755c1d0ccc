//! Values, member sequences, defaults, labels and the pin color split.

use flowvm::display::{split_u64_to_u8s, TraitExtTuple};
use flowvm::graph::BreakdownType;
use flowvm::types::{AccessMode, Literal, StructDef, Ty, TypeRegistry};
use flowvm::value::{default_value, Fields, Value};

#[test]
fn members_round_trip_through_the_linked_sequence() {
    let items = vec![Value::I32(1), Value::Text(String::from("two")), Value::I32(3)];
    let f = Fields::from_vec(&items);
    assert_eq!(f.to_vec(), items);
    assert_eq!(f.try_get(1), Some(&Value::Text(String::from("two"))));
    assert_eq!(f.try_get(3), None);
}

#[test]
fn updating_a_member_replaces_exactly_that_member() {
    let f = Fields::from_vec(&vec![Value::I32(1), Value::I32(2)]);
    let g = f.try_update(0, Value::I32(9)).unwrap();
    assert_eq!(g.to_vec(), vec![Value::I32(9), Value::I32(2)]);
    assert!(f.try_update(2, Value::I32(9)).is_none());
}

#[test]
fn duplicates_compare_equal_to_their_originals() {
    let v = Value::StructVal(Box::new(Fields::from_vec(&vec![
        Value::Text(String::from("abc")),
        Value::ListVal(Box::new(Fields::from_vec(&vec![Value::I32(4)]))),
    ])));
    assert_eq!(v.duplicate(), v);
}

#[test]
fn literals_carry_their_type_and_value() {
    assert_eq!(Literal::I32(5).ty(), Ty::I32);
    assert_eq!(Literal::Text(String::from("x")).ty(), Ty::Text);
    assert_eq!(Value::of_literal(&Literal::I32(5)), Value::I32(5));
}

#[test]
fn defaults_follow_the_registered_layout() {
    let mut types = TypeRegistry::new();
    let inner = types.register_struct(StructDef { fields: vec![Ty::I32] }).unwrap();
    let outer = types
        .register_struct(StructDef { fields: vec![Ty::StructTy(inner), Ty::Text] })
        .unwrap();
    let v = default_value(&types, Ty::StructTy(outer));
    let expected = Value::StructVal(Box::new(Fields::from_vec(&vec![
        Value::StructVal(Box::new(Fields::from_vec(&vec![Value::I32(0)]))),
        Value::Text(String::new()),
    ])));
    assert_eq!(v, expected);
    assert_eq!(default_value(&types, Ty::I32), Value::I32(0));
}

#[test]
fn a_layout_may_only_use_structures_registered_before_it() {
    let mut types = TypeRegistry::new();
    assert!(types.register_struct(StructDef { fields: vec![Ty::StructTy(0)] }).is_none());
    assert_eq!(types.field_count(0), None);
    let sid = types.register_struct(StructDef { fields: vec![Ty::I32] }).unwrap();
    assert_eq!(types.field_count(sid), Some(1));
    assert_eq!(types.field_ty(sid, 0), Some(Ty::I32));
    assert_eq!(types.field_ty(sid, 1), None);
}

#[test]
fn breakdown_labels_carry_their_sigil() {
    assert_eq!(BreakdownType::Owned.format("position"), "position");
    assert_eq!(BreakdownType::Reference.format("position"), "&position");
    assert_eq!(BreakdownType::MutReference.format("position"), "&mut position");
}

#[test]
fn typed_ports_read_as_sigil_plus_type_word() {
    assert_eq!((Ty::I32, AccessMode::Owned).get_string_rep(), "i32");
    assert_eq!((Ty::I32, AccessMode::SharedRef).get_string_rep(), "&i32");
    assert_eq!((Ty::Text, AccessMode::ExclusiveRef).get_string_rep(), "&mut text");
    assert_eq!((Ty::QueryTy, AccessMode::Owned).get_string_rep(), "query");
}

#[test]
fn the_color_split_always_reaches_full_brightness() {
    // Already bright enough: the three chunks pass through unchanged.
    assert_eq!(split_u64_to_u8s(0xff), (255, 0, 0));
    // All chunks zero: the high chunk selects the first channel to raise.
    assert_eq!(split_u64_to_u8s(0), (255, 0, 0));
    // The middle chunk comes from bits ten and up.
    assert_eq!(split_u64_to_u8s(0x0003_FC00), (0, 255, 0));
    // A high chunk of one selects the middle channel.
    assert_eq!(split_u64_to_u8s(1u64 << 54), (0, 254, 1));
    // A high chunk of two selects the last channel.
    assert_eq!(split_u64_to_u8s(2u64 << 54), (0, 0, 255));
    for v in [0u64, 1, 0xdead_beef, u64::MAX, 1 << 54, 123_456_789_012_345] {
        let (r, g, b) = split_u64_to_u8s(v);
        assert!(r as u32 + g as u32 + b as u32 >= 255);
    }
}
