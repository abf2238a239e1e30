use svd2pac::bits::{field_mask, get_field, set_field};
use svd2pac::builder::{build_peripherals, check_enumerated_values, expand_addresses, value_fits};
use svd2pac::config::{target_features, SvdValidationLevel, Target};
use svd2pac::derive::{derived_registers, find_peripheral, merge_derived};
use svd2pac::error::{LayoutError, ModelBuildError, ValidationError};
use svd2pac::layout::{check_address_collisions, check_fields, layout_device, names_at, RegisterAddress};
use svd2pac::model::{Access, Dim, EnumeratedValue, Field, Peripheral, RawRegister, Register, RegisterDefaults};
use svd2pac::pipeline::{run_pipeline, PipelineError};
use svd2pac::validate::{resolve_register, substitutions};

fn field(name: &str, offset: u32, width: u32) -> Field {
    Field { name: name.to_string(), offset, width, access: Access::ReadWrite, values: Vec::new(), dim: None }
}

fn reg(name: &str, offset: u64, fields: Vec<Field>) -> Register {
    Register {
        name: name.to_string(),
        offset,
        size: 32,
        access: Access::ReadWrite,
        reset_value: 0,
        dim: None,
        alias: false,
        fields,
    }
}

fn periph(name: &str, base: u64, derived_from: Option<&str>, registers: Vec<Register>) -> Peripheral {
    Peripheral {
        name: name.to_string(),
        base_address: base,
        dim: None,
        derived_from: derived_from.map(|s| s.to_string()),
        registers,
    }
}

fn same_register(a: &Register, b: &Register) -> bool {
    a.name == b.name
        && a.offset == b.offset
        && a.size == b.size
        && a.access == b.access
        && a.reset_value == b.reset_value
        && a.fields.len() == b.fields.len()
}

fn raw(access: Option<Access>) -> RawRegister {
    RawRegister {
        name: "CTRL".to_string(),
        offset: Some(4),
        size: Some(32),
        access,
        reset_value: Some(0x10),
        dim: None,
        alias: false,
        fields: Vec::new(),
    }
}

#[test]
fn mask_is_right_aligned_whatever_the_offset() {
    assert_eq!(field_mask(1), 1);
    assert_eq!(field_mask(3), 7);
    assert_eq!(field_mask(16), 0xffff);
    assert_eq!(field_mask(64), u64::MAX);
}

#[test]
fn get_field_extracts_shifted_bits() {
    assert_eq!(get_field(0xABCD_1234, 8, 8), 0x12);
    assert_eq!(get_field(0xABCD_1234, 28, 4), 0xA);
    assert_eq!(get_field(u64::MAX, 0, 64), u64::MAX);
}

#[test]
fn set_field_keeps_other_bits() {
    let raw = 0xFFFF_FFFFu64;
    let r = set_field(raw, 4, 4, 0x3);
    assert_eq!(r, 0xFFFF_FF3F);
    assert_eq!(get_field(r, 4, 4), 0x3);
    // value bits above the width are dropped
    assert_eq!(set_field(0, 8, 4, 0x1F), 0xF00);
}

#[test]
fn fields_inside_and_disjoint_pass() {
    let fs = vec![field("A", 0, 4), field("B", 4, 4), field("C", 31, 1)];
    assert_eq!(check_fields(&fs, 32), Ok(()));
}

#[test]
fn field_past_register_end_fails() {
    let fs = vec![field("A", 30, 4)];
    assert_eq!(check_fields(&fs, 32), Err(LayoutError::FieldOutOfRange));
    let empty = vec![field("Z", 0, 0)];
    assert_eq!(check_fields(&empty, 32), Err(LayoutError::FieldOutOfRange));
}

#[test]
fn overlapping_fields_fail() {
    let fs = vec![field("A", 0, 4), field("B", 3, 2)];
    assert_eq!(check_fields(&fs, 32), Err(LayoutError::OverlappingFields));
}

#[test]
fn array_peripheral_expands_in_order() {
    let mut p = periph("UART", 0x1000, None, vec![reg("DATA", 0, vec![])]);
    p.dim = Some(Dim { dim: 4, increment: 0x100 });
    let cs = build_peripherals(&vec![p]).unwrap();
    assert_eq!(cs.len(), 4);
    let bases: Vec<u64> = cs.iter().map(|c| c.base_address).collect();
    assert_eq!(bases, vec![0x1000, 0x1100, 0x1200, 0x1300]);
    for (k, c) in cs.iter().enumerate() {
        assert_eq!(c.index, Some(k as u32));
        assert_eq!(c.name, "UART");
        assert_eq!(c.registers.len(), 1);
    }
}

#[test]
fn expand_addresses_exact_and_overflow() {
    assert_eq!(expand_addresses(0x1000, Dim { dim: 3, increment: 8 }), Ok(vec![0x1000, 0x1008, 0x1010]));
    assert_eq!(expand_addresses(5, Dim { dim: 0, increment: 8 }), Ok(vec![]));
    assert_eq!(
        expand_addresses(u64::MAX - 4, Dim { dim: 2, increment: 8 }),
        Err(ModelBuildError::AddressOverflow)
    );
}

#[test]
fn derived_peripheral_without_registers_copies_parent() {
    let a = periph("A", 0x1000, None, vec![reg("CR", 0, vec![field("EN", 0, 1)]), reg("SR", 4, vec![])]);
    let b = periph("B", 0x2000, Some("A"), vec![]);
    let ps = vec![a, b];
    let regs = derived_registers(&ps, 1).unwrap();
    assert_eq!(regs.len(), 2);
    assert!(same_register(&regs[0], &ps[0].registers[0]));
    assert!(same_register(&regs[1], &ps[0].registers[1]));
}

#[test]
fn own_register_overrides_inherited() {
    let parent = vec![reg("CR", 0, vec![]), reg("SR", 4, vec![])];
    let mut own_sr = reg("SR", 0x40, vec![]);
    own_sr.reset_value = 0xAA;
    let own = vec![own_sr, reg("DR", 8, vec![])];
    let m = merge_derived(&parent, &own);
    let names: Vec<&str> = m.iter().map(|r| r.name.as_str()).collect();
    assert_eq!(names, vec!["CR", "SR", "DR"]);
    assert_eq!(m[1].offset, 0x40);
    assert_eq!(m[1].reset_value, 0xAA);
}

#[test]
fn derivation_resolved_regardless_of_declaration_order() {
    let b = periph("B", 0x2000, Some("A"), vec![]);
    let a = periph("A", 0x1000, None, vec![reg("CR", 0, vec![])]);
    let cs = build_peripherals(&vec![b, a]).unwrap();
    assert_eq!(cs.len(), 2);
    assert_eq!(cs[0].registers.len(), 1);
    assert_eq!(cs[0].registers[0].name, "CR");
}

#[test]
fn undefined_parent_fails() {
    let ps = vec![periph("B", 0x2000, Some("NOPE"), vec![])];
    assert_eq!(build_peripherals(&ps).unwrap_err(), ModelBuildError::UndefinedParent);
}

#[test]
fn derivation_cycle_fails() {
    let ps = vec![periph("A", 0x1000, Some("B"), vec![]), periph("B", 0x2000, Some("A"), vec![])];
    assert_eq!(build_peripherals(&ps).unwrap_err(), ModelBuildError::DerivationCycle);
}

#[test]
fn duplicate_peripheral_name_fails() {
    let ps = vec![periph("A", 0x1000, None, vec![]), periph("A", 0x2000, None, vec![])];
    assert_eq!(build_peripherals(&ps).unwrap_err(), ModelBuildError::DuplicateName);
}

#[test]
fn find_peripheral_takes_first() {
    let ps = vec![periph("X", 0, None, vec![]), periph("Y", 1, None, vec![])];
    assert_eq!(find_peripheral(&ps, &"Y".to_string()), Some(1));
    assert_eq!(find_peripheral(&ps, &"Z".to_string()), None);
}

#[test]
fn missing_access_falls_back_under_weak_only() {
    let defaults = RegisterDefaults { size: Some(32), access: Some(Access::ReadOnly), reset_value: Some(0) };
    let weak = resolve_register(raw(None), defaults, SvdValidationLevel::Weak).unwrap();
    assert_eq!(weak.access, Access::ReadOnly);
    assert_eq!(weak.reset_value, 0x10);
    assert_eq!(
        resolve_register(raw(None), defaults, SvdValidationLevel::Strict).unwrap_err(),
        ValidationError::MissingAccess
    );
    let strict = resolve_register(raw(Some(Access::WriteOnly)), defaults, SvdValidationLevel::Strict).unwrap();
    assert_eq!(strict.access, Access::WriteOnly);
}

#[test]
fn validation_errors_and_disabled_builtins() {
    let none = RegisterDefaults { size: None, access: None, reset_value: None };
    let mut r = raw(None);
    r.offset = None;
    assert_eq!(resolve_register(r, none, SvdValidationLevel::Disabled).unwrap_err(), ValidationError::MissingAddress);
    let mut r = raw(Some(Access::ReadWrite));
    r.size = None;
    assert_eq!(resolve_register(r, none, SvdValidationLevel::Weak).unwrap_err(), ValidationError::MissingSize);
    let mut r = raw(Some(Access::ReadWrite));
    r.size = Some(65);
    assert_eq!(resolve_register(r, none, SvdValidationLevel::Weak).unwrap_err(), ValidationError::InvalidSize);
    let mut r = raw(Some(Access::ReadWrite));
    r.reset_value = None;
    assert_eq!(resolve_register(r, none, SvdValidationLevel::Strict).unwrap_err(), ValidationError::MissingResetValue);
    let mut r = raw(None);
    r.size = None;
    r.reset_value = None;
    let d = resolve_register(r, none, SvdValidationLevel::Disabled).unwrap();
    assert_eq!((d.size, d.access, d.reset_value), (32, Access::ReadWrite, 0));
}

#[test]
fn enumerated_value_overflow_fails() {
    let mut f = field("MODE", 0, 3);
    f.values.push(EnumeratedValue { name: "SEVEN".to_string(), value: 7 });
    assert_eq!(check_enumerated_values(&vec![f.clone()]), Ok(()));
    f.values.push(EnumeratedValue { name: "EIGHT".to_string(), value: 8 });
    assert_eq!(check_enumerated_values(&vec![f.clone()]), Err(ModelBuildError::EnumeratedValueOverflow));
    let ps = vec![periph("P", 0x1000, None, vec![reg("CR", 0, vec![f])])];
    assert_eq!(build_peripherals(&ps).unwrap_err(), ModelBuildError::EnumeratedValueOverflow);
    assert!(value_fits(7, 3));
    assert!(!value_fits(8, 3));
    assert!(value_fits(u64::MAX, 64));
}

#[test]
fn aliased_registers_both_listed() {
    let es = vec![
        RegisterAddress { name: "RX".to_string(), address: 0x40, alias: false },
        RegisterAddress { name: "TX".to_string(), address: 0x40, alias: true },
        RegisterAddress { name: "SR".to_string(), address: 0x44, alias: false },
    ];
    assert_eq!(check_address_collisions(&es), Ok(()));
    assert_eq!(names_at(&es, 0x40), vec!["RX".to_string(), "TX".to_string()]);
    assert_eq!(names_at(&es, 0x44), vec!["SR".to_string()]);
    assert!(names_at(&es, 0x48).is_empty());
}

#[test]
fn layout_computes_absolute_addresses_and_aliases() {
    let mut tx = reg("TX", 0x10, vec![]);
    tx.alias = true;
    let mut arr = reg("BUF", 0x20, vec![]);
    arr.dim = Some(Dim { dim: 2, increment: 4 });
    let ps = vec![periph("P", 0x4000_0000, None, vec![reg("RX", 0x10, vec![field("D", 0, 8)]), tx, arr])];
    let cs = build_peripherals(&ps).unwrap();
    let es = layout_device(&cs).unwrap();
    let addrs: Vec<u64> = es.iter().map(|e| e.address).collect();
    assert_eq!(addrs, vec![0x4000_0010, 0x4000_0010, 0x4000_0020, 0x4000_0024]);
    assert_eq!(names_at(&es, 0x4000_0010), vec!["RX".to_string(), "TX".to_string()]);
}

#[test]
fn unaliased_collision_fails() {
    let ps = vec![periph("P", 0x1000, None, vec![reg("A", 0, vec![]), reg("B", 0, vec![])])];
    let cs = build_peripherals(&ps).unwrap();
    assert_eq!(layout_device(&cs).unwrap_err(), LayoutError::AddressCollision);
    assert_eq!(run_pipeline(&ps).unwrap_err(), PipelineError::Layout(LayoutError::AddressCollision));
}

#[test]
fn layout_address_overflow_and_bad_fields_fail() {
    let ps = vec![periph("P", u64::MAX, None, vec![reg("A", 4, vec![])])];
    let cs = build_peripherals(&ps).unwrap();
    assert_eq!(layout_device(&cs).unwrap_err(), LayoutError::AddressOverflow);
    let ps = vec![periph("Q", 0, None, vec![reg("A", 0, vec![field("X", 0, 4), field("Y", 2, 4)])])];
    assert_eq!(run_pipeline(&ps).unwrap_err(), PipelineError::Layout(LayoutError::OverlappingFields));
}

#[test]
fn pipeline_runs_twice_identically() {
    let mut p = periph("GPIO", 0x5000, None, vec![reg("ODR", 0, vec![field("P0", 0, 1)]), reg("IDR", 4, vec![])]);
    p.dim = Some(Dim { dim: 2, increment: 0x400 });
    let ps = vec![p, periph("GPIOX", 0x9000, Some("GPIO"), vec![])];
    let a = run_pipeline(&ps).unwrap();
    let b = run_pipeline(&ps).unwrap();
    assert_eq!(format!("{:?}", a), format!("{:?}", b));
    assert_eq!(a.peripherals.len(), 3);
    assert_eq!(a.addresses.len(), 6);
    assert_eq!(
        run_pipeline(&vec![periph("B", 0, Some("A"), vec![])]).unwrap_err(),
        PipelineError::ModelBuild(ModelBuildError::UndefinedParent)
    );
}

#[test]
fn target_features_per_target() {
    let g = target_features(Target::Generic);
    assert!(!g.interrupt_table && !g.nvic_priority_bits && !g.atomic_modify && !g.core_peripherals);
    let a = target_features(Target::Aurix);
    assert!(a.atomic_modify && !a.interrupt_table);
    let c = target_features(Target::CortexM);
    assert!(c.interrupt_table && c.nvic_priority_bits && c.core_peripherals && !c.atomic_modify);
}

#[test]
fn duplicate_register_name_fails() {
    let ps = vec![periph("P", 0x1000, None, vec![reg("CR", 0, vec![]), reg("CR", 4, vec![])])];
    assert_eq!(build_peripherals(&ps).unwrap_err(), ModelBuildError::DuplicateName);
}

#[test]
fn substitutions_reported_outside_strict() {
    let r = raw(None);
    let weak = substitutions(&r, SvdValidationLevel::Weak);
    assert!(weak.access && !weak.size && !weak.reset_value);
    let strict = substitutions(&r, SvdValidationLevel::Strict);
    assert!(!strict.access && !strict.size && !strict.reset_value);
    let mut bare = raw(None);
    bare.size = None;
    bare.reset_value = None;
    let d = substitutions(&bare, SvdValidationLevel::Disabled);
    assert!(d.access && d.size && d.reset_value);
}

#[test]
fn array_element_name_clashing_with_peripheral_fails() {
    let mut uart = periph("UART", 0x1000, None, vec![]);
    uart.dim = Some(Dim { dim: 2, increment: 0x100 });
    let ps = vec![uart, periph("UART_1", 0x3000, None, vec![])];
    assert_eq!(build_peripherals(&ps).unwrap_err(), ModelBuildError::DuplicateName);
}

#[test]
fn register_element_name_clashing_with_register_fails() {
    let mut r = reg("R", 0, vec![]);
    r.dim = Some(Dim { dim: 2, increment: 4 });
    let ps = vec![periph("P", 0x1000, None, vec![r, reg("R_0", 0x10, vec![])])];
    assert_eq!(build_peripherals(&ps).unwrap_err(), ModelBuildError::DuplicateName);
}

#[test]
fn weak_falls_back_to_builtins_where_layout_allows() {
    let none = RegisterDefaults { size: None, access: None, reset_value: None };
    let mut r = raw(None);
    r.reset_value = None;
    let w = resolve_register(r, none, SvdValidationLevel::Weak).unwrap();
    assert_eq!((w.access, w.reset_value), (Access::ReadWrite, 0));
    let mut r = raw(None);
    r.size = None;
    assert_eq!(resolve_register(r, none, SvdValidationLevel::Weak).unwrap_err(), ValidationError::MissingSize);
}

#[test]
fn bitfield_array_expands_into_fields() {
    let mut f = field("EN", 0, 1);
    f.dim = Some(Dim { dim: 3, increment: 4 });
    let ps = vec![periph("P", 0x1000, None, vec![reg("CR", 0, vec![f, field("X", 12, 4)])])];
    let cs = build_peripherals(&ps).unwrap();
    let fs = &cs[0].registers[0].fields;
    let got: Vec<(String, u32)> = fs.iter().map(|f| (f.name.clone(), f.offset)).collect();
    assert_eq!(
        got,
        vec![("EN_0".to_string(), 0), ("EN_1".to_string(), 4), ("EN_2".to_string(), 8), ("X".to_string(), 12)]
    );
    assert!(fs.iter().all(|f| f.dim.is_none()));
    assert!(layout_device(&cs).is_ok());
    let mut g = field("G", 1, 1);
    g.dim = Some(Dim { dim: 2, increment: u64::from(u32::MAX) });
    let bad = vec![periph("Q", 0, None, vec![reg("CR", 0, vec![g])])];
    assert_eq!(build_peripherals(&bad).unwrap_err(), ModelBuildError::FieldOffsetOverflow);
}

#[test]
fn field_element_name_clashing_with_field_fails() {
    let mut f = field("EN", 0, 1);
    f.dim = Some(Dim { dim: 2, increment: 1 });
    let ps = vec![periph("P", 0x1000, None, vec![reg("CR", 0, vec![f, field("EN_1", 8, 1)])])];
    assert_eq!(build_peripherals(&ps).unwrap_err(), ModelBuildError::DuplicateName);
    let dup = vec![periph("Q", 0x1000, None, vec![reg("CR", 0, vec![field("A", 0, 1), field("A", 4, 1)])])];
    assert_eq!(build_peripherals(&dup).unwrap_err(), ModelBuildError::DuplicateName);
}
