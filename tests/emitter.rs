use svd2pac::config::{SvdValidationLevel, Target};
use svd2pac::emit::{append_field, append_hex, emit_register};
use svd2pac::error::ValidationError;
use svd2pac::model::{Access, EnumeratedValue, Field, RawPeripheral, RawRegister, Register, RegisterDefaults};
use svd2pac::validate::{validate_document, validate_peripheral};

fn mode_field() -> Field {
    Field {
        name: "MODE".to_string(),
        offset: 4,
        width: 3,
        access: Access::ReadWrite,
        values: vec![EnumeratedValue { name: "FAST".to_string(), value: 5 }],
        dim: None,
    }
}

fn ctrl(access: Access) -> Register {
    Register {
        name: "CTRL".to_string(),
        offset: 0x10,
        size: 32,
        access,
        reset_value: 0x1F,
        dim: None,
        alias: false,
        fields: vec![mode_field()],
    }
}

#[test]
fn hex_rendering() {
    let mut s = String::from("0x");
    append_hex(&mut s, 0);
    assert_eq!(s, "0x0");
    let mut s = String::new();
    append_hex(&mut s, 0xDEAD_BEEF);
    assert_eq!(s, "deadbeef");
    let mut s = String::new();
    append_hex(&mut s, u64::MAX);
    assert_eq!(s, "ffffffffffffffff");
}

#[test]
fn field_accessor_text() {
    let mut s = String::new();
    append_field(&mut s, &mode_field());
    let expected = "        #[inline(always)]\n        pub fn MODE(self) -> u64 {\n            (self.0 >> 0x4) & 0x7\n        }\n        #[inline(always)]\n        pub fn set_MODE(self, value: u64) -> Self {\n            Self((self.0 & !(0x7 << 0x4)) | ((value & 0x7) << 0x4))\n        }\n        #[inline(always)]\n        pub fn MODE_mask(self) -> u64 {\n            0x7\n        }\n        #[inline(always)]\n        pub fn MODE_offset(self) -> u32 {\n            0x4\n        }\n        pub const MODE_FAST: u64 = 0x5;\n";
    assert_eq!(s, expected);
}

#[test]
fn register_text_by_access_and_target() {
    let rw = emit_register(&ctrl(Access::ReadWrite), 0x4000_0010, Target::Generic, false);
    assert!(rw.starts_with("pub mod CTRL {\n"));
    assert!(rw.ends_with("}\n"));
    assert!(rw.contains("pub const DEFAULT: Value = Value(0x1f);"));
    assert!(rw.contains("pub const ADDRESS: usize = 0x40000010;"));
    assert!(rw.contains("read_volatile(ADDRESS as *const u32)"));
    assert!(rw.contains("pub unsafe fn write(value: Value)"));
    assert!(rw.contains("pub unsafe fn init("));
    assert!(rw.contains("pub unsafe fn modify("));
    assert!(!rw.contains("modify_atomic"));
    assert!(!rw.contains("insanely_unsafe"));

    let ro = emit_register(&ctrl(Access::ReadOnly), 0x10, Target::Aurix, false);
    assert!(ro.contains("pub unsafe fn read()"));
    assert!(!ro.contains("pub unsafe fn write("));
    assert!(!ro.contains("pub unsafe fn modify"));

    let wo = emit_register(&ctrl(Access::WriteOnly), 0x10, Target::Generic, false);
    assert!(!wo.contains("pub unsafe fn read()"));
    assert!(wo.contains("pub unsafe fn init("));

    let aurix = emit_register(&ctrl(Access::ReadWrite), 0x10, Target::Aurix, false);
    assert!(aurix.contains("pub unsafe fn modify_atomic(mask: u64, value: Value)"));
    assert!(aurix.contains("stalls the other bus masters"));
}

#[test]
fn tracing_routes_accesses_and_adds_backdoor() {
    let t = emit_register(&ctrl(Access::ReadOnly), 0x10, Target::CortexM, true);
    assert!(t.contains("Value(crate::tracing::read(ADDRESS))"));
    assert!(!t.contains("read_volatile"));
    assert!(t.contains("pub mod insanely_unsafe {"));
    assert!(t.contains("crate::tracing::write(super::ADDRESS, value.0);"));
}

#[test]
fn emission_is_deterministic() {
    let a = emit_register(&ctrl(Access::ReadWrite), 0x10, Target::Aurix, true);
    let b = emit_register(&ctrl(Access::ReadWrite), 0x10, Target::Aurix, true);
    assert_eq!(a, b);
}

fn raw_reg(name: &str, access: Option<Access>) -> RawRegister {
    RawRegister {
        name: name.to_string(),
        offset: Some(0),
        size: Some(32),
        access,
        reset_value: Some(0),
        dim: None,
        alias: false,
        fields: Vec::new(),
    }
}

fn raw_periph(name: &str, regs: Vec<RawRegister>) -> RawPeripheral {
    RawPeripheral { name: name.to_string(), base_address: 0x1000, dim: None, derived_from: None, registers: regs }
}

#[test]
fn document_validation_weak_and_strict() {
    let defaults = RegisterDefaults { size: Some(32), access: Some(Access::ReadWrite), reset_value: Some(0) };
    let doc = || vec![raw_periph("A", vec![raw_reg("X", Some(Access::ReadOnly))]), raw_periph("B", vec![raw_reg("Y", None)])];
    let ps = validate_document(doc(), defaults, SvdValidationLevel::Weak).unwrap();
    assert_eq!(ps.len(), 2);
    assert_eq!(ps[1].registers[0].access, Access::ReadWrite);
    assert_eq!(ps[0].registers[0].access, Access::ReadOnly);
    assert_eq!(
        validate_document(doc(), defaults, SvdValidationLevel::Strict).unwrap_err(),
        ValidationError::MissingAccess
    );
    let p = validate_peripheral(raw_periph("C", vec![]), defaults, SvdValidationLevel::Strict).unwrap();
    assert_eq!(p.name, "C");
    assert!(p.registers.is_empty());
}

use svd2pac::emit::emit_name_map;
use svd2pac::layout::{name_map, RegisterAddress};

fn entry(name: &str, address: u64, alias: bool) -> RegisterAddress {
    RegisterAddress { name: name.to_string(), address, alias }
}

#[test]
fn name_map_groups_aliases() {
    let es = vec![entry("RX", 0x40, false), entry("SR", 0x44, false), entry("TX", 0x40, true)];
    let rows = name_map(&es);
    assert_eq!(rows.len(), 2);
    assert_eq!(rows[0].address, 0x40);
    assert_eq!(rows[0].names, vec!["RX".to_string(), "TX".to_string()]);
    assert_eq!(rows[1].address, 0x44);
    assert_eq!(rows[1].names, vec!["SR".to_string()]);
    let text = emit_name_map(&rows);
    let expected = "/// Names of the registers at `addr`; more than one where registers alias.\npub fn reg_name_from_addr(addr: u64) -> &'static [&'static str] {\n    match addr {\n        0x40 => &[\"RX\", \"TX\", ],\n        0x44 => &[\"SR\", ],\n        _ => &[],\n    }\n}\n";
    assert_eq!(text, expected);
}

#[test]
fn empty_name_map() {
    let rows = name_map(&vec![]);
    assert!(rows.is_empty());
    assert!(emit_name_map(&rows).contains("_ => &[],"));
}

use svd2pac::builder::{build_peripherals, ConcretePeripheral};
use svd2pac::emit::emit_peripheral;
use svd2pac::naming::append_dec;
use svd2pac::model::{Dim, Peripheral};
use svd2pac::pipeline::{generate, PipelineError};
use svd2pac::error::{CodeGenError, LayoutError};

fn plain_reg(name: &str, offset: u64) -> Register {
    Register {
        name: name.to_string(),
        offset,
        size: 16,
        access: Access::ReadWrite,
        reset_value: 0,
        dim: None,
        alias: false,
        fields: Vec::new(),
    }
}

#[test]
fn decimal_rendering() {
    let mut s = String::new();
    append_dec(&mut s, 0);
    assert_eq!(s, "0");
    let mut s = String::new();
    append_dec(&mut s, 1207);
    assert_eq!(s, "1207");
}

#[test]
fn peripheral_unit_holds_register_instances() {
    let mut arr = plain_reg("CH", 0x20);
    arr.dim = Some(Dim { dim: 2, increment: 4 });
    let c = ConcretePeripheral {
        name: "DMA".to_string(),
        index: Some(3),
        base_address: 0x100,
        registers: vec![plain_reg("CR", 0), arr],
    };
    let t = emit_peripheral(&c, Target::Generic, false).unwrap();
    assert!(t.starts_with("pub mod DMA_3 {\npub mod CR {\n"));
    assert!(t.contains("pub const ADDRESS: usize = 0x100;"));
    assert!(t.contains("pub mod CH_0 {"));
    assert!(t.contains("pub const ADDRESS: usize = 0x120;"));
    assert!(t.contains("pub mod CH_1 {"));
    assert!(t.contains("pub const ADDRESS: usize = 0x124;"));
    assert!(t.contains("read_volatile(ADDRESS as *const u16)"));
    assert!(t.ends_with("}\n}\n"));
}

#[test]
fn peripheral_unit_rejects_unrenderable_field() {
    let mut r = plain_reg("CR", 0);
    r.fields.push(Field { name: "Z".to_string(), offset: 0, width: 0, access: Access::ReadWrite, values: Vec::new(), dim: None });
    let c = ConcretePeripheral { name: "P".to_string(), index: None, base_address: 0, registers: vec![r] };
    assert_eq!(emit_peripheral(&c, Target::Generic, false).unwrap_err(), CodeGenError::FieldWidth);
}

#[test]
fn generate_one_unit_per_instance_and_name_map() {
    let mut p = Peripheral {
        name: "UART".to_string(),
        base_address: 0x1000,
        dim: Some(Dim { dim: 2, increment: 0x100 }),
        derived_from: None,
        registers: vec![plain_reg("DR", 0)],
    };
    p.registers.push(plain_reg("SR", 4));
    let ps = vec![p];
    let plain = generate(&ps, Target::Generic, false).unwrap();
    assert_eq!(plain.len(), 2);
    assert!(plain[0].starts_with("pub mod UART_0 {"));
    assert!(plain[1].starts_with("pub mod UART_1 {"));
    assert!(plain[1].contains("pub const ADDRESS: usize = 0x1104;"));
    let traced = generate(&ps, Target::Generic, true).unwrap();
    assert_eq!(traced.len(), 3);
    assert!(traced[2].contains("0x1000 => &[\"DR\", ],"));
    assert!(traced[2].contains("0x1104 => &[\"SR\", ],"));
    assert_eq!(generate(&ps, Target::Aurix, true), generate(&ps, Target::Aurix, true));
    assert_eq!(build_peripherals(&ps).unwrap().len(), 2);
}

#[test]
fn generate_stops_at_first_failing_stage() {
    let ps = vec![Peripheral {
        name: "P".to_string(),
        base_address: 0,
        dim: None,
        derived_from: None,
        registers: vec![plain_reg("A", 0), plain_reg("B", 0)],
    }];
    assert_eq!(generate(&ps, Target::Generic, false).unwrap_err(), PipelineError::Layout(LayoutError::AddressCollision));
}

use svd2pac::emit::emit_target_extension;
use svd2pac::model::Interrupt;

#[test]
fn cortex_m_extension_only_for_cortex_m() {
    let is = vec![
        Interrupt { name: "UART0".to_string(), value: 5 },
        Interrupt { name: "TIMER".to_string(), value: 17 },
    ];
    let t = emit_target_extension(Target::CortexM, &is, 3);
    assert!(t.starts_with("/// Number of priority bits of the NVIC.\npub const NVIC_PRIO_BITS: u8 = 0x3;\n"));
    assert!(t.contains("pub enum Interrupt {\n    UART0 = 0x5,\n    TIMER = 0x11,\n}\n"));
    assert!(t.contains("pub use cortex_m::peripheral::Peripherals as CorePeripherals;"));
    assert_eq!(emit_target_extension(Target::Generic, &is, 3), "");
    assert_eq!(emit_target_extension(Target::Aurix, &is, 3), "");
}

use svd2pac::model::Device;
use svd2pac::pipeline::generate_device;

#[test]
fn device_generation_adds_cortex_m_extension() {
    let d = Device {
        name: "DEV".to_string(),
        description: "test device".to_string(),
        address_unit_bits: 8,
        defaults: RegisterDefaults { size: Some(32), access: Some(Access::ReadWrite), reset_value: Some(0) },
        peripherals: vec![Peripheral {
            name: "P".to_string(),
            base_address: 0x100,
            dim: None,
            derived_from: None,
            registers: vec![plain_reg("CR", 0)],
        }],
        interrupts: vec![Interrupt { name: "IRQ0".to_string(), value: 0 }],
        nvic_prio_bits: 4,
    };
    let cm = generate_device(&d, Target::CortexM, false).unwrap();
    assert_eq!(cm.len(), 2);
    assert!(cm[1].contains("pub const NVIC_PRIO_BITS: u8 = 0x4;"));
    assert!(cm[1].contains("    IRQ0 = 0x0,\n"));
    let g = generate_device(&d, Target::Generic, false).unwrap();
    assert_eq!(g.len(), 1);
    assert!(!g[0].contains("Interrupt"));
}
