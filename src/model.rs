//! The device model: peripherals, registers, bitfields and their named values.
use vstd::prelude::*;

verus! {

/// Access mode of a register or bitfield.
#[derive(Copy, Clone, PartialEq, Eq, Structural, Debug)]
pub enum Access {
    ReadOnly,
    WriteOnly,
    ReadWrite,
}

/// Array descriptor: `dim` instances spaced `increment` bytes apart.
#[derive(Copy, Clone, PartialEq, Eq, Structural, Debug)]
pub struct Dim {
    pub dim: u32,
    pub increment: u64,
}

/// A named constant of a bitfield.
#[derive(Clone, Debug)]
pub struct EnumeratedValue {
    pub name: String,
    pub value: u64,
}

/// A contiguous bit range of a register.
#[derive(Clone, Debug)]
pub struct Field {
    pub name: String,
    /// Bit position of the field's lowest bit.
    pub offset: u32,
    /// Number of bits.
    pub width: u32,
    pub access: Access,
    pub values: Vec<EnumeratedValue>,
    /// Array descriptor; its increment counts bits.
    pub dim: Option<Dim>,
}

/// A register with every attribute resolved.
#[derive(Clone, Debug)]
pub struct Register {
    pub name: String,
    /// Address offset from the peripheral's base.
    pub offset: u64,
    /// Size in bits.
    pub size: u32,
    pub access: Access,
    pub reset_value: u64,
    pub dim: Option<Dim>,
    /// Whether the register deliberately shares its address with another one.
    pub alias: bool,
    pub fields: Vec<Field>,
}

/// An interrupt line of the device.
#[derive(Clone, Debug)]
pub struct Interrupt {
    pub name: String,
    pub value: u32,
}

/// A peripheral with its own registers, before derivation is resolved.
#[derive(Clone, Debug)]
pub struct Peripheral {
    pub name: String,
    pub base_address: u64,
    pub dim: Option<Dim>,
    pub derived_from: Option<String>,
    pub registers: Vec<Register>,
}

/// A device: the root of the model.
#[derive(Clone, Debug)]
pub struct Device {
    pub name: String,
    pub description: String,
    /// Width in bits of one address unit.
    pub address_unit_bits: u32,
    /// The attributes registers fall back to.
    pub defaults: RegisterDefaults,
    pub peripherals: Vec<Peripheral>,
    pub interrupts: Vec<Interrupt>,
    /// Number of NVIC priority bits, used by targets with an interrupt table.
    pub nvic_prio_bits: u8,
}

/// A register as read from the document, with its optional attributes still open.
#[derive(Clone, Debug)]
pub struct RawRegister {
    pub name: String,
    pub offset: Option<u64>,
    pub size: Option<u32>,
    pub access: Option<Access>,
    pub reset_value: Option<u64>,
    pub dim: Option<Dim>,
    pub alias: bool,
    pub fields: Vec<Field>,
}

/// A peripheral as read from the document, before its registers are validated.
#[derive(Clone, Debug)]
pub struct RawPeripheral {
    pub name: String,
    pub base_address: u64,
    pub dim: Option<Dim>,
    pub derived_from: Option<String>,
    pub registers: Vec<RawRegister>,
}

/// The device-level defaults that registers may fall back to.
#[derive(Copy, Clone, PartialEq, Eq, Structural, Debug)]
pub struct RegisterDefaults {
    pub size: Option<u32>,
    pub access: Option<Access>,
    pub reset_value: Option<u64>,
}

/// The mathematical value of an [`EnumeratedValue`].
pub struct EnumeratedValueView {
    pub name: Seq<char>,
    pub value: u64,
}

/// The mathematical value of a [`Field`].
pub struct FieldView {
    pub name: Seq<char>,
    pub offset: u32,
    pub width: u32,
    pub access: Access,
    pub values: Seq<EnumeratedValueView>,
    pub dim: Option<Dim>,
}

/// The mathematical value of a [`Register`].
pub struct RegisterView {
    pub name: Seq<char>,
    pub offset: u64,
    pub size: u32,
    pub access: Access,
    pub reset_value: u64,
    pub dim: Option<Dim>,
    pub alias: bool,
    pub fields: Seq<FieldView>,
}

impl View for EnumeratedValue {
    type V = EnumeratedValueView;

    open spec fn view(&self) -> EnumeratedValueView {
        EnumeratedValueView { name: self.name@, value: self.value }
    }
}

impl View for Field {
    type V = FieldView;

    open spec fn view(&self) -> FieldView {
        FieldView {
            name: self.name@,
            offset: self.offset,
            width: self.width,
            access: self.access,
            values: self.values@.map_values(|v: EnumeratedValue| v@),
            dim: self.dim,
        }
    }
}

impl View for Register {
    type V = RegisterView;

    open spec fn view(&self) -> RegisterView {
        RegisterView {
            name: self.name@,
            offset: self.offset,
            size: self.size,
            access: self.access,
            reset_value: self.reset_value,
            dim: self.dim,
            alias: self.alias,
            fields: self.fields@.map_values(|f: Field| f@),
        }
    }
}

/// The views of a sequence of registers.
pub open spec fn registers_view(rs: Seq<Register>) -> Seq<RegisterView> {
    rs.map_values(|r: Register| r@)
}

impl EnumeratedValue {
    /// A deep copy.
    pub fn copy(&self) -> (r: EnumeratedValue)
        ensures
            r@ == self@,
    {
        EnumeratedValue { name: self.name.clone(), value: self.value }
    }
}

impl Field {
    /// A deep copy.
    pub fn copy(&self) -> (r: Field)
        ensures
            r@ == self@,
    {
        let mut values: Vec<EnumeratedValue> = Vec::new();
        let n = self.values.len();
        let mut i: usize = 0;
        while i < n
            invariant
                n == self.values@.len(),
                0 <= i <= n,
                values@.len() == i,
                forall|k: int| 0 <= k < i ==> #[trigger] values@[k]@ == self.values@[k]@,
            decreases n - i,
        {
            values.push(self.values[i].copy());
            i = i + 1;
        }
        let r = Field {
            name: self.name.clone(),
            offset: self.offset,
            width: self.width,
            access: self.access,
            values,
            dim: self.dim,
        };
        assert(r.values@.map_values(|v: EnumeratedValue| v@) =~= self.values@.map_values(
            |v: EnumeratedValue| v@,
        ));
        r
    }
}

impl Register {
    /// A deep copy.
    pub fn copy(&self) -> (r: Register)
        ensures
            r@ == self@,
    {
        let fields = copy_fields(&self.fields);
        let r = Register {
            name: self.name.clone(),
            offset: self.offset,
            size: self.size,
            access: self.access,
            reset_value: self.reset_value,
            dim: self.dim,
            alias: self.alias,
            fields,
        };
        assert(r.fields@.map_values(|f: Field| f@) =~= self.fields@.map_values(|f: Field| f@));
        r
    }
}

/// A deep copy of a list of fields.
pub fn copy_fields(fs: &Vec<Field>) -> (r: Vec<Field>)
    ensures
        r@.len() == fs@.len(),
        forall|k: int| 0 <= k < fs@.len() ==> #[trigger] r@[k]@ == fs@[k]@,
{
    let mut r: Vec<Field> = Vec::new();
    let n = fs.len();
    let mut i: usize = 0;
    while i < n
        invariant
            n == fs@.len(),
            0 <= i <= n,
            r@.len() == i,
            forall|k: int| 0 <= k < i ==> #[trigger] r@[k]@ == fs@[k]@,
        decreases n - i,
    {
        r.push(fs[i].copy());
        i = i + 1;
    }
    r
}

/// A deep copy of a list of registers.
pub fn copy_registers(rs: &Vec<Register>) -> (r: Vec<Register>)
    ensures
        registers_view(r@) == registers_view(rs@),
{
    let mut r: Vec<Register> = Vec::new();
    let n = rs.len();
    let mut i: usize = 0;
    while i < n
        invariant
            n == rs@.len(),
            0 <= i <= n,
            r@.len() == i,
            forall|k: int| 0 <= k < i ==> #[trigger] r@[k]@ == rs@[k]@,
        decreases n - i,
    {
        r.push(rs[i].copy());
        i = i + 1;
    }
    assert(registers_view(r@) =~= registers_view(rs@));
    r
}

} // verus!
