//! Rendering of register and bitfield accessors as source text.
use vstd::prelude::*;
use vstd::string::StringExecFns;
use crate::bits::{field_mask, mask_spec};
use crate::naming::{
    dec_text, element_name, element_name_string, hex_char, hex_digit, instance_name,
};
use crate::config::{target_features, target_features_spec, Target};
use crate::builder::{array_addresses, array_fits, expand_addresses, ConcretePeripheral, ConcretePeripheralView};
use crate::error::CodeGenError;
use crate::layout::{register_entries, AddressNames, RegisterAddressView};
use crate::model::{Interrupt, Access, EnumeratedValue, EnumeratedValueView, Field, FieldView, Register, RegisterView};

verus! {

/// `n` in lower-case hexadecimal, without leading zeros.
pub open spec fn hex_text(n: nat) -> Seq<char>
    decreases n,
{
    if n < 16 {
        seq![hex_char(n)]
    } else {
        hex_text(n / 16) + seq![hex_char(n % 16)]
    }
}

/// Appends `n` in lower-case hexadecimal to `out`.
pub fn append_hex(out: &mut String, n: u64)
    ensures
        final(out)@ == old(out)@ + hex_text(n as nat),
    decreases n,
{
    if n >= 16 {
        append_hex(out, n / 16);
    }
    out.append(hex_digit(n % 16));
    assert(final(out)@ =~= old(out)@ + hex_text(n as nat));
}

/// The named constants of a field's enumerated values.
pub open spec fn values_text(field: Seq<char>, vs: Seq<EnumeratedValueView>) -> Seq<char>
    decreases vs.len(),
{
    if vs.len() == 0 {
        Seq::empty()
    } else {
        values_text(field, vs.drop_last()) + "        pub const "@ + field + "_"@ + vs.last().name
            + ": u64 = 0x"@ + hex_text(vs.last().value as nat) + ";\n"@
    }
}

pub open spec fn getter_text(name: Seq<char>, o: Seq<char>, m: Seq<char>) -> Seq<char> {
    "        #[inline(always)]\n        pub fn "@ + name + "(self) -> u64 {\n            (self.0 >> 0x"@ + o
        + ") & 0x"@ + m + "\n        }\n"@
}

pub open spec fn setter_text(name: Seq<char>, o: Seq<char>, m: Seq<char>) -> Seq<char> {
    "        #[inline(always)]\n        pub fn set_"@ + name
        + "(self, value: u64) -> Self {\n            Self((self.0 & !(0x"@ + m + " << 0x"@ + o
        + ")) | ((value & 0x"@ + m + ") << 0x"@ + o + "))\n        }\n"@
}

pub open spec fn layout_consts_text(name: Seq<char>, o: Seq<char>, m: Seq<char>) -> Seq<char> {
    "        #[inline(always)]\n        pub fn "@ + name + "_mask(self) -> u64 {\n            0x"@ + m
        + "\n        }\n        #[inline(always)]\n        pub fn "@ + name
        + "_offset(self) -> u32 {\n            0x"@ + o + "\n        }\n"@
}

/// The accessors of one bitfield inside its register's snapshot type: a
/// getter, a setter, `mask` and `offset` introspection, and its enumerated
/// values as named constants.
pub open spec fn field_text(f: FieldView) -> Seq<char> {
    let m = hex_text(mask_spec(f.width) as nat);
    let o = hex_text(f.offset as nat);
    getter_text(f.name, o, m) + setter_text(f.name, o, m) + layout_consts_text(f.name, o, m)
        + values_text(f.name, f.values)
}

/// The accessors of every field, in order.
pub open spec fn fields_text(fs: Seq<FieldView>) -> Seq<char>
    decreases fs.len(),
{
    if fs.len() == 0 {
        Seq::empty()
    } else {
        fields_text(fs.drop_last()) + field_text(fs.last())
    }
}

fn append_values(out: &mut String, field: &String, vs: &Vec<EnumeratedValue>)
    ensures
        final(out)@ == old(out)@ + values_text(field@, vs@.map_values(|v: EnumeratedValue| v@)),
{
    let ghost start = out@;
    let ghost vv = vs@.map_values(|v: EnumeratedValue| v@);
    let n = vs.len();
    let mut i: usize = 0;
    assert(vv.take(0) =~= Seq::<EnumeratedValueView>::empty());
    assert(out@ =~= start + values_text(field@, vv.take(0)));
    while i < n
        invariant
            n == vs@.len(),
            0 <= i <= n,
            vv == vs@.map_values(|v: EnumeratedValue| v@),
            out@ == start + values_text(field@, vv.take(i as int)),
        decreases n - i,
    {
        assert(vv.take(i + 1).drop_last() =~= vv.take(i as int));
        assert(vv.take(i + 1).last() == vs@[i as int]@);
        out.append("        pub const ");
        out.append(field.as_str());
        out.append("_");
        out.append(vs[i].name.as_str());
        out.append(": u64 = 0x");
        append_hex(out, vs[i].value);
        out.append(";\n");
        assert(out@ =~= start + values_text(field@, vv.take(i + 1)));
        i = i + 1;
    }
    assert(vv.take(n as int) =~= vv);
}

fn append_getter(out: &mut String, name: &String, o: u64, m: u64)
    ensures
        final(out)@ == old(out)@ + getter_text(name@, hex_text(o as nat), hex_text(m as nat)),
{
    let ghost start = out@;
    out.append("        #[inline(always)]\n        pub fn ");
    out.append(name.as_str());
    out.append("(self) -> u64 {\n            (self.0 >> 0x");
    append_hex(out, o);
    out.append(") & 0x");
    append_hex(out, m);
    out.append("\n        }\n");
    assert(out@ =~= start + getter_text(name@, hex_text(o as nat), hex_text(m as nat)));
}

#[verifier::rlimit(30)]
fn append_setter(out: &mut String, name: &String, o: u64, m: u64)
    ensures
        final(out)@ == old(out)@ + setter_text(name@, hex_text(o as nat), hex_text(m as nat)),
{
    let ghost start = out@;
    out.append("        #[inline(always)]\n        pub fn set_");
    out.append(name.as_str());
    out.append("(self, value: u64) -> Self {\n            Self((self.0 & !(0x");
    append_hex(out, m);
    out.append(" << 0x");
    append_hex(out, o);
    out.append(")) | ((value & 0x");
    append_hex(out, m);
    out.append(") << 0x");
    append_hex(out, o);
    out.append("))\n        }\n");
    assert(out@ =~= start + setter_text(name@, hex_text(o as nat), hex_text(m as nat)));
}

fn append_layout_consts(out: &mut String, name: &String, o: u64, m: u64)
    ensures
        final(out)@ == old(out)@ + layout_consts_text(name@, hex_text(o as nat), hex_text(m as nat)),
{
    let ghost start = out@;
    out.append("        #[inline(always)]\n        pub fn ");
    out.append(name.as_str());
    out.append("_mask(self) -> u64 {\n            0x");
    append_hex(out, m);
    out.append("\n        }\n        #[inline(always)]\n        pub fn ");
    out.append(name.as_str());
    out.append("_offset(self) -> u32 {\n            0x");
    append_hex(out, o);
    out.append("\n        }\n");
    assert(out@ =~= start + layout_consts_text(name@, hex_text(o as nat), hex_text(m as nat)));
}

/// Appends the accessors of one bitfield.
pub fn append_field(out: &mut String, f: &Field)
    requires
        0 < f.width <= 64,
    ensures
        final(out)@ == old(out)@ + field_text(f@),
{
    let ghost start = out@;
    let m = field_mask(f.width);
    let o = f.offset as u64;
    append_getter(out, &f.name, o, m);
    append_setter(out, &f.name, o, m);
    append_layout_consts(out, &f.name, o, m);
    append_values(out, &f.name, &f.values);
    assert(out@ =~= start + field_text(f@));
}

fn append_fields(out: &mut String, fs: &Vec<Field>)
    requires
        forall|i: int| 0 <= i < fs@.len() ==> 0 < #[trigger] fs@[i].width <= 64,
    ensures
        final(out)@ == old(out)@ + fields_text(fs@.map_values(|f: Field| f@)),
{
    let ghost start = out@;
    let ghost fv = fs@.map_values(|f: Field| f@);
    let n = fs.len();
    let mut i: usize = 0;
    assert(fv.take(0) =~= Seq::<FieldView>::empty());
    assert(out@ =~= start + fields_text(fv.take(0)));
    while i < n
        invariant
            n == fs@.len(),
            0 <= i <= n,
            forall|i: int| 0 <= i < fs@.len() ==> 0 < #[trigger] fs@[i].width <= 64,
            fv == fs@.map_values(|f: Field| f@),
            out@ == start + fields_text(fv.take(i as int)),
        decreases n - i,
    {
        assert(fv.take(i + 1).drop_last() =~= fv.take(i as int));
        assert(fv.take(i + 1).last() == fs@[i as int]@);
        append_field(out, &fs[i]);
        assert(out@ =~= start + fields_text(fv.take(i + 1)));
        i = i + 1;
    }
    assert(fv.take(n as int) =~= fv);
}

/// The integer type of a register `size` bits wide.
pub open spec fn size_type(size: u32) -> Seq<char> {
    if size <= 8 {
        "u8"@
    } else if size <= 16 {
        "u16"@
    } else if size <= 32 {
        "u32"@
    } else {
        "u64"@
    }
}

fn size_type_str(size: u32) -> (r: &'static str)
    ensures
        r@ == size_type(size),
{
    if size <= 8 {
        "u8"
    } else if size <= 16 {
        "u16"
    } else if size <= 32 {
        "u32"
    } else {
        "u64"
    }
}

pub open spec fn header_text(name: Seq<char>) -> Seq<char> {
    "pub mod "@ + name + HEADER_BODY@
}

/// Opens the snapshot type and its raw accessors.
pub const HEADER_BODY: &'static str = " {\n    /// Snapshot of the register's value.\n    #[derive(Copy, Clone, PartialEq, Eq)]\n    pub struct Value(pub u64);\n    impl Value {\n        #[inline(always)]\n        pub fn get_raw(self) -> u64 {\n            self.0\n        }\n        #[inline(always)]\n        pub fn set_raw(self, value: u64) -> Self {\n            Self(value)\n        }\n";

pub open spec fn consts_text(reset_value: u64, address: u64) -> Seq<char> {
    "    }\n    /// The value that `init` hands to its transform.\n    pub const DEFAULT: Value = Value(0x"@
        + hex_text(reset_value as nat) + ");\n    pub const ADDRESS: usize = 0x"@ + hex_text(
        address as nat,
    ) + ";\n"@
}

pub open spec fn read_text(ty: Seq<char>, tracing: bool) -> Seq<char> {
    "    /// Reads the register.\n    #[inline(always)]\n    pub unsafe fn read() -> Value {\n"@ + if tracing {
        "        Value(crate::tracing::read(ADDRESS))\n    }\n"@
    } else {
        "        Value(core::ptr::read_volatile(ADDRESS as *const "@ + ty + ") as u64)\n    }\n"@
    }
}

pub open spec fn write_text(ty: Seq<char>, tracing: bool) -> Seq<char> {
    "    /// Writes the register.\n    #[inline(always)]\n    pub unsafe fn write(value: Value) {\n"@ + if tracing {
        "        crate::tracing::write(ADDRESS, value.0);\n    }\n"@
    } else {
        "        core::ptr::write_volatile(ADDRESS as *mut "@ + ty + ", value.0 as "@ + ty
            + ");\n    }\n"@
    } + INIT_TEXT@
}

/// `init`: writes what the transform returns for the default value.
pub const INIT_TEXT: &'static str = "    /// Writes the value that `f` returns for the register's default value, without reading it.\n    #[inline(always)]\n    pub unsafe fn init(f: impl FnOnce(Value) -> Value) {\n        write(f(DEFAULT));\n    }\n";

/// `modify`: read, transform and write, as three separate steps.
pub const MODIFY_TEXT: &'static str = "    /// Reads the register, transforms the value and writes it back. Not atomic:\n    /// another context may access the register between the read and the write.\n    #[inline(always)]\n    pub unsafe fn modify(f: impl FnOnce(Value) -> Value) {\n        write(f(read()));\n    }\n";

/// The bus-locking atomic modify of the Aurix target.
pub const ATOMIC_MODIFY_TEXT: &'static str = "    /// Atomically replaces the bits selected by `mask` with those of `value`, using a\n    /// bus-locking read-modify-write instruction. This stalls the other bus masters\n    /// for the duration of the transaction.\n    #[inline(always)]\n    pub unsafe fn modify_atomic(mask: u64, value: Value) {\n        crate::aurix::ldmst(ADDRESS, mask, value.0);\n    }\n";

/// The test-only module of the tracing layer that ignores the access mode.
pub const BACKDOOR_TEXT: &'static str = "    /// Test-only access that ignores the register's access mode: reads of\n    /// write-only and writes of read-only registers. Even less safe than the rest.\n    pub mod insanely_unsafe {\n        pub unsafe fn read() -> super::Value {\n            super::Value(crate::tracing::read(super::ADDRESS))\n        }\n        pub unsafe fn write(value: super::Value) {\n            crate::tracing::write(super::ADDRESS, value.0);\n        }\n    }\n";

/// The register may be read.
pub open spec fn readable(a: Access) -> bool {
    a != Access::WriteOnly
}

/// The register may be written.
pub open spec fn writable(a: Access) -> bool {
    a != Access::ReadOnly
}

/// The access operations of a register: `read` where it is readable, `write`
/// and `init` where it is writable, `modify` where it is both, the atomic
/// modify where the target has one (`Aurix`), and with tracing the access-mode backdoor.
pub open spec fn operations_text(r: RegisterView, target: Target, tracing: bool) -> Seq<char> {
    let ty = size_type(r.size);
    (if readable(r.access) {
        read_text(ty, tracing)
    } else {
        Seq::empty()
    }) + (if writable(r.access) {
        write_text(ty, tracing)
    } else {
        Seq::empty()
    }) + (if readable(r.access) && writable(r.access) {
        MODIFY_TEXT@
    } else {
        Seq::empty()
    }) + (if readable(r.access) && writable(r.access) && target_features_spec(target).atomic_modify {
        ATOMIC_MODIFY_TEXT@
    } else {
        Seq::empty()
    }) + (if tracing {
        BACKDOOR_TEXT@
    } else {
        Seq::empty()
    })
}

/// The source of one register's module, named `name`, at `address`: its
/// snapshot type with the field accessors, its default value and address,
/// and its access operations, which with tracing all go through the
/// tracing interface.
pub open spec fn register_text(
    name: Seq<char>,
    r: RegisterView,
    address: u64,
    target: Target,
    tracing: bool,
) -> Seq<char> {
    header_text(name) + fields_text(r.fields) + consts_text(r.reset_value, address)
        + operations_text(r, target, tracing) + "}\n"@
}

fn append_consts(out: &mut String, reset_value: u64, address: u64)
    ensures
        final(out)@ == old(out)@ + consts_text(reset_value, address),
{
    let ghost start = out@;
    out.append("    }\n    /// The value that `init` hands to its transform.\n    pub const DEFAULT: Value = Value(0x");
    append_hex(out, reset_value);
    out.append(");\n    pub const ADDRESS: usize = 0x");
    append_hex(out, address);
    out.append(";\n");
    assert(out@ =~= start + consts_text(reset_value, address));
}

fn append_read(out: &mut String, ty: &str, tracing: bool)
    ensures
        final(out)@ == old(out)@ + read_text(ty@, tracing),
{
    let ghost start = out@;
    out.append("    /// Reads the register.\n    #[inline(always)]\n    pub unsafe fn read() -> Value {\n");
    if tracing {
        out.append("        Value(crate::tracing::read(ADDRESS))\n    }\n");
    } else {
        out.append("        Value(core::ptr::read_volatile(ADDRESS as *const ");
        out.append(ty);
        out.append(") as u64)\n    }\n");
    }
    assert(out@ =~= start + read_text(ty@, tracing));
}

fn append_write(out: &mut String, ty: &str, tracing: bool)
    ensures
        final(out)@ == old(out)@ + write_text(ty@, tracing),
{
    let ghost start = out@;
    out.append("    /// Writes the register.\n    #[inline(always)]\n    pub unsafe fn write(value: Value) {\n");
    if tracing {
        out.append("        crate::tracing::write(ADDRESS, value.0);\n    }\n");
    } else {
        out.append("        core::ptr::write_volatile(ADDRESS as *mut ");
        out.append(ty);
        out.append(", value.0 as ");
        out.append(ty);
        out.append(");\n    }\n");
    }
    out.append(INIT_TEXT);
    assert(out@ =~= start + write_text(ty@, tracing));
}

fn append_operations(out: &mut String, r: &Register, target: Target, tracing: bool)
    ensures
        final(out)@ == old(out)@ + operations_text(r@, target, tracing),
{
    let ghost s0 = out@;
    let ty = size_type_str(r.size);
    let rd = r.access != Access::WriteOnly;
    let wr = r.access != Access::ReadOnly;
    if rd {
        append_read(out, ty, tracing);
    }
    let ghost s1 = out@;
    if wr {
        append_write(out, ty, tracing);
    }
    let ghost s2 = out@;
    if rd && wr {
        out.append(MODIFY_TEXT);
    }
    let ghost s3 = out@;
    if rd && wr && target_features(target).atomic_modify {
        out.append(ATOMIC_MODIFY_TEXT);
    }
    let ghost s4 = out@;
    if tracing {
        out.append(BACKDOOR_TEXT);
    }
    assert(out@ =~= s0 + operations_text(r@, target, tracing));
}

/// Renders the module of register `r` at absolute `address` for `target`.
pub fn emit_register(r: &Register, address: u64, target: Target, tracing: bool) -> (text: String)
    requires
        forall|i: int| 0 <= i < r.fields@.len() ==> 0 < #[trigger] r.fields@[i].width <= 64,
    ensures
        text@ == register_text(r@.name, r@, address, target, tracing),
{
    let mut out = String::new();
    append_register(&mut out, &r.name, r, address, target, tracing);
    assert(out@ =~= register_text(r@.name, r@, address, target, tracing));
    out
}

/// Appends the module of register `r`, under `name`, at absolute `address`.
#[verifier::spinoff_prover]
#[verifier::rlimit(50)]
pub fn append_register(
    out: &mut String,
    name: &String,
    r: &Register,
    address: u64,
    target: Target,
    tracing: bool,
)
    requires
        forall|i: int| 0 <= i < r.fields@.len() ==> 0 < #[trigger] r.fields@[i].width <= 64,
    ensures
        final(out)@ == old(out)@ + register_text(name@, r@, address, target, tracing),
{
    let ghost s0 = out@;
    out.append("pub mod ");
    out.append(name.as_str());
    out.append(HEADER_BODY);
    assert(out@ =~= s0 + header_text(name@));
    let ghost s1 = out@;
    append_fields(out, &r.fields);
    let ghost s2 = out@;
    append_consts(out, r.reset_value, address);
    let ghost s3 = out@;
    append_operations(out, r, target, tracing);
    let ghost s4 = out@;
    out.append("}\n");
    assert(out@ =~= s0 + register_text(name@, r@, address, target, tracing));
}

/// The quoted, comma-terminated list of names.
pub open spec fn names_list_text(ns: Seq<Seq<char>>) -> Seq<char>
    decreases ns.len(),
{
    if ns.len() == 0 {
        Seq::empty()
    } else {
        names_list_text(ns.drop_last()) + "\""@ + ns.last() + "\", "@
    }
}

pub open spec fn row_view(r: AddressNames) -> (u64, Seq<Seq<char>>) {
    (r.address, r.names@.map_values(|s: String| s@))
}

/// The match arms of the address-to-name lookup, one per row.
pub open spec fn rows_text(rows: Seq<(u64, Seq<Seq<char>>)>) -> Seq<char>
    decreases rows.len(),
{
    if rows.len() == 0 {
        Seq::empty()
    } else {
        rows_text(rows.drop_last()) + "        0x"@ + hex_text(rows.last().0 as nat) + " => &["@
            + names_list_text(rows.last().1) + "],\n"@
    }
}

/// The tracing layer's lookup from an address to the names of the registers at it.
pub open spec fn name_map_text(rows: Seq<(u64, Seq<Seq<char>>)>) -> Seq<char> {
    NAME_MAP_HEAD@ + rows_text(rows) + NAME_MAP_TAIL@
}

/// Opens the address-to-name lookup function.
pub const NAME_MAP_HEAD: &'static str = "/// Names of the registers at `addr`; more than one where registers alias.\npub fn reg_name_from_addr(addr: u64) -> &'static [&'static str] {\n    match addr {\n";

/// Closes the address-to-name lookup function.
pub const NAME_MAP_TAIL: &'static str = "        _ => &[],\n    }\n}\n";

fn append_names(out: &mut String, names: &Vec<String>)
    ensures
        final(out)@ == old(out)@ + names_list_text(names@.map_values(|s: String| s@)),
{
    let ghost start = out@;
    let ghost nv = names@.map_values(|s: String| s@);
    let n = names.len();
    let mut i: usize = 0;
    assert(nv.take(0) =~= Seq::<Seq<char>>::empty());
    assert(out@ =~= start + names_list_text(nv.take(0)));
    while i < n
        invariant
            n == names@.len(),
            0 <= i <= n,
            nv == names@.map_values(|s: String| s@),
            out@ == start + names_list_text(nv.take(i as int)),
        decreases n - i,
    {
        assert(nv.take(i + 1).drop_last() =~= nv.take(i as int));
        assert(nv.take(i + 1).last() == names@[i as int]@);
        out.append("\"");
        out.append(names[i].as_str());
        out.append("\", ");
        assert(out@ =~= start + names_list_text(nv.take(i + 1)));
        i = i + 1;
    }
    assert(nv.take(n as int) =~= nv);
}

/// Renders the address-to-name lookup of the tracing layer from the table rows.
pub fn emit_name_map(rows: &Vec<AddressNames>) -> (text: String)
    ensures
        text@ == name_map_text(rows@.map_values(|r: AddressNames| row_view(r))),
{
    let ghost rv = rows@.map_values(|r: AddressNames| row_view(r));
    let mut out = String::new();
    out.append(NAME_MAP_HEAD);
    let ghost start = out@;
    let n = rows.len();
    let mut i: usize = 0;
    assert(rv.take(0) =~= Seq::<(u64, Seq<Seq<char>>)>::empty());
    assert(out@ =~= start + rows_text(rv.take(0)));
    while i < n
        invariant
            n == rows@.len(),
            0 <= i <= n,
            rv == rows@.map_values(|r: AddressNames| row_view(r)),
            out@ == start + rows_text(rv.take(i as int)),
        decreases n - i,
    {
        assert(rv.take(i + 1).drop_last() =~= rv.take(i as int));
        assert(rv.take(i + 1).last() == row_view(rows@[i as int]));
        out.append("        0x");
        append_hex(&mut out, rows[i].address);
        out.append(" => &[");
        append_names(&mut out, &rows[i].names);
        out.append("],\n");
        assert(out@ =~= start + rows_text(rv.take(i + 1)));
        i = i + 1;
    }
    assert(rv.take(n as int) =~= rv);
    out.append(NAME_MAP_TAIL);
    assert(out@ =~= name_map_text(rv));
    out
}

/// Every field of the register is between 1 and 64 bits wide.
pub open spec fn fields_emittable(r: RegisterView) -> bool {
    forall|i: int| 0 <= i < r.fields.len() ==> 0 < #[trigger] r.fields[i].width <= 64
}

/// The modules of the first `n` elements of a register array at the addresses `es`.
pub open spec fn register_array_text(
    r: RegisterView,
    es: Seq<RegisterAddressView>,
    n: int,
    target: Target,
    tracing: bool,
) -> Seq<char>
    decreases n,
{
    if n <= 0 {
        Seq::empty()
    } else {
        register_array_text(r, es, n - 1, target, tracing) + register_text(
            element_name(r.name, (n - 1) as nat),
            r,
            es[n - 1].address,
            target,
            tracing,
        )
    }
}

/// The modules of one register of a peripheral at `base`: one module, or
/// one per array element; `None` where the register cannot be rendered.
pub open spec fn register_units_text(base: u64, r: RegisterView, target: Target, tracing: bool) -> Option<
    Seq<char>,
> {
    if !fields_emittable(r) {
        None
    } else {
        match register_entries(base, r) {
            None => None,
            Some(es) => Some(
                match r.dim {
                    None => register_text(r.name, r, es[0].address, target, tracing),
                    Some(d) => register_array_text(r, es, es.len() as int, target, tracing),
                },
            ),
        }
    }
}

/// The modules of the first `n` registers of a peripheral at `base`.
pub open spec fn registers_text(
    base: u64,
    rs: Seq<RegisterView>,
    n: int,
    target: Target,
    tracing: bool,
) -> Option<Seq<char>>
    decreases n,
{
    if n <= 0 {
        Some(Seq::empty())
    } else {
        match registers_text(base, rs, n - 1, target, tracing) {
            None => None,
            Some(prev) => match register_units_text(base, rs[n - 1], target, tracing) {
                None => None,
                Some(t) => Some(prev + t),
            },
        }
    }
}

/// The source unit of a concrete peripheral: a module holding one module per register instance.
pub open spec fn peripheral_text(c: ConcretePeripheralView, target: Target, tracing: bool) -> Option<
    Seq<char>,
> {
    match registers_text(c.base_address, c.registers, c.registers.len() as int, target, tracing) {
        None => None,
        Some(t) => Some("pub mod "@ + instance_name(c.name, c.index) + " {\n"@ + t + "}\n"@),
    }
}

fn check_field_widths(fs: &Vec<Field>) -> (r: bool)
    ensures
        r == (forall|i: int| 0 <= i < fs@.len() ==> 0 < #[trigger] fs@[i].width <= 64),
{
    let n = fs.len();
    let mut i: usize = 0;
    while i < n
        invariant
            n == fs@.len(),
            0 <= i <= n,
            forall|k: int| 0 <= k < i ==> 0 < #[trigger] fs@[k].width <= 64,
        decreases n - i,
    {
        if fs[i].width == 0 || fs[i].width > 64 {
            return false;
        }
        i = i + 1;
    }
    true
}

proof fn lemma_fields_emittable(r: Register)
    ensures
        fields_emittable(r@) == (forall|i: int|
            0 <= i < r.fields@.len() ==> 0 < #[trigger] r.fields@[i].width <= 64),
{
    assert forall|i: int| 0 <= i < r.fields@.len() implies #[trigger] r@.fields[i] == r.fields@[i]@ by {}
    if fields_emittable(r@) {
        assert forall|i: int| 0 <= i < r.fields@.len() implies 0 < #[trigger] r.fields@[i].width <= 64 by {
            assert(r@.fields[i] == r.fields@[i]@);
            assert(0 < r@.fields[i].width <= 64);
        }
    }
    if forall|i: int| 0 <= i < r.fields@.len() ==> 0 < #[trigger] r.fields@[i].width <= 64 {
        assert forall|i: int| 0 <= i < r@.fields.len() implies 0 < #[trigger] r@.fields[i].width <= 64 by {
            assert(r@.fields[i] == r.fields@[i]@);
        }
    }
}

fn append_register_units(out: &mut String, base: u64, r: &Register, target: Target, tracing: bool) -> (ok: bool)
    ensures
        match register_units_text(base, r@, target, tracing) {
            Some(t) => ok && final(out)@ == old(out)@ + t,
            None => !ok,
        },
{
    let ghost s0 = out@;
    let ok_fields = check_field_widths(&r.fields);
    proof {
        lemma_fields_emittable(*r);
    }
    if !ok_fields {
        return false;
    }
    let start = match base.checked_add(r.offset) {
        Some(a) => a,
        None => {
            return false;
        },
    };
    match r.dim {
        None => {
            append_register(out, &r.name, r, start, target, tracing);
            true
        },
        Some(d) => {
            let addrs = match expand_addresses(start, d) {
                Ok(a) => a,
                Err(_) => {
                    return false;
                },
            };
            let ghost es = register_entries(base, r@).unwrap();
            assert(addrs@.map_values(|a: u64| a as int).len() == addrs@.len());
            assert(array_fits(start, d));
            assert(es.len() == d.dim);
            assert forall|j: int| 0 <= j < es.len() implies #[trigger] es[j].address == (start + j
                * d.increment) as u64 by {}
            let mut k: usize = 0;
            while k < addrs.len()
                invariant
                    addrs@.len() == d.dim,
                    r.dim == Some(d),
                    start == base + r.offset,
                    fields_emittable(r@),
                    forall|i: int| 0 <= i < r.fields@.len() ==> 0 < #[trigger] r.fields@[i].width <= 64,
                    es.len() == d.dim,
                    forall|j: int| 0 <= j < es.len() ==> #[trigger] es[j].address == (start + j
                        * d.increment) as u64,
                    addrs@.map_values(|a: u64| a as int) == array_addresses(start, d),
                    0 <= k <= addrs@.len(),
                    out@ == s0 + register_array_text(r@, es, k as int, target, tracing),
                decreases addrs@.len() - k,
            {
                assert(addrs@.map_values(|a: u64| a as int)[k as int] == addrs@[k as int] as int);
                assert(array_addresses(start, d)[k as int] == start + k * d.increment);
                assert(es[k as int].address == addrs@[k as int]);
                let name = element_name_string(&r.name, k as u64);
                append_register(out, &name, r, addrs[k], target, tracing);
                assert(out@ =~= s0 + register_array_text(r@, es, k + 1, target, tracing));
                k = k + 1;
            }
            true
        },
    }
}

proof fn lemma_registers_text_none_persists(
    base: u64,
    rs: Seq<RegisterView>,
    m: int,
    n: int,
    target: Target,
    tracing: bool,
)
    requires
        0 <= m <= n,
        registers_text(base, rs, m, target, tracing) is None,
    ensures
        registers_text(base, rs, n, target, tracing) is None,
    decreases n,
{
    if n > m {
        lemma_registers_text_none_persists(base, rs, m, n - 1, target, tracing);
    }
}

/// Renders the source unit of one concrete peripheral for `target`. Fails
/// only on a model that layout analysis rejects: a field outside 1 to 64
/// bits, or an address past 64 bits.
pub fn emit_peripheral(c: &ConcretePeripheral, target: Target, tracing: bool) -> (r: Result<
    String,
    CodeGenError,
>)
    ensures
        match peripheral_text(c@, target, tracing) {
            Some(t) => r is Ok && r.unwrap()@ == t,
            None => r is Err,
        },
{
    let ghost rv = c@.registers;
    let mut out = String::new();
    out.append("pub mod ");
    match c.index {
        None => out.append(c.name.as_str()),
        Some(k) => {
            let name = element_name_string(&c.name, k as u64);
            out.append(name.as_str());
        },
    }
    out.append(" {\n");
    let ghost head = out@;
    let n = c.registers.len();
    let mut i: usize = 0;
    assert(head =~= head + Seq::<char>::empty());
    while i < n
        invariant
            n == c.registers@.len(),
            0 <= i <= n,
            rv == c@.registers,
            registers_text(c.base_address, rv, i as int, target, tracing) matches Some(t)
                && out@ == head + t,
        decreases n - i,
    {
        let ghost prev = registers_text(c.base_address, rv, i as int, target, tracing).unwrap();
        assert(rv[i as int] == c.registers@[i as int]@);
        if !append_register_units(&mut out, c.base_address, &c.registers[i], target, tracing) {
            proof {
                lemma_registers_text_none_persists(c.base_address, rv, i + 1, n as int, target, tracing);
            }
            return Err(CodeGenError::FieldWidth);
        }
        assert(out@ =~= head + registers_text(c.base_address, rv, i + 1, target, tracing).unwrap());
        i = i + 1;
    }
    out.append("}\n");
    assert(out@ =~= peripheral_text(c@, target, tracing).unwrap());
    Ok(out)
}

/// The variants of the interrupt enumeration.
pub open spec fn interrupt_variants_text(is: Seq<Interrupt>) -> Seq<char>
    decreases is.len(),
{
    if is.len() == 0 {
        Seq::empty()
    } else {
        interrupt_variants_text(is.drop_last()) + "    "@ + is.last().name@ + " = 0x"@ + hex_text(
            is.last().value as nat,
        ) + ",\n"@
    }
}

/// The device-level extension of a target: where it has an interrupt table
/// (`CortexM`), the NVIC
/// priority-bit count, the interrupt enumeration and the re-export of the
/// core peripherals; nothing for the other targets, whatever interrupts the
/// description lists.
pub open spec fn target_extension_text(target: Target, is: Seq<Interrupt>, nvic_prio_bits: u8) -> Seq<
    char,
> {
    if target_features_spec(target).interrupt_table {
        "/// Number of priority bits of the NVIC.\npub const NVIC_PRIO_BITS: u8 = 0x"@ + hex_text(
            nvic_prio_bits as nat,
        ) + INTERRUPT_HEAD@ + interrupt_variants_text(is) + INTERRUPT_TAIL@
    } else {
        Seq::empty()
    }
}

/// Opens the interrupt enumeration.
pub const INTERRUPT_HEAD: &'static str = ";\n/// Interrupts of the device.\n#[derive(Copy, Clone, Debug, PartialEq, Eq)]\n#[repr(u16)]\npub enum Interrupt {\n";

/// Closes the interrupt enumeration and re-exports the core peripherals,
/// which can be taken any number of times.
pub const INTERRUPT_TAIL: &'static str = "}\nunsafe impl cortex_m::interrupt::InterruptNumber for Interrupt {\n    #[inline(always)]\n    fn number(self) -> u16 {\n        self as u16\n    }\n}\npub use cortex_m::peripheral::Peripherals as CorePeripherals;\n";

/// Renders the device-level extension of `target`.
pub fn emit_target_extension(target: Target, interrupts: &Vec<Interrupt>, nvic_prio_bits: u8) -> (r:
    String)
    ensures
        r@ == target_extension_text(target, interrupts@, nvic_prio_bits),
{
    let mut out = String::new();
    if !target_features(target).interrupt_table {
        assert(out@ =~= target_extension_text(target, interrupts@, nvic_prio_bits));
        return out;
    }
    out.append("/// Number of priority bits of the NVIC.\npub const NVIC_PRIO_BITS: u8 = 0x");
    append_hex(&mut out, nvic_prio_bits as u64);
    out.append(INTERRUPT_HEAD);
    let ghost start = out@;
    let n = interrupts.len();
    let mut i: usize = 0;
    assert(interrupts@.take(0) =~= Seq::<Interrupt>::empty());
    assert(out@ =~= start + interrupt_variants_text(interrupts@.take(0)));
    while i < n
        invariant
            n == interrupts@.len(),
            0 <= i <= n,
            out@ == start + interrupt_variants_text(interrupts@.take(i as int)),
        decreases n - i,
    {
        assert(interrupts@.take(i + 1).drop_last() =~= interrupts@.take(i as int));
        out.append("    ");
        out.append(interrupts[i].name.as_str());
        out.append(" = 0x");
        append_hex(&mut out, interrupts[i].value as u64);
        out.append(",\n");
        assert(out@ =~= start + interrupt_variants_text(interrupts@.take(i + 1)));
        i = i + 1;
    }
    assert(interrupts@.take(n as int) =~= interrupts@);
    out.append(INTERRUPT_TAIL);
    assert(out@ =~= target_extension_text(target, interrupts@, nvic_prio_bits));
    out
}

} // verus!
