//! Model building: enumerated-value checks, array expansion and `derivedFrom` resolution.
use vstd::prelude::*;
use crate::bits::mask_spec;
use crate::error::ModelBuildError;
use crate::derive::{derived_registers, resolved_registers};
use crate::fields::{expand_registers, expand_registers_spec};
use crate::naming::{element_name, element_name_string, instance_name};
use crate::model::{
    copy_registers, registers_view, Dim, EnumeratedValue, Field, FieldView, Peripheral, Register,
    RegisterView,
};

verus! {

/// `value` is representable in a field `width` bits wide.
pub open spec fn fits_width(value: u64, width: u32) -> bool {
    value <= mask_spec(width)
}

pub open spec fn values_fit(vs: Seq<EnumeratedValue>, width: u32) -> bool {
    forall|k: int| 0 <= k < vs.len() ==> #[trigger] fits_width(vs[k].value, width)
}

pub open spec fn field_values_fit(fs: Seq<Field>) -> bool {
    forall|i: int| 0 <= i < fs.len() ==> #[trigger] values_fit(fs[i].values@, fs[i].width)
}

/// Whether `value` is representable in `width` bits.
pub fn value_fits(value: u64, width: u32) -> (r: bool)
    ensures
        r == fits_width(value, width),
{
    if width >= 64 {
        true
    } else {
        let r = (value >> width) == 0;
        assert(((value >> width) == 0) == (value <= ((1u64 << width) - 1) as u64)) by (bit_vector)
            requires
                width < 64,
        ;
        r
    }
}

/// Checks that every enumerated value of every field fits the field's width.
pub fn check_enumerated_values(fields: &Vec<Field>) -> (r: Result<(), ModelBuildError>)
    ensures
        r == (if field_values_fit(fields@) {
            Ok(())
        } else {
            Err(ModelBuildError::EnumeratedValueOverflow)
        }),
{
    let n = fields.len();
    let mut i: usize = 0;
    while i < n
        invariant
            n == fields@.len(),
            0 <= i <= n,
            forall|a: int| 0 <= a < i ==> #[trigger] values_fit(fields@[a].values@, fields@[a].width),
        decreases n - i,
    {
        let f = &fields[i];
        let m = f.values.len();
        let mut k: usize = 0;
        while k < m
            invariant
                0 <= i < n,
                n == fields@.len(),
                f == fields@[i as int],
                m == f.values@.len(),
                0 <= k <= m,
                forall|b: int| 0 <= b < k ==> #[trigger] fits_width(f.values@[b].value, f.width),
            decreases m - k,
        {
            if !value_fits(f.values[k].value, f.width) {
                assert(!values_fit(fields@[i as int].values@, fields@[i as int].width));
                return Err(ModelBuildError::EnumeratedValueOverflow);
            }
            k = k + 1;
        }
        i = i + 1;
    }
    Ok(())
}

/// The addresses of the instances of an array: `base + k * increment` for each `k < dim`.
pub open spec fn array_addresses(base: u64, d: Dim) -> Seq<int> {
    Seq::new(d.dim as nat, |k: int| base + k * d.increment)
}

/// Every instance's address fits 64 bits.
pub open spec fn array_fits(base: u64, d: Dim) -> bool {
    d.dim == 0 || base + (d.dim - 1) * d.increment <= u64::MAX
}

/// Expands an array descriptor into its instance addresses, in order.
pub fn expand_addresses(base: u64, d: Dim) -> (r: Result<Vec<u64>, ModelBuildError>)
    ensures
        array_fits(base, d) ==> r is Ok && r.unwrap()@.map_values(|a: u64| a as int)
            == array_addresses(base, d),
        !array_fits(base, d) ==> r == Err::<Vec<u64>, ModelBuildError>(
            ModelBuildError::AddressOverflow,
        ),
{
    let mut v: Vec<u64> = Vec::new();
    let mut k: u32 = 0;
    while k < d.dim
        invariant
            0 <= k <= d.dim,
            v@.len() == k,
            forall|j: int| 0 <= j < k ==> #[trigger] v@[j] == base + j * d.increment,
            k > 0 ==> base + (k - 1) * d.increment <= u64::MAX,
        decreases d.dim - k,
    {
        let step = (k as u64).checked_mul(d.increment);
        let addr = match step {
            Some(s) => base.checked_add(s),
            None => None,
        };
        match addr {
            Some(a) => {
                v.push(a);
            },
            None => {
                proof {
                    assert(base + k * d.increment > u64::MAX);
                    assert((d.dim - 1) * d.increment >= k * d.increment) by (nonlinear_arith)
                        requires
                            k <= d.dim - 1,
                            d.increment >= 0,
                    ;
                }
                return Err(ModelBuildError::AddressOverflow);
            },
        }
        k = k + 1;
    }
    assert(v@.map_values(|a: u64| a as int) =~= array_addresses(base, d));
    Ok(v)
}

/// One concrete peripheral instance: a template, or one element of an array.
#[derive(Debug)]
pub struct ConcretePeripheral {
    pub name: String,
    /// Position within the array, for an array element.
    pub index: Option<u32>,
    pub base_address: u64,
    pub registers: Vec<Register>,
}

/// The mathematical value of a [`ConcretePeripheral`].
pub struct ConcretePeripheralView {
    pub name: Seq<char>,
    pub index: Option<u32>,
    pub base_address: u64,
    pub registers: Seq<RegisterView>,
}

impl View for ConcretePeripheral {
    type V = ConcretePeripheralView;

    open spec fn view(&self) -> ConcretePeripheralView {
        ConcretePeripheralView {
            name: self.name@,
            index: self.index,
            base_address: self.base_address,
            registers: registers_view(self.registers@),
        }
    }
}

/// Every enumerated value of every field of the register fits its field.
pub open spec fn register_values_fit(r: RegisterView) -> bool {
    forall|i: int, k: int|
        0 <= i < r.fields.len() && 0 <= k < r.fields[i].values.len() ==> #[trigger] fits_width(
            r.fields[i].values[k].value,
            r.fields[i].width,
        )
}

pub open spec fn all_register_values_fit(rs: Seq<RegisterView>) -> bool {
    forall|i: int| 0 <= i < rs.len() ==> #[trigger] register_values_fit(rs[i])
}

/// No name occurs twice.
pub open spec fn distinct_names(ns: Seq<Seq<char>>) -> bool {
    forall|i: int, j: int| 0 <= i < j < ns.len() ==> #[trigger] ns[i] != #[trigger] ns[j]
}

/// The names of a register's concrete instances: its own, or one per array element.
pub open spec fn one_register_names(r: RegisterView) -> Seq<Seq<char>> {
    match r.dim {
        None => seq![r.name],
        Some(d) => Seq::new(d.dim as nat, |k: int| element_name(r.name, k as nat)),
    }
}

/// The names of the concrete register instances of a register list, in order.
pub open spec fn register_instance_names(rs: Seq<RegisterView>) -> Seq<Seq<char>>
    decreases rs.len(),
{
    if rs.len() == 0 {
        Seq::empty()
    } else {
        register_instance_names(rs.drop_last()) + one_register_names(rs.last())
    }
}

/// The module names of concrete peripherals, array elements included.
pub open spec fn concrete_names(cs: Seq<ConcretePeripheralView>) -> Seq<Seq<char>> {
    cs.map_values(|c: ConcretePeripheralView| instance_name(c.name, c.index))
}

/// The names of a register's fields, in order.
pub open spec fn field_names(r: RegisterView) -> Seq<Seq<char>> {
    r.fields.map_values(|f: FieldView| f.name)
}

/// No register has two fields of the same name.
pub open spec fn all_field_names_distinct(rs: Seq<RegisterView>) -> bool {
    forall|i: int| 0 <= i < rs.len() ==> distinct_names(#[trigger] field_names(rs[i]))
}

fn check_field_names(rs: &Vec<Register>) -> (r: bool)
    ensures
        r == all_field_names_distinct(registers_view(rs@)),
{
    let ghost rv = registers_view(rs@);
    let n = rs.len();
    let mut i: usize = 0;
    while i < n
        invariant
            n == rs@.len(),
            0 <= i <= n,
            rv == registers_view(rs@),
            forall|a: int| 0 <= a < i ==> distinct_names(#[trigger] field_names(rv[a])),
        decreases n - i,
    {
        let fs = &rs[i].fields;
        let mut names: Vec<String> = Vec::new();
        let m = fs.len();
        let mut k: usize = 0;
        while k < m
            invariant
                m == fs@.len(),
                0 <= k <= m,
                names@.len() == k,
                forall|j: int| 0 <= j < k ==> #[trigger] names@[j]@ == fs@[j].name@,
            decreases m - k,
        {
            names.push(fs[k].name.clone());
            k = k + 1;
        }
        assert(names@.map_values(|s: String| s@) =~= field_names(rv[i as int]));
        if !all_distinct(&names) {
            return false;
        }
        i = i + 1;
    }
    true
}

fn all_distinct(v: &Vec<String>) -> (r: bool)
    ensures
        r == distinct_names(v@.map_values(|s: String| s@)),
{
    let ghost nv = v@.map_values(|s: String| s@);
    let n = v.len();
    let mut i: usize = 0;
    while i < n
        invariant
            n == v@.len(),
            0 <= i <= n,
            nv == v@.map_values(|s: String| s@),
            forall|a: int, b: int| 0 <= a < i && a < b < n ==> nv[a] != nv[b],
        decreases n - i,
    {
        let mut j: usize = i + 1;
        while j < n
            invariant
                n == v@.len(),
                0 <= i < n,
                i + 1 <= j <= n,
                nv == v@.map_values(|s: String| s@),
                forall|a: int, b: int| 0 <= a < i && a < b < n ==> nv[a] != nv[b],
                forall|b: int| i < b < j ==> nv[i as int] != nv[b],
            decreases n - j,
        {
            if v[i] == v[j] {
                assert(nv[i as int] == nv[j as int]);
                return false;
            }
            j = j + 1;
        }
        i = i + 1;
    }
    true
}

fn register_instance_name_list(rs: &Vec<Register>) -> (r: Vec<String>)
    ensures
        r@.map_values(|s: String| s@) == register_instance_names(registers_view(rs@)),
{
    let ghost rv = registers_view(rs@);
    let mut out: Vec<String> = Vec::new();
    let n = rs.len();
    let mut i: usize = 0;
    assert(rv.take(0) =~= Seq::<RegisterView>::empty());
    assert(out@.map_values(|s: String| s@) =~= register_instance_names(rv.take(0)));
    while i < n
        invariant
            n == rs@.len(),
            0 <= i <= n,
            rv == registers_view(rs@),
            out@.map_values(|s: String| s@) == register_instance_names(rv.take(i as int)),
        decreases n - i,
    {
        assert(rv.take(i + 1).drop_last() =~= rv.take(i as int));
        assert(rv.take(i + 1).last() == rs@[i as int]@);
        let ghost before = out@.map_values(|s: String| s@);
        let ghost mine = one_register_names(rs@[i as int]@);
        match rs[i].dim {
            None => {
                out.push(rs[i].name.clone());
                assert(out@.map_values(|s: String| s@) =~= before + mine);
            },
            Some(d) => {
                let mut k: u32 = 0;
                assert(out@.map_values(|s: String| s@) =~= before + mine.take(0));
                while k < d.dim
                    invariant
                        0 <= k <= d.dim,
                        mine == one_register_names(rs@[i as int]@),
                        rs@[i as int].dim == Some(d),
                        i < n,
                        n == rs@.len(),
                        out@.map_values(|s: String| s@) == before + mine.take(k as int),
                    decreases d.dim - k,
                {
                    let e = element_name_string(&rs[i].name, k as u64);
                    let ghost prev = out@.map_values(|s: String| s@);
                    out.push(e);
                    assert(out@.map_values(|s: String| s@) =~= prev.push(e@));
                    assert(mine.take(k + 1) =~= mine.take(k as int).push(mine[k as int]));
                    k = k + 1;
                }
                assert(mine.take(k as int) =~= mine);
            },
        }
        assert(out@.map_values(|s: String| s@) =~= register_instance_names(rv.take(i + 1)));
        i = i + 1;
    }
    assert(rv.take(n as int) =~= rv);
    out
}

fn concrete_name_list(cs: &Vec<ConcretePeripheral>) -> (r: Vec<String>)
    ensures
        r@.map_values(|s: String| s@) == concrete_names(peripherals_view(cs@)),
{
    let mut out: Vec<String> = Vec::new();
    let n = cs.len();
    let mut i: usize = 0;
    while i < n
        invariant
            n == cs@.len(),
            0 <= i <= n,
            out@.len() == i,
            forall|k: int| 0 <= k < i ==> #[trigger] out@[k]@ == instance_name(cs@[k].name@, cs@[k].index),
        decreases n - i,
    {
        match cs[i].index {
            None => out.push(cs[i].name.clone()),
            Some(k) => out.push(element_name_string(&cs[i].name, k as u64)),
        }
        i = i + 1;
    }
    assert(out@.map_values(|s: String| s@) =~= concrete_names(peripherals_view(cs@)));
    out
}

/// No two registers share a name.
pub open spec fn register_names_unique(rs: Seq<RegisterView>) -> bool {
    forall|i: int, j: int| 0 <= i < j < rs.len() ==> #[trigger] rs[i].name != #[trigger] rs[j].name
}

fn check_register_names(rs: &Vec<Register>) -> (r: bool)
    ensures
        r == register_names_unique(registers_view(rs@)),
{
    let ghost rv = registers_view(rs@);
    let n = rs.len();
    let mut i: usize = 0;
    while i < n
        invariant
            n == rs@.len(),
            0 <= i <= n,
            rv == registers_view(rs@),
            forall|a: int, b: int| 0 <= a < i && a < b < n ==> rv[a].name != rv[b].name,
        decreases n - i,
    {
        let mut j: usize = i + 1;
        while j < n
            invariant
                n == rs@.len(),
                0 <= i < n,
                i + 1 <= j <= n,
                rv == registers_view(rs@),
                forall|a: int, b: int| 0 <= a < i && a < b < n ==> rv[a].name != rv[b].name,
                forall|b: int| i < b < j ==> rv[i as int].name != rv[b].name,
            decreases n - j,
        {
            if rs[i].name == rs[j].name {
                assert(rv[i as int].name == rv[j as int].name);
                return false;
            }
            j = j + 1;
        }
        i = i + 1;
    }
    true
}

/// No two peripherals share a name.
pub open spec fn names_unique(ps: Seq<Peripheral>) -> bool {
    forall|i: int, j: int| 0 <= i < j < ps.len() ==> #[trigger] ps[i].name@ != #[trigger] ps[j].name@
}

/// The concrete instances of peripheral `p` with resolved registers `regs`.
pub open spec fn instances_spec(p: Peripheral, regs: Seq<RegisterView>) -> Result<
    Seq<ConcretePeripheralView>,
    ModelBuildError,
> {
    match p.dim {
        None => Ok(
            seq![ConcretePeripheralView { name: p.name@, index: None, base_address: p.base_address, registers: regs }],
        ),
        Some(d) => if !array_fits(p.base_address, d) {
            Err(ModelBuildError::AddressOverflow)
        } else {
            Ok(
                Seq::new(
                    d.dim as nat,
                    |k: int|
                        ConcretePeripheralView {
                            name: p.name@,
                            index: Some(k as u32),
                            base_address: (p.base_address + k * d.increment) as u64,
                            registers: regs,
                        },
                ),
            )
        },
    }
}

/// The concrete instances of the first `n` peripherals, or the first failure.
pub open spec fn build_prefix(ps: Seq<Peripheral>, n: int) -> Result<
    Seq<ConcretePeripheralView>,
    ModelBuildError,
>
    decreases n,
{
    if n <= 0 {
        Ok(Seq::empty())
    } else {
        match build_prefix(ps, n - 1) {
            Err(e) => Err(e),
            Ok(prev) => match resolved_registers(ps, n - 1, ps.len()) {
                Err(e) => Err(e),
                Ok(declared) => match expand_registers_spec(declared, declared.len() as int) {
                    None => Err(ModelBuildError::FieldOffsetOverflow),
                    Some(regs) => if !all_register_values_fit(regs) {
                        Err(ModelBuildError::EnumeratedValueOverflow)
                    } else if !register_names_unique(regs) || !distinct_names(
                        register_instance_names(regs),
                    ) || !all_field_names_distinct(regs) {
                        Err(ModelBuildError::DuplicateName)
                    } else {
                        match instances_spec(ps[n - 1], regs) {
                            Err(e) => Err(e),
                            Ok(inst) => Ok(prev + inst),
                        }
                    },
                },
            },
        }
    }
}

/// What building the model of a peripheral list yields.
pub open spec fn build_spec(ps: Seq<Peripheral>) -> Result<
    Seq<ConcretePeripheralView>,
    ModelBuildError,
> {
    if !names_unique(ps) {
        Err(ModelBuildError::DuplicateName)
    } else {
        match build_prefix(ps, ps.len() as int) {
            Err(e) => Err(e),
            Ok(cs) => if !distinct_names(concrete_names(cs)) {
                Err(ModelBuildError::DuplicateName)
            } else {
                Ok(cs)
            },
        }
    }
}

pub open spec fn peripherals_view(cs: Seq<ConcretePeripheral>) -> Seq<ConcretePeripheralView> {
    cs.map_values(|c: ConcretePeripheral| c@)
}

proof fn lemma_prefix_error_persists(ps: Seq<Peripheral>, m: int, n: int)
    requires
        0 <= m <= n,
        build_prefix(ps, m) is Err,
    ensures
        build_prefix(ps, n) == build_prefix(ps, m),
    decreases n,
{
    if n > m {
        lemma_prefix_error_persists(ps, m, n - 1);
    }
}

fn check_register_values(rs: &Vec<Register>) -> (r: bool)
    ensures
        r == all_register_values_fit(registers_view(rs@)),
{
    let n = rs.len();
    let mut i: usize = 0;
    while i < n
        invariant
            n == rs@.len(),
            0 <= i <= n,
            forall|a: int| 0 <= a < i ==> #[trigger] register_values_fit(rs@[a]@),
        decreases n - i,
    {
        let ok = check_enumerated_values(&rs[i].fields);
        proof {
            lemma_field_values_fit_view(rs@[i as int]);
        }
        if ok.is_err() {
            assert(!register_values_fit(registers_view(rs@)[i as int]));
            return false;
        }
        i = i + 1;
    }
    assert(all_register_values_fit(registers_view(rs@)));
    true
}

proof fn lemma_field_values_fit_view(r: Register)
    ensures
        field_values_fit(r.fields@) == register_values_fit(r@),
{
    if field_values_fit(r.fields@) {
        assert forall|i: int, k: int|
            0 <= i < r@.fields.len() && 0 <= k < r@.fields[i].values.len() implies #[trigger] fits_width(
            r@.fields[i].values[k].value,
            r@.fields[i].width,
        ) by {
            assert(values_fit(r.fields@[i].values@, r.fields@[i].width));
            assert(r@.fields[i].values[k].value == r.fields@[i].values@[k].value);
        }
    }
    if register_values_fit(r@) {
        assert forall|i: int| 0 <= i < r.fields@.len() implies #[trigger] values_fit(
            r.fields@[i].values@,
            r.fields@[i].width,
        ) by {
            assert forall|k: int| 0 <= k < r.fields@[i].values@.len() implies #[trigger] fits_width(
                r.fields@[i].values@[k].value,
                r.fields@[i].width,
            ) by {
                assert(r@.fields[i].values[k].value == r.fields@[i].values@[k].value);
                assert(fits_width(r@.fields[i].values[k].value, r@.fields[i].width));
            }
        }
    }
}

fn check_unique_names(ps: &Vec<Peripheral>) -> (r: bool)
    ensures
        r == names_unique(ps@),
{
    let n = ps.len();
    let mut i: usize = 0;
    while i < n
        invariant
            n == ps@.len(),
            0 <= i <= n,
            forall|a: int, b: int| 0 <= a < i && a < b < n ==> ps@[a].name@ != ps@[b].name@,
        decreases n - i,
    {
        let mut j: usize = i + 1;
        while j < n
            invariant
                n == ps@.len(),
                0 <= i < n,
                i + 1 <= j <= n,
                forall|a: int, b: int| 0 <= a < i && a < b < n ==> ps@[a].name@ != ps@[b].name@,
                forall|b: int| i < b < j ==> ps@[i as int].name@ != ps@[b].name@,
            decreases n - j,
        {
            if ps[i].name == ps[j].name {
                return false;
            }
            j = j + 1;
        }
        i = i + 1;
    }
    true
}

fn push_instances(out: &mut Vec<ConcretePeripheral>, p: &Peripheral, regs: Vec<Register>) -> (r:
    Result<(), ModelBuildError>)
    ensures
        match instances_spec(*p, registers_view(regs@)) {
            Ok(inst) => r is Ok && peripherals_view(final(out)@) == peripherals_view(old(out)@)
                + inst,
            Err(e) => r == Err::<(), ModelBuildError>(e),
        },
{
    let ghost before = peripherals_view(out@);
    let ghost rv = registers_view(regs@);
    match p.dim {
        None => {
            out.push(
                ConcretePeripheral {
                    name: p.name.clone(),
                    index: None,
                    base_address: p.base_address,
                    registers: regs,
                },
            );
            assert(peripherals_view(out@) =~= before + instances_spec(*p, rv).unwrap());
            Ok(())
        },
        Some(d) => {
            let addrs = match expand_addresses(p.base_address, d) {
                Ok(a) => a,
                Err(e) => {
                    return Err(e);
                },
            };
            let ghost inst = instances_spec(*p, rv).unwrap();
            assert(addrs@.map_values(|a: u64| a as int).len() == addrs@.len());
            let mut k: usize = 0;
            while k < addrs.len()
                invariant
                    addrs@.len() == d.dim,
                    p.dim == Some(d),
                    array_fits(p.base_address, d),
                    inst == instances_spec(*p, rv).unwrap(),
                    rv == registers_view(regs@),
                    addrs@.map_values(|a: u64| a as int) == array_addresses(p.base_address, d),
                    0 <= k <= addrs@.len(),
                    peripherals_view(out@) =~= before + inst.take(k as int),
                decreases addrs@.len() - k,
            {
                assert(addrs@.map_values(|a: u64| a as int)[k as int] == addrs@[k as int] as int);
                let c = ConcretePeripheral {
                    name: p.name.clone(),
                    index: Some(k as u32),
                    base_address: addrs[k],
                    registers: copy_registers(&regs),
                };
                let ghost prev = peripherals_view(out@);
                out.push(c);
                assert(peripherals_view(out@) =~= prev.push(c@));
                assert(inst.take(k + 1) =~= inst.take(k as int).push(inst[k as int]));
                k = k + 1;
            }
            assert(inst.take(k as int) =~= inst);
            Ok(())
        },
    }
}

/// Builds the concrete peripherals of a device: names must be unique, each
/// peripheral's `derivedFrom` chain is resolved, bitfield arrays are expanded
/// into fields named `name_k`, every enumerated value must
/// fit its field, register names must be unique within a peripheral and
/// field names within a register, array elements included, each array peripheral becomes one instance per element
/// at `base + k * increment`, in declaration order, and no two concrete
/// peripherals, array elements included, may end up with the same name.
pub fn build_peripherals(ps: &Vec<Peripheral>) -> (r: Result<Vec<ConcretePeripheral>, ModelBuildError>)
    ensures
        match build_spec(ps@) {
            Ok(cs) => r is Ok && peripherals_view(r.unwrap()@) == cs,
            Err(e) => r == Err::<Vec<ConcretePeripheral>, ModelBuildError>(e),
        },
{
    if !check_unique_names(ps) {
        return Err(ModelBuildError::DuplicateName);
    }
    let mut out: Vec<ConcretePeripheral> = Vec::new();
    let n = ps.len();
    let mut i: usize = 0;
    assert(peripherals_view(out@) =~= Seq::<ConcretePeripheralView>::empty());
    while i < n
        invariant
            n == ps@.len(),
            0 <= i <= n,
            names_unique(ps@),
            build_prefix(ps@, i as int) == Ok::<Seq<ConcretePeripheralView>, ModelBuildError>(
                peripherals_view(out@),
            ),
        decreases n - i,
    {
        let regs = match derived_registers(ps, i) {
            Ok(v) => v,
            Err(e) => {
                assert(build_prefix(ps@, i + 1) == Err::<Seq<ConcretePeripheralView>, ModelBuildError>(e));
                proof {
                    lemma_prefix_error_persists(ps@, i + 1, n as int);
                }
                return Err(e);
            },
        };
        let regs = match expand_registers(&regs) {
            Some(x) => x,
            None => {
                assert(build_prefix(ps@, i + 1) == Err::<Seq<ConcretePeripheralView>, ModelBuildError>(
                    ModelBuildError::FieldOffsetOverflow,
                ));
                proof {
                    lemma_prefix_error_persists(ps@, i + 1, n as int);
                }
                return Err(ModelBuildError::FieldOffsetOverflow);
            },
        };
        if !check_register_values(&regs) {
            assert(build_prefix(ps@, i + 1) == Err::<Seq<ConcretePeripheralView>, ModelBuildError>(
                ModelBuildError::EnumeratedValueOverflow,
            ));
            proof {
                lemma_prefix_error_persists(ps@, i + 1, n as int);
            }
            return Err(ModelBuildError::EnumeratedValueOverflow);
        }
        let names = register_instance_name_list(&regs);
        if !check_register_names(&regs) || !all_distinct(&names) || !check_field_names(&regs) {
            assert(build_prefix(ps@, i + 1) == Err::<Seq<ConcretePeripheralView>, ModelBuildError>(
                ModelBuildError::DuplicateName,
            ));
            proof {
                lemma_prefix_error_persists(ps@, i + 1, n as int);
            }
            return Err(ModelBuildError::DuplicateName);
        }
        match push_instances(&mut out, &ps[i], regs) {
            Ok(()) => {},
            Err(e) => {
                proof {
                    lemma_prefix_error_persists(ps@, i + 1, n as int);
                }
                return Err(e);
            },
        }
        i = i + 1;
    }
    let names = concrete_name_list(&out);
    if !all_distinct(&names) {
        return Err(ModelBuildError::DuplicateName);
    }
    Ok(out)
}

} // verus!
