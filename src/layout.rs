//! Layout checks: bitfield placement inside a register, and register addresses.
use vstd::prelude::*;
use crate::error::LayoutError;
use crate::builder::{
    array_addresses, array_fits, expand_addresses, peripherals_view, ConcretePeripheral,
    ConcretePeripheralView,
};
use crate::model::{registers_view, Field, FieldView, Register, RegisterView};

verus! {

/// A concrete register instance at its absolute address.
#[derive(Clone, Debug)]
pub struct RegisterAddress {
    pub name: String,
    pub address: u64,
    /// Whether the register deliberately shares its address with another one.
    pub alias: bool,
}

/// The mathematical value of a [`RegisterAddress`].
pub struct RegisterAddressView {
    pub name: Seq<char>,
    pub address: u64,
    pub alias: bool,
}

impl View for RegisterAddress {
    type V = RegisterAddressView;

    open spec fn view(&self) -> RegisterAddressView {
        RegisterAddressView { name: self.name@, address: self.address, alias: self.alias }
    }
}

pub open spec fn addresses_view(es: Seq<RegisterAddress>) -> Seq<RegisterAddressView> {
    es.map_values(|e: RegisterAddress| e@)
}

pub open spec fn fields_view(fs: Seq<Field>) -> Seq<FieldView> {
    fs.map_values(|f: Field| f@)
}

/// The field is not empty and ends at or before the register's last bit.
pub open spec fn field_in_range(f: FieldView, size: u32) -> bool {
    0 < f.width && f.offset + f.width <= size
}

/// The bit ranges `[offset, offset + width)` of the two fields intersect.
pub open spec fn fields_overlap(a: FieldView, b: FieldView) -> bool {
    a.offset < b.offset + b.width && b.offset < a.offset + a.width
}

pub open spec fn all_in_range(fs: Seq<FieldView>, size: u32) -> bool {
    forall|i: int| 0 <= i < fs.len() ==> #[trigger] field_in_range(fs[i], size)
}

pub open spec fn pairwise_disjoint(fs: Seq<FieldView>) -> bool {
    forall|i: int, j: int| 0 <= i < j < fs.len() ==> !#[trigger] fields_overlap(fs[i], fs[j])
}

/// What the field check of a register of `size` bits decides.
pub open spec fn check_fields_spec(fs: Seq<FieldView>, size: u32) -> Result<(), LayoutError> {
    if !all_in_range(fs, size) {
        Err(LayoutError::FieldOutOfRange)
    } else if !pairwise_disjoint(fs) {
        Err(LayoutError::OverlappingFields)
    } else {
        Ok(())
    }
}

/// A register whose fields pass the check has every field inside it, and no
/// two of its fields share a bit.
pub proof fn lemma_accepted_fields_fit(fs: Seq<FieldView>, size: u32)
    requires
        check_fields_spec(fs, size) is Ok,
    ensures
        forall|i: int| 0 <= i < fs.len() ==> 0 < #[trigger] fs[i].width && fs[i].offset + fs[i].width <= size,
        forall|i: int, j: int|
            0 <= i < fs.len() && 0 <= j < fs.len() && i != j ==> (#[trigger] fs[i]).offset
                + fs[i].width <= (#[trigger] fs[j]).offset || fs[j].offset + fs[j].width
                <= fs[i].offset,
{
    assert forall|i: int| 0 <= i < fs.len() implies 0 < #[trigger] fs[i].width && fs[i].offset
        + fs[i].width <= size by {
        assert(field_in_range(fs[i], size));
    }
    assert forall|i: int, j: int|
        0 <= i < fs.len() && 0 <= j < fs.len() && i != j implies (#[trigger] fs[i]).offset
        + fs[i].width <= (#[trigger] fs[j]).offset || fs[j].offset + fs[j].width
        <= fs[i].offset by {
        if i < j {
            assert(!fields_overlap(fs[i], fs[j]));
        } else {
            assert(!fields_overlap(fs[j], fs[i]));
        }
    }
}

/// Checks that every field of a register of `size` bits is non-empty and
/// inside the register, and that no two fields share a bit.
pub fn check_fields(fields: &Vec<Field>, size: u32) -> (r: Result<(), LayoutError>)
    ensures
        r == check_fields_spec(fields_view(fields@), size),
{
    let ghost fv = fields_view(fields@);
    let n = fields.len();
    let mut i: usize = 0;
    while i < n
        invariant
            n == fields@.len(),
            fv == fields_view(fields@),
            0 <= i <= n,
            forall|k: int| 0 <= k < i ==> #[trigger] field_in_range(fv[k], size),
        decreases n - i,
    {
        let f = &fields[i];
        if f.width == 0 || f.offset as u64 + f.width as u64 > size as u64 {
            assert(!field_in_range(fv[i as int], size));
            return Err(LayoutError::FieldOutOfRange);
        }
        i = i + 1;
    }
    let mut i: usize = 0;
    while i < n
        invariant
            n == fields@.len(),
            fv == fields_view(fields@),
            0 <= i <= n,
            all_in_range(fv, size),
            forall|a: int, b: int|
                0 <= a < i && a < b < n ==> !#[trigger] fields_overlap(fv[a], fv[b]),
        decreases n - i,
    {
        let mut j: usize = i + 1;
        while j < n
            invariant
                n == fields@.len(),
            fv == fields_view(fields@),
                0 <= i < n,
                i + 1 <= j <= n,
                all_in_range(fv, size),
                forall|a: int, b: int|
                    0 <= a < i && a < b < n ==> !#[trigger] fields_overlap(fv[a], fv[b]),
                forall|b: int| i < b < j ==> !#[trigger] fields_overlap(fv[i as int], fv[b]),
            decreases n - j,
        {
            let a = &fields[i];
            let b = &fields[j];
            if (a.offset as u64) < b.offset as u64 + b.width as u64 && (b.offset as u64)
                < a.offset as u64 + a.width as u64 {
                assert(fields_overlap(fv[i as int], fv[j as int]));
                return Err(LayoutError::OverlappingFields);
            }
            j = j + 1;
        }
        i = i + 1;
    }
    Ok(())
}

/// Two distinct registers collide: same address and neither declared an alias.
pub open spec fn collide(a: RegisterAddressView, b: RegisterAddressView) -> bool {
    a.address == b.address && !a.alias && !b.alias
}

pub open spec fn has_collision(es: Seq<RegisterAddressView>) -> bool {
    exists|i: int, j: int| 0 <= i < j < es.len() && #[trigger] collide(es[i], es[j])
}

/// Fails when two registers share an absolute address and neither is
/// declared an alias.
pub fn check_address_collisions(entries: &Vec<RegisterAddress>) -> (r: Result<(), LayoutError>)
    ensures
        r == (if has_collision(addresses_view(entries@)) {
            Err(LayoutError::AddressCollision)
        } else {
            Ok(())
        }),
{
    let ghost ev = addresses_view(entries@);
    let n = entries.len();
    let mut i: usize = 0;
    while i < n
        invariant
            n == entries@.len(),
            ev == addresses_view(entries@),
            0 <= i <= n,
            forall|a: int, b: int|
                0 <= a < i && a < b < n ==> !#[trigger] collide(ev[a], ev[b]),
        decreases n - i,
    {
        let mut j: usize = i + 1;
        while j < n
            invariant
                n == entries@.len(),
            ev == addresses_view(entries@),
                0 <= i < n,
                i + 1 <= j <= n,
                forall|a: int, b: int|
                    0 <= a < i && a < b < n ==> !#[trigger] collide(ev[a], ev[b]),
                forall|b: int| i < b < j ==> !#[trigger] collide(ev[i as int], ev[b]),
            decreases n - j,
        {
            if entries[i].address == entries[j].address && !entries[i].alias
                && !entries[j].alias {
                assert(collide(ev[i as int], ev[j as int]));
                return Err(LayoutError::AddressCollision);
            }
            j = j + 1;
        }
        i = i + 1;
    }
    Ok(())
}

/// The names of the registers at `address`, in declaration order.
pub open spec fn names_at_spec(es: Seq<RegisterAddressView>, address: u64) -> Seq<Seq<char>>
    decreases es.len(),
{
    if es.len() == 0 {
        Seq::empty()
    } else {
        let rest = names_at_spec(es.drop_last(), address);
        if es.last().address == address {
            rest.push(es.last().name)
        } else {
            rest
        }
    }
}

/// Looks up the names of every register at `address`; more than one when
/// registers alias that address.
pub fn names_at(entries: &Vec<RegisterAddress>, address: u64) -> (r: Vec<String>)
    ensures
        r@.len() == names_at_spec(addresses_view(entries@), address).len(),
        forall|k: int| 0 <= k < r@.len() ==> #[trigger] r@[k]@ == names_at_spec(addresses_view(entries@), address)[k],
{
    let ghost ev = addresses_view(entries@);
    let mut r: Vec<String> = Vec::new();
    let n = entries.len();
    let mut i: usize = 0;
    while i < n
        invariant
            n == entries@.len(),
            ev == addresses_view(entries@),
            0 <= i <= n,
            r@.len() == names_at_spec(ev.take(i as int), address).len(),
            forall|k: int|
                0 <= k < r@.len() ==> #[trigger] r@[k]@ == names_at_spec(
                    ev.take(i as int),
                    address,
                )[k],
        decreases n - i,
    {
        assert(ev.take(i + 1).drop_last() =~= ev.take(i as int));
        if entries[i].address == address {
            r.push(entries[i].name.clone());
        }
        i = i + 1;
    }
    assert(ev.take(n as int) =~= ev);
    r
}

proof fn lemma_names_at_contains(es: Seq<RegisterAddressView>, address: u64, i: int)
    requires
        0 <= i < es.len(),
        es[i].address == address,
    ensures
        names_at_spec(es, address).contains(es[i].name),
    decreases es.len(),
{
    let rest = names_at_spec(es.drop_last(), address);
    if i == es.len() - 1 {
        assert(names_at_spec(es, address).last() == es[i].name);
    } else {
        lemma_names_at_contains(es.drop_last(), address, i);
        let k = choose|k: int| 0 <= k < rest.len() && rest[k] == es[i].name;
        if es.last().address == address {
            assert(names_at_spec(es, address)[k] == es[i].name);
        }
    }
}

/// Two registers declared at the same absolute address both appear in the
/// name lookup of that address.
pub proof fn lemma_aliases_listed(es: Seq<RegisterAddressView>, i: int, j: int)
    requires
        0 <= i < es.len(),
        0 <= j < es.len(),
        es[i].address == es[j].address,
    ensures
        names_at_spec(es, es[i].address).contains(es[i].name),
        names_at_spec(es, es[i].address).contains(es[j].name),
{
    lemma_names_at_contains(es, es[i].address, i);
    lemma_names_at_contains(es, es[i].address, j);
}

/// The absolute addresses of a register's instances in a peripheral at
/// `base`: one, or one per array element at `offset + k * increment`; `None`
/// where an address does not fit 64 bits.
pub open spec fn register_entries(base: u64, r: RegisterView) -> Option<Seq<RegisterAddressView>> {
    if base + r.offset > u64::MAX {
        None
    } else {
        let start = (base + r.offset) as u64;
        match r.dim {
            None => Some(seq![RegisterAddressView { name: r.name, address: start, alias: r.alias }]),
            Some(d) => if !array_fits(start, d) {
                None
            } else {
                Some(
                    Seq::new(
                        d.dim as nat,
                        |k: int|
                            RegisterAddressView {
                                name: r.name,
                                address: (start + k * d.increment) as u64,
                                alias: r.alias,
                            },
                    ),
                )
            },
        }
    }
}

/// The layout of the first `n` registers of a peripheral at `base`.
pub open spec fn registers_layout(base: u64, rs: Seq<RegisterView>, n: int) -> Result<
    Seq<RegisterAddressView>,
    LayoutError,
>
    decreases n,
{
    if n <= 0 {
        Ok(Seq::empty())
    } else {
        match registers_layout(base, rs, n - 1) {
            Err(e) => Err(e),
            Ok(prev) => match check_fields_spec(rs[n - 1].fields, rs[n - 1].size) {
                Err(e) => Err(e),
                Ok(_) => match register_entries(base, rs[n - 1]) {
                    None => Err(LayoutError::AddressOverflow),
                    Some(es) => Ok(prev + es),
                },
            },
        }
    }
}

/// The layout of the first `n` concrete peripherals.
pub open spec fn device_layout(cs: Seq<ConcretePeripheralView>, n: int) -> Result<
    Seq<RegisterAddressView>,
    LayoutError,
>
    decreases n,
{
    if n <= 0 {
        Ok(Seq::empty())
    } else {
        match device_layout(cs, n - 1) {
            Err(e) => Err(e),
            Ok(prev) => match registers_layout(
                cs[n - 1].base_address,
                cs[n - 1].registers,
                cs[n - 1].registers.len() as int,
            ) {
                Err(e) => Err(e),
                Ok(es) => Ok(prev + es),
            },
        }
    }
}

/// What the layout analysis of a list of concrete peripherals yields.
pub open spec fn layout_spec(cs: Seq<ConcretePeripheralView>) -> Result<
    Seq<RegisterAddressView>,
    LayoutError,
> {
    match device_layout(cs, cs.len() as int) {
        Err(e) => Err(e),
        Ok(es) => if has_collision(es) {
            Err(LayoutError::AddressCollision)
        } else {
            Ok(es)
        },
    }
}

proof fn lemma_registers_error_persists(base: u64, rs: Seq<RegisterView>, m: int, n: int)
    requires
        0 <= m <= n,
        registers_layout(base, rs, m) is Err,
    ensures
        registers_layout(base, rs, n) == registers_layout(base, rs, m),
    decreases n,
{
    if n > m {
        lemma_registers_error_persists(base, rs, m, n - 1);
    }
}

proof fn lemma_device_error_persists(cs: Seq<ConcretePeripheralView>, m: int, n: int)
    requires
        0 <= m <= n,
        device_layout(cs, m) is Err,
    ensures
        device_layout(cs, n) == device_layout(cs, m),
    decreases n,
{
    if n > m {
        lemma_device_error_persists(cs, m, n - 1);
    }
}

fn push_register_entries(out: &mut Vec<RegisterAddress>, base: u64, r: &Register) -> (ok: bool)
    ensures
        match register_entries(base, r@) {
            Some(es) => ok && addresses_view(final(out)@) == addresses_view(old(out)@) + es,
            None => !ok,
        },
{
    let ghost before = addresses_view(out@);
    let start = match base.checked_add(r.offset) {
        Some(a) => a,
        None => {
            return false;
        },
    };
    match r.dim {
        None => {
            out.push(RegisterAddress { name: r.name.clone(), address: start, alias: r.alias });
            assert(addresses_view(out@) =~= before + register_entries(base, r@).unwrap());
            true
        },
        Some(d) => {
            let addrs = match expand_addresses(start, d) {
                Ok(a) => a,
                Err(_) => {
                    return false;
                },
            };
            let ghost es = register_entries(base, r@).unwrap();
            assert(addrs@.map_values(|a: u64| a as int).len() == addrs@.len());
            let mut k: usize = 0;
            while k < addrs.len()
                invariant
                    addrs@.len() == d.dim,
                    r.dim == Some(d),
                    start == base + r.offset,
                    array_fits(start, d),
                    es == register_entries(base, r@).unwrap(),
                    addrs@.map_values(|a: u64| a as int) == array_addresses(start, d),
                    0 <= k <= addrs@.len(),
                    addresses_view(out@) =~= before + es.take(k as int),
                decreases addrs@.len() - k,
            {
                assert(addrs@.map_values(|a: u64| a as int)[k as int] == addrs@[k as int] as int);
                let e = RegisterAddress { name: r.name.clone(), address: addrs[k], alias: r.alias };
                let ghost prev = addresses_view(out@);
                out.push(e);
                assert(addresses_view(out@) =~= prev.push(e@));
                assert(es.take(k + 1) =~= es.take(k as int).push(es[k as int]));
                k = k + 1;
            }
            assert(es.take(k as int) =~= es);
            true
        },
    }
}

fn layout_registers(out: &mut Vec<RegisterAddress>, base: u64, rs: &Vec<Register>) -> (r: Result<
    (),
    LayoutError,
>)
    ensures
        match registers_layout(base, registers_view(rs@), rs@.len() as int) {
            Ok(es) => r is Ok && addresses_view(final(out)@) == addresses_view(old(out)@) + es,
            Err(e) => r == Err::<(), LayoutError>(e),
        },
{
    let ghost before = addresses_view(out@);
    let ghost rv = registers_view(rs@);
    let n = rs.len();
    let mut i: usize = 0;
    assert(before + Seq::<RegisterAddressView>::empty() =~= before);
    while i < n
        invariant
            n == rs@.len(),
            0 <= i <= n,
            rv == registers_view(rs@),
            registers_layout(base, rv, i as int) matches Ok(es) && addresses_view(out@) == before
                + es,
        decreases n - i,
    {
        let ghost prev = registers_layout(base, rv, i as int).unwrap();
        assert(rv[i as int].fields =~= fields_view(rs@[i as int].fields@));
        match check_fields(&rs[i].fields, rs[i].size) {
            Ok(()) => {},
            Err(e) => {
                proof {
                    lemma_registers_error_persists(base, rv, i + 1, n as int);
                }
                return Err(e);
            },
        }
        if !push_register_entries(out, base, &rs[i]) {
            proof {
                lemma_registers_error_persists(base, rv, i + 1, n as int);
            }
            return Err(LayoutError::AddressOverflow);
        }
        assert(addresses_view(out@) =~= before + registers_layout(base, rv, i + 1).unwrap());
        i = i + 1;
    }
    Ok(())
}

/// Lays out a device: checks the bitfields of every register and computes
/// the absolute address of every register instance, in declaration order.
/// Fails on a misplaced or overlapping bitfield, on an address past 64 bits,
/// and on two registers at one address neither of which is an alias.
pub fn layout_device(cs: &Vec<ConcretePeripheral>) -> (r: Result<Vec<RegisterAddress>, LayoutError>)
    ensures
        match layout_spec(peripherals_view(cs@)) {
            Ok(es) => r is Ok && addresses_view(r.unwrap()@) == es,
            Err(e) => r == Err::<Vec<RegisterAddress>, LayoutError>(e),
        },
{
    let ghost cv = peripherals_view(cs@);
    let mut out: Vec<RegisterAddress> = Vec::new();
    let n = cs.len();
    let mut i: usize = 0;
    assert(addresses_view(out@) =~= Seq::<RegisterAddressView>::empty());
    while i < n
        invariant
            n == cs@.len(),
            0 <= i <= n,
            cv == peripherals_view(cs@),
            device_layout(cv, i as int) == Ok::<Seq<RegisterAddressView>, LayoutError>(
                addresses_view(out@),
            ),
        decreases n - i,
    {
        match layout_registers(&mut out, cs[i].base_address, &cs[i].registers) {
            Ok(()) => {},
            Err(e) => {
                proof {
                    lemma_device_error_persists(cv, i + 1, n as int);
                }
                return Err(e);
            },
        }
        i = i + 1;
    }
    match check_address_collisions(&out) {
        Ok(()) => Ok(out),
        Err(e) => Err(e),
    }
}

/// One row of the address-to-name table: an address and every register name at it.
#[derive(Clone, Debug)]
pub struct AddressNames {
    pub address: u64,
    pub names: Vec<String>,
}

/// The distinct addresses of `es`, in order of first appearance.
pub open spec fn distinct_addresses(es: Seq<RegisterAddressView>) -> Seq<u64>
    decreases es.len(),
{
    if es.len() == 0 {
        Seq::empty()
    } else {
        let rest = distinct_addresses(es.drop_last());
        if rest.contains(es.last().address) {
            rest
        } else {
            rest.push(es.last().address)
        }
    }
}

fn contains_address(v: &Vec<u64>, a: u64) -> (r: bool)
    ensures
        r == v@.contains(a),
{
    let n = v.len();
    let mut i: usize = 0;
    while i < n
        invariant
            n == v@.len(),
            0 <= i <= n,
            forall|k: int| 0 <= k < i ==> v@[k] != a,
        decreases n - i,
    {
        if v[i] == a {
            assert(v@[i as int] == a);
            return true;
        }
        i = i + 1;
    }
    false
}

/// Builds the address-to-name table of the tracing layer: one row per
/// distinct address, in order of first appearance, holding the names of all
/// registers at that address in declaration order.
pub fn name_map(entries: &Vec<RegisterAddress>) -> (r: Vec<AddressNames>)
    ensures
        r@.len() == distinct_addresses(addresses_view(entries@)).len(),
        forall|k: int|
            0 <= k < r@.len() ==> (#[trigger] r@[k]).address == distinct_addresses(
                addresses_view(entries@),
            )[k] && r@[k].names@.map_values(|s: String| s@) == names_at_spec(
                addresses_view(entries@),
                r@[k].address,
            ),
{
    let ghost ev = addresses_view(entries@);
    let mut addrs: Vec<u64> = Vec::new();
    let n = entries.len();
    let mut i: usize = 0;
    assert(ev.take(0) =~= Seq::<RegisterAddressView>::empty());
    while i < n
        invariant
            n == entries@.len(),
            0 <= i <= n,
            ev == addresses_view(entries@),
            addrs@ == distinct_addresses(ev.take(i as int)),
        decreases n - i,
    {
        assert(ev.take(i + 1).drop_last() =~= ev.take(i as int));
        let a = entries[i].address;
        if !contains_address(&addrs, a) {
            addrs.push(a);
        }
        i = i + 1;
    }
    assert(ev.take(n as int) =~= ev);
    let mut r: Vec<AddressNames> = Vec::new();
    let m = addrs.len();
    let mut k: usize = 0;
    while k < m
        invariant
            m == addrs@.len(),
            0 <= k <= m,
            ev == addresses_view(entries@),
            addrs@ == distinct_addresses(ev),
            r@.len() == k,
            forall|j: int|
                0 <= j < k ==> (#[trigger] r@[j]).address == addrs@[j] && r@[j].names@.map_values(
                    |s: String| s@,
                ) == names_at_spec(ev, r@[j].address),
        decreases m - k,
    {
        let names = names_at(entries, addrs[k]);
        assert(names@.map_values(|s: String| s@) =~= names_at_spec(ev, addrs@[k as int]));
        r.push(AddressNames { address: addrs[k], names });
        k = k + 1;
    }
    r
}

proof fn lemma_distinct_addresses_cover(es: Seq<RegisterAddressView>, i: int)
    requires
        0 <= i < es.len(),
    ensures
        distinct_addresses(es).contains(es[i].address),
    decreases es.len(),
{
    let rest = distinct_addresses(es.drop_last());
    if i == es.len() - 1 {
        if !rest.contains(es.last().address) {
            assert(distinct_addresses(es).last() == es[i].address);
        }
    } else {
        lemma_distinct_addresses_cover(es.drop_last(), i);
        let k = choose|k: int| 0 <= k < rest.len() && rest[k] == es[i].address;
        if !rest.contains(es.last().address) {
            assert(distinct_addresses(es)[k] == es[i].address);
        }
    }
}

/// Two registers at the same absolute address share a row of the
/// address-to-name table, and that row holds both names.
pub proof fn lemma_alias_row(es: Seq<RegisterAddressView>, i: int, j: int)
    requires
        0 <= i < es.len(),
        0 <= j < es.len(),
        es[i].address == es[j].address,
    ensures
        exists|k: int|
            0 <= k < distinct_addresses(es).len() && #[trigger] distinct_addresses(es)[k]
                == es[i].address,
        names_at_spec(es, es[i].address).contains(es[i].name),
        names_at_spec(es, es[i].address).contains(es[j].name),
{
    lemma_distinct_addresses_cover(es, i);
    lemma_aliases_listed(es, i, j);
}

} // verus!
