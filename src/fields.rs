//! Expansion of bitfield arrays into concrete bitfields.
use vstd::prelude::*;
use crate::model::{registers_view, Field, FieldView, Register, RegisterView};
use crate::naming::{element_name, element_name_string};

verus! {

/// The concrete fields of one field: itself, or one per array element at
/// bit `offset + k * increment`; `None` where an offset does not fit 32 bits.
pub open spec fn field_instances(f: FieldView) -> Option<Seq<FieldView>> {
    match f.dim {
        None => Some(seq![f]),
        Some(d) => if d.dim == 0 || f.offset + (d.dim - 1) * d.increment <= u32::MAX {
            Some(
                Seq::new(
                    d.dim as nat,
                    |k: int|
                        FieldView {
                            name: element_name(f.name, k as nat),
                            offset: (f.offset + k * d.increment) as u32,
                            width: f.width,
                            access: f.access,
                            values: f.values,
                            dim: None,
                        },
                ),
            )
        } else {
            None
        },
    }
}

/// The concrete fields of the first `n` fields, in order.
pub open spec fn expand_fields_spec(fs: Seq<FieldView>, n: int) -> Option<Seq<FieldView>>
    decreases n,
{
    if n <= 0 {
        Some(Seq::empty())
    } else {
        match expand_fields_spec(fs, n - 1) {
            None => None,
            Some(prev) => match field_instances(fs[n - 1]) {
                None => None,
                Some(xs) => Some(prev + xs),
            },
        }
    }
}

/// The register with its field arrays expanded.
pub open spec fn expand_register_spec(r: RegisterView) -> Option<RegisterView> {
    match expand_fields_spec(r.fields, r.fields.len() as int) {
        None => None,
        Some(fs) => Some(
            RegisterView {
                name: r.name,
                offset: r.offset,
                size: r.size,
                access: r.access,
                reset_value: r.reset_value,
                dim: r.dim,
                alias: r.alias,
                fields: fs,
            },
        ),
    }
}

/// Every register with its field arrays expanded.
pub open spec fn expand_registers_spec(rs: Seq<RegisterView>, n: int) -> Option<Seq<RegisterView>>
    decreases n,
{
    if n <= 0 {
        Some(Seq::empty())
    } else {
        match expand_registers_spec(rs, n - 1) {
            None => None,
            Some(prev) => match expand_register_spec(rs[n - 1]) {
                None => None,
                Some(x) => Some(prev.push(x)),
            },
        }
    }
}

pub open spec fn fields_view(fs: Seq<Field>) -> Seq<FieldView> {
    fs.map_values(|f: Field| f@)
}

fn push_field_instances(out: &mut Vec<Field>, f: &Field) -> (ok: bool)
    ensures
        match field_instances(f@) {
            Some(xs) => ok && fields_view(final(out)@) == fields_view(old(out)@) + xs,
            None => !ok,
        },
{
    let ghost before = fields_view(out@);
    match f.dim {
        None => {
            out.push(f.copy());
            assert(fields_view(out@) =~= before + field_instances(f@).unwrap());
            true
        },
        Some(d) => {
            if d.dim > 0 {
                let span = ((d.dim - 1) as u64).checked_mul(d.increment);
                let fits = match span {
                    Some(x) => x <= 0xffff_ffffu64 - f.offset as u64,
                    None => false,
                };
                if !fits {
                    proof {
                        assert((d.dim - 1) * d.increment > u32::MAX - f.offset);
                    }
                    return false;
                }
            }
            let ghost xs = field_instances(f@).unwrap();
            let mut k: u32 = 0;
            while k < d.dim
                invariant
                    0 <= k <= d.dim,
                    f.dim == Some(d),
                    field_instances(f@) is Some,
                    xs == field_instances(f@).unwrap(),
                    xs.len() == d.dim,
                    d.dim == 0 || f.offset + (d.dim - 1) * d.increment <= u32::MAX,
                    fields_view(out@) =~= before + xs.take(k as int),
                decreases d.dim - k,
            {
                assert(f.offset + k * d.increment <= f.offset + (d.dim - 1) * d.increment) by (nonlinear_arith)
                    requires
                        k <= d.dim - 1,
                ;
                let offset = (f.offset as u64 + k as u64 * d.increment) as u32;
                let c = f.copy();
                let e = Field {
                    name: element_name_string(&f.name, k as u64),
                    offset,
                    width: f.width,
                    access: f.access,
                    values: c.values,
                    dim: None,
                };
                let ghost prev = fields_view(out@);
                out.push(e);
                assert(fields_view(out@) =~= prev.push(e@));
                assert(e@ == xs[k as int]);
                assert(xs.take(k + 1) =~= xs.take(k as int).push(xs[k as int]));
                k = k + 1;
            }
            assert(xs.take(k as int) =~= xs);
            true
        },
    }
}

proof fn lemma_expand_fields_none_persists(fs: Seq<FieldView>, m: int, n: int)
    requires
        0 <= m <= n,
        expand_fields_spec(fs, m) is None,
    ensures
        expand_fields_spec(fs, n) is None,
    decreases n,
{
    if n > m {
        lemma_expand_fields_none_persists(fs, m, n - 1);
    }
}

/// Expands the field arrays of a register into concrete fields named
/// `name_k`; `None` where a field offset does not fit 32 bits.
pub fn expand_register(r: &Register) -> (x: Option<Register>)
    ensures
        match expand_register_spec(r@) {
            Some(v) => x is Some && x.unwrap()@ == v,
            None => x is None,
        },
{
    let ghost fv = r@.fields;
    assert(fv =~= fields_view(r.fields@));
    let mut out: Vec<Field> = Vec::new();
    let n = r.fields.len();
    let mut i: usize = 0;
    assert(fields_view(out@) =~= Seq::<FieldView>::empty());
    while i < n
        invariant
            n == r.fields@.len(),
            0 <= i <= n,
            fv == fields_view(r.fields@),
            fv == r@.fields,
            expand_fields_spec(fv, i as int) == Some(fields_view(out@)),
        decreases n - i,
    {
        assert(fv[i as int] == r.fields@[i as int]@);
        if !push_field_instances(&mut out, &r.fields[i]) {
            proof {
                lemma_expand_fields_none_persists(fv, i + 1, n as int);
            }
            return None;
        }
        i = i + 1;
    }
    let x = Register {
        name: r.name.clone(),
        offset: r.offset,
        size: r.size,
        access: r.access,
        reset_value: r.reset_value,
        dim: r.dim,
        alias: r.alias,
        fields: out,
    };
    assert(x@.fields =~= fields_view(out@));
    assert(x@ == expand_register_spec(r@).unwrap());
    Some(x)
}

proof fn lemma_expand_registers_none_persists(rs: Seq<RegisterView>, m: int, n: int)
    requires
        0 <= m <= n,
        expand_registers_spec(rs, m) is None,
    ensures
        expand_registers_spec(rs, n) is None,
    decreases n,
{
    if n > m {
        lemma_expand_registers_none_persists(rs, m, n - 1);
    }
}

/// Expands the field arrays of every register, in order.
pub fn expand_registers(rs: &Vec<Register>) -> (x: Option<Vec<Register>>)
    ensures
        match expand_registers_spec(registers_view(rs@), rs@.len() as int) {
            Some(v) => x is Some && registers_view(x.unwrap()@) == v,
            None => x is None,
        },
{
    let ghost rv = registers_view(rs@);
    let mut out: Vec<Register> = Vec::new();
    let n = rs.len();
    let mut i: usize = 0;
    assert(registers_view(out@) =~= Seq::<RegisterView>::empty());
    while i < n
        invariant
            n == rs@.len(),
            0 <= i <= n,
            rv == registers_view(rs@),
            expand_registers_spec(rv, i as int) == Some(registers_view(out@)),
        decreases n - i,
    {
        assert(rv[i as int] == rs@[i as int]@);
        match expand_register(&rs[i]) {
            Some(x) => {
                let ghost prev = registers_view(out@);
                out.push(x);
                assert(registers_view(out@) =~= prev.push(x@));
            },
            None => {
                proof {
                    lemma_expand_registers_none_persists(rv, i + 1, n as int);
                }
                return None;
            },
        }
        i = i + 1;
    }
    Some(out)
}

} // verus!
