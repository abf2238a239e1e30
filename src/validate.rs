//! Attribute checks on registers, and the fallback to device defaults.
use vstd::prelude::*;
use crate::config::SvdValidationLevel;
use crate::error::ValidationError;
use crate::model::{Access, Peripheral, RawPeripheral, RawRegister, Register, RegisterDefaults};

verus! {

/// Register size used under `Disabled` when neither the register nor the device gives one.
pub const BUILTIN_SIZE: u32 = 32;

/// Reset value used when neither the register nor the device gives one.
pub const BUILTIN_RESET_VALUE: u64 = 0;

/// The value an attribute takes at a validation level: the register's own under
/// `Strict`; under `Weak` the register's own, else the device default, else
/// a built-in value unless the attribute is needed for layout
/// (`layout_critical`); under `Disabled` the built-in value in every case
/// where both are absent.
pub open spec fn pick_spec<T>(
    own: Option<T>,
    device: Option<T>,
    builtin: T,
    layout_critical: bool,
    level: SvdValidationLevel,
) -> Option<T> {
    match level {
        SvdValidationLevel::Strict => own,
        _ => match own {
            Some(v) => Some(v),
            None => match device {
                Some(v) => Some(v),
                None => if layout_critical && level == SvdValidationLevel::Weak {
                    None
                } else {
                    Some(builtin)
                },
            },
        },
    }
}

/// The register that `raw` resolves to under `level`, or the first attribute that fails.
pub open spec fn resolve_register_spec(
    raw: RawRegister,
    defaults: RegisterDefaults,
    level: SvdValidationLevel,
) -> Result<Register, ValidationError> {
    let size = pick_spec(raw.size, defaults.size, BUILTIN_SIZE, true, level);
    let access = pick_spec(raw.access, defaults.access, Access::ReadWrite, false, level);
    let reset = pick_spec(raw.reset_value, defaults.reset_value, BUILTIN_RESET_VALUE, false, level);
    if raw.offset is None {
        Err(ValidationError::MissingAddress)
    } else if size is None {
        Err(ValidationError::MissingSize)
    } else if !(0 < size.unwrap() <= 64) {
        Err(ValidationError::InvalidSize)
    } else if access is None {
        Err(ValidationError::MissingAccess)
    } else if reset is None {
        Err(ValidationError::MissingResetValue)
    } else {
        Ok(
            Register {
                name: raw.name,
                offset: raw.offset.unwrap(),
                size: size.unwrap(),
                access: access.unwrap(),
                reset_value: reset.unwrap(),
                dim: raw.dim,
                alias: raw.alias,
                fields: raw.fields,
            },
        )
    }
}

fn pick<T: Copy>(
    own: Option<T>,
    device: Option<T>,
    builtin: T,
    layout_critical: bool,
    level: SvdValidationLevel,
) -> (r: Option<T>)
    ensures
        r == pick_spec(own, device, builtin, layout_critical, level),
{
    match level {
        SvdValidationLevel::Strict => own,
        _ => match own {
            Some(v) => Some(v),
            None => match device {
                Some(v) => Some(v),
                None => if layout_critical && level == SvdValidationLevel::Weak {
                    None
                } else {
                    Some(builtin)
                },
            },
        },
    }
}

/// Checks a register's attributes under `level` and fills in what may be
/// substituted. A missing address fails at every level; a missing size
/// without a device default fails under `Weak` too.
pub fn resolve_register(raw: RawRegister, defaults: RegisterDefaults, level: SvdValidationLevel) -> (r:
    Result<Register, ValidationError>)
    ensures
        r == resolve_register_spec(raw, defaults, level),
{
    let size = pick(raw.size, defaults.size, BUILTIN_SIZE, true, level);
    let access = pick(raw.access, defaults.access, Access::ReadWrite, false, level);
    let reset = pick(raw.reset_value, defaults.reset_value, BUILTIN_RESET_VALUE, false, level);
    let offset = match raw.offset {
        Some(o) => o,
        None => {
            return Err(ValidationError::MissingAddress);
        },
    };
    let size = match size {
        Some(s) => s,
        None => {
            return Err(ValidationError::MissingSize);
        },
    };
    if size == 0 || size > 64 {
        return Err(ValidationError::InvalidSize);
    }
    let access = match access {
        Some(a) => a,
        None => {
            return Err(ValidationError::MissingAccess);
        },
    };
    let reset_value = match reset {
        Some(v) => v,
        None => {
            return Err(ValidationError::MissingResetValue);
        },
    };
    Ok(
        Register {
            name: raw.name,
            offset,
            size,
            access,
            reset_value,
            dim: raw.dim,
            alias: raw.alias,
            fields: raw.fields,
        },
    )
}

/// The non-fatal signals of validation: which attributes of a register were
/// filled in from a default rather than given.
#[derive(Copy, Clone, PartialEq, Eq, Structural, Debug)]
pub struct Substitutions {
    pub size: bool,
    pub access: bool,
    pub reset_value: bool,
}

/// An attribute is substituted where the register lacks it and the level
/// allows a fallback, that is at every level but `Strict`.
pub open spec fn substitutions_spec(raw: RawRegister, level: SvdValidationLevel) -> Substitutions {
    let lenient = level != SvdValidationLevel::Strict;
    Substitutions {
        size: lenient && raw.size is None,
        access: lenient && raw.access is None,
        reset_value: lenient && raw.reset_value is None,
    }
}

/// Reports which attributes of `raw` validation fills in from a default at
/// `level`, so that a caller can warn about them.
pub fn substitutions(raw: &RawRegister, level: SvdValidationLevel) -> (r: Substitutions)
    ensures
        r == substitutions_spec(*raw, level),
{
    let lenient = match level {
        SvdValidationLevel::Strict => false,
        _ => true,
    };
    Substitutions {
        size: lenient && raw.size.is_none(),
        access: lenient && raw.access.is_none(),
        reset_value: lenient && raw.reset_value.is_none(),
    }
}

/// The validated registers, or the failure of the first register that fails.
pub open spec fn validate_registers_spec(
    rs: Seq<RawRegister>,
    defaults: RegisterDefaults,
    level: SvdValidationLevel,
) -> Result<Seq<Register>, ValidationError>
    decreases rs.len(),
{
    if rs.len() == 0 {
        Ok(Seq::empty())
    } else {
        match validate_registers_spec(rs.drop_last(), defaults, level) {
            Err(e) => Err(e),
            Ok(prev) => match resolve_register_spec(rs.last(), defaults, level) {
                Err(e) => Err(e),
                Ok(r) => Ok(prev.push(r)),
            },
        }
    }
}

/// The peripheral that `raw` validates to.
pub open spec fn validate_peripheral_spec(
    raw: RawPeripheral,
    defaults: RegisterDefaults,
    level: SvdValidationLevel,
) -> Result<(Seq<char>, u64, Option<crate::model::Dim>, Option<Seq<char>>, Seq<Register>), ValidationError> {
    match validate_registers_spec(raw.registers@, defaults, level) {
        Err(e) => Err(e),
        Ok(rs) => Ok(
            (
                raw.name@,
                raw.base_address,
                raw.dim,
                match raw.derived_from {
                    Some(p) => Some(p@),
                    None => None,
                },
                rs,
            ),
        ),
    }
}

proof fn lemma_validate_error_persists(
    rs: Seq<RawRegister>,
    defaults: RegisterDefaults,
    level: SvdValidationLevel,
    m: int,
)
    requires
        0 <= m <= rs.len(),
        validate_registers_spec(rs.take(m), defaults, level) is Err,
    ensures
        validate_registers_spec(rs, defaults, level) == validate_registers_spec(
            rs.take(m),
            defaults,
            level,
        ),
    decreases rs.len() - m,
{
    if m < rs.len() {
        assert(rs.take(m + 1).drop_last() =~= rs.take(m));
        lemma_validate_error_persists(rs, defaults, level, m + 1);
    } else {
        assert(rs.take(m) =~= rs);
    }
}

/// Validates every register of a peripheral under `level`, in order; the
/// first register that fails decides the error.
pub fn validate_peripheral(raw: RawPeripheral, defaults: RegisterDefaults, level: SvdValidationLevel) -> (r:
    Result<Peripheral, ValidationError>)
    ensures
        match validate_peripheral_spec(raw, defaults, level) {
            Ok(v) => r matches Ok(p) && v == (
                p.name@,
                p.base_address,
                p.dim,
                match p.derived_from {
                    Some(d) => Some(d@),
                    None => None,
                },
                p.registers@,
            ),
            Err(e) => r == Err::<Peripheral, ValidationError>(e),
        },
{
    let ghost orig = raw.registers@;
    let RawPeripheral { name, base_address, dim, derived_from, registers } = raw;
    let mut rest = registers;
    let mut out: Vec<Register> = Vec::new();
    let ghost n = orig.len();
    assert(orig.take(0) =~= Seq::<RawRegister>::empty());
    while rest.len() > 0
        invariant
            n == orig.len(),
            orig == raw.registers@,
            out@.len() + rest@.len() == n,
            rest@ =~= orig.subrange(out@.len() as int, n as int),
            validate_registers_spec(orig.take(out@.len() as int), defaults, level) == Ok::<
                Seq<Register>,
                ValidationError,
            >(out@),
        decreases rest@.len(),
    {
        let ghost i = out@.len() as int;
        let reg = rest.remove(0);
        assert(orig.take(i + 1).drop_last() =~= orig.take(i));
        assert(orig.take(i + 1).last() == reg);
        match resolve_register(reg, defaults, level) {
            Ok(x) => {
                out.push(x);
            },
            Err(e) => {
                assert(validate_registers_spec(orig.take(i + 1), defaults, level) == Err::<
                    Seq<Register>,
                    ValidationError,
                >(e));
                proof {
                    lemma_validate_error_persists(orig, defaults, level, i + 1);
                    assert(validate_registers_spec(orig, defaults, level) == Err::<
                        Seq<Register>,
                        ValidationError,
                    >(e));
                }
                return Err(e);
            },
        }
    }
    assert(orig.take(n as int) =~= orig);
    Ok(Peripheral { name, base_address, dim, derived_from, registers: out })
}

/// The value of a validated peripheral that the contracts speak of.
pub open spec fn peripheral_summary(p: Peripheral) -> (
    Seq<char>,
    u64,
    Option<crate::model::Dim>,
    Option<Seq<char>>,
    Seq<Register>,
) {
    (
        p.name@,
        p.base_address,
        p.dim,
        match p.derived_from {
            Some(d) => Some(d@),
            None => None,
        },
        p.registers@,
    )
}

/// Whether every raw peripheral validates, each to the matching peripheral of `ps`.
pub open spec fn document_validates_to(
    raws: Seq<RawPeripheral>,
    defaults: RegisterDefaults,
    level: SvdValidationLevel,
    ps: Seq<Peripheral>,
) -> bool {
    &&& ps.len() == raws.len()
    &&& forall|i: int|
        0 <= i < raws.len() ==> #[trigger] validate_peripheral_spec(raws[i], defaults, level)
            == Ok::<_, ValidationError>(peripheral_summary(ps[i]))
}

/// The position of the first raw peripheral that fails validation, if any.
pub open spec fn first_invalid(
    raws: Seq<RawPeripheral>,
    defaults: RegisterDefaults,
    level: SvdValidationLevel,
    i: int,
) -> bool {
    &&& 0 <= i < raws.len()
    &&& validate_peripheral_spec(raws[i], defaults, level) is Err
    &&& forall|k: int|
        0 <= k < i ==> #[trigger] validate_peripheral_spec(raws[k], defaults, level) is Ok
}

/// Validates every peripheral of a document under `level`, in order. It fails
/// with the error of the first peripheral that fails.
pub fn validate_document(raws: Vec<RawPeripheral>, defaults: RegisterDefaults, level: SvdValidationLevel) -> (r:
    Result<Vec<Peripheral>, ValidationError>)
    ensures
        match r {
            Ok(ps) => document_validates_to(raws@, defaults, level, ps@),
            Err(e) => exists|i: int|
                first_invalid(raws@, defaults, level, i) && validate_peripheral_spec(
                    raws@[i],
                    defaults,
                    level,
                ) == Err::<
                    (Seq<char>, u64, Option<crate::model::Dim>, Option<Seq<char>>, Seq<Register>),
                    ValidationError,
                >(e),
        },
        (forall|i: int|
            0 <= i < raws@.len() ==> #[trigger] validate_peripheral_spec(raws@[i], defaults, level)
                is Ok) ==> r is Ok,
{
    let ghost orig = raws@;
    let mut rest = raws;
    let mut out: Vec<Peripheral> = Vec::new();
    let ghost n = orig.len();
    while rest.len() > 0
        invariant
            n == orig.len(),
            orig == raws@,
            out@.len() + rest@.len() == n,
            rest@ =~= orig.subrange(out@.len() as int, n as int),
            forall|k: int|
                0 <= k < out@.len() ==> #[trigger] validate_peripheral_spec(orig[k], defaults, level)
                    == Ok::<_, ValidationError>(peripheral_summary(out@[k])),
        decreases rest@.len(),
    {
        let ghost i = out@.len() as int;
        let p = rest.remove(0);
        assert(p == orig[i]);
        match validate_peripheral(p, defaults, level) {
            Ok(x) => {
                out.push(x);
            },
            Err(e) => {
                assert(first_invalid(orig, defaults, level, i));
                return Err(e);
            },
        }
    }
    Ok(out)
}

/// A register that lacks only its access mode resolves under `Weak` to the
/// device's default access, and is rejected under `Strict`.
pub proof fn lemma_missing_access_boundary(raw: RawRegister, defaults: RegisterDefaults)
    requires
        raw.access is None,
        raw.offset is Some,
        raw.size is Some,
        0 < raw.size.unwrap() <= 64,
        raw.reset_value is Some,
        defaults.access is Some,
    ensures
        resolve_register_spec(raw, defaults, SvdValidationLevel::Weak) is Ok,
        resolve_register_spec(raw, defaults, SvdValidationLevel::Weak).unwrap().access
            == defaults.access.unwrap(),
        resolve_register_spec(raw, defaults, SvdValidationLevel::Strict) == Err::<
            Register,
            ValidationError,
        >(ValidationError::MissingAccess),
{
}

} // verus!
