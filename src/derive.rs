//! `derivedFrom` resolution: a peripheral inherits a copy of its parent's
//! registers, overlaid with its own registers keyed by name.
use vstd::prelude::*;
use crate::error::ModelBuildError;
use crate::model::{copy_registers, registers_view, Peripheral, Register, RegisterView};

verus! {

pub open spec fn has_name(rs: Seq<RegisterView>, name: Seq<char>) -> bool {
    exists|i: int| 0 <= i < rs.len() && #[trigger] rs[i].name == name
}

/// The last register of `rs` named `name`, if any.
pub open spec fn last_named(rs: Seq<RegisterView>, name: Seq<char>) -> Option<RegisterView>
    decreases rs.len(),
{
    if rs.len() == 0 {
        None
    } else if rs.last().name == name {
        Some(rs.last())
    } else {
        last_named(rs.drop_last(), name)
    }
}

/// An inherited register, replaced by the child's own register of the same name if it has one.
pub open spec fn overridden(r: RegisterView, own: Seq<RegisterView>) -> RegisterView {
    match last_named(own, r.name) {
        Some(o) => o,
        None => r,
    }
}

/// The child's own registers whose names the parent does not have, in order.
pub open spec fn added(own: Seq<RegisterView>, parent: Seq<RegisterView>) -> Seq<RegisterView>
    decreases own.len(),
{
    if own.len() == 0 {
        Seq::empty()
    } else {
        let rest = added(own.drop_last(), parent);
        if has_name(parent, own.last().name) {
            rest
        } else {
            rest.push(own.last())
        }
    }
}

/// The register list of a child: the parent's registers in order, each
/// overridden by the child's register of the same name, then the child's
/// registers with new names.
pub open spec fn merged(parent: Seq<RegisterView>, own: Seq<RegisterView>) -> Seq<RegisterView> {
    parent.map_values(|r: RegisterView| overridden(r, own)) + added(own, parent)
}

fn find_last_named(rs: &Vec<Register>, name: &String) -> (r: Option<usize>)
    ensures
        match r {
            Some(i) => i < rs@.len() && last_named(registers_view(rs@), name@) == Some(
                rs@[i as int]@,
            ),
            None => last_named(registers_view(rs@), name@) is None,
        },
{
    let ghost vs = registers_view(rs@);
    let mut i: usize = rs.len();
    assert(vs.take(i as int) =~= vs);
    while i > 0
        invariant
            0 <= i <= rs@.len(),
            vs == registers_view(rs@),
            last_named(vs, name@) == last_named(vs.take(i as int), name@),
        decreases i,
    {
        assert(vs.take(i as int).drop_last() =~= vs.take(i - 1));
        if rs[i - 1].name == *name {
            return Some(i - 1);
        }
        i = i - 1;
    }
    None
}

fn contains_name(rs: &Vec<Register>, name: &String) -> (r: bool)
    ensures
        r == has_name(registers_view(rs@), name@),
{
    let ghost vs = registers_view(rs@);
    let n = rs.len();
    let mut i: usize = 0;
    while i < n
        invariant
            n == rs@.len(),
            0 <= i <= n,
            vs == registers_view(rs@),
            forall|k: int| 0 <= k < i ==> #[trigger] vs[k].name != name@,
        decreases n - i,
    {
        if rs[i].name == *name {
            assert(vs[i as int].name == name@);
            return true;
        }
        i = i + 1;
    }
    false
}

/// Builds a child's register list from its parent's and its own: a deep copy
/// of the parent's registers, each replaced by the child's register of the
/// same name, followed by the child's registers that the parent lacks.
pub fn merge_derived(parent: &Vec<Register>, own: &Vec<Register>) -> (r: Vec<Register>)
    ensures
        registers_view(r@) == merged(registers_view(parent@), registers_view(own@)),
{
    let ghost pv = registers_view(parent@);
    let ghost ov = registers_view(own@);
    let mut r: Vec<Register> = Vec::new();
    let n = parent.len();
    let mut i: usize = 0;
    while i < n
        invariant
            n == parent@.len(),
            0 <= i <= n,
            pv == registers_view(parent@),
            ov == registers_view(own@),
            registers_view(r@) =~= pv.take(i as int).map_values(
                |x: RegisterView| overridden(x, ov),
            ),
        decreases n - i,
    {
        let ghost before = registers_view(r@);
        let c = match find_last_named(own, &parent[i].name) {
            Some(j) => own[j].copy(),
            None => parent[i].copy(),
        };
        assert(c@ == overridden(pv[i as int], ov));
        r.push(c);
        assert(registers_view(r@) =~= before.push(c@));
        assert(pv.take(i + 1) =~= pv.take(i as int).push(pv[i as int]));
        assert(registers_view(r@) =~= pv.take(i + 1).map_values(
            |x: RegisterView| overridden(x, ov),
        ));
        i = i + 1;
    }
    assert(pv.take(n as int) =~= pv);
    let m = own.len();
    let mut j: usize = 0;
    assert(ov.take(0) =~= Seq::<RegisterView>::empty());
    assert(registers_view(r@) =~= pv.map_values(|x: RegisterView| overridden(x, ov)) + added(
        ov.take(0),
        pv,
    ));
    while j < m
        invariant
            m == own@.len(),
            0 <= j <= m,
            pv == registers_view(parent@),
            ov == registers_view(own@),
            registers_view(r@) =~= pv.map_values(|x: RegisterView| overridden(x, ov)) + added(
                ov.take(j as int),
                pv,
            ),
        decreases m - j,
    {
        assert(ov.take(j + 1).drop_last() =~= ov.take(j as int));
        let ghost before = registers_view(r@);
        if !contains_name(parent, &own[j].name) {
            let c = own[j].copy();
            r.push(c);
            assert(registers_view(r@) =~= before.push(c@));
        }
        assert(ov.take(j + 1).last() == ov[j as int]);
        assert(registers_view(r@) =~= pv.map_values(|x: RegisterView| overridden(x, ov)) + added(
            ov.take(j + 1),
            pv,
        ));
        j = j + 1;
    }
    assert(ov.take(m as int) =~= ov);
    r
}

/// A child that declares no registers of its own gets exactly its parent's registers.
pub proof fn lemma_derive_without_own(parent: Seq<RegisterView>)
    ensures
        merged(parent, Seq::empty()) == parent,
{
    assert(merged(parent, Seq::empty()) =~= parent);
}

proof fn lemma_last_named_is(rs: Seq<RegisterView>, j: int)
    requires
        0 <= j < rs.len(),
        forall|k: int| j < k < rs.len() ==> #[trigger] rs[k].name != rs[j].name,
    ensures
        last_named(rs, rs[j].name) == Some(rs[j]),
    decreases rs.len(),
{
    if j < rs.len() - 1 {
        lemma_last_named_is(rs.drop_last(), j);
    }
}

proof fn lemma_last_named_name(rs: Seq<RegisterView>, name: Seq<char>)
    ensures
        last_named(rs, name) matches Some(x) ==> x.name == name,
    decreases rs.len(),
{
    if rs.len() > 0 {
        lemma_last_named_name(rs.drop_last(), name);
    }
}

proof fn lemma_added_fresh(own: Seq<RegisterView>, parent: Seq<RegisterView>)
    ensures
        forall|k: int|
            0 <= k < added(own, parent).len() ==> !has_name(parent, #[trigger] added(own, parent)[k].name),
    decreases own.len(),
{
    if own.len() > 0 {
        lemma_added_fresh(own.drop_last(), parent);
    }
}

/// Where a child declares a register with the name of a parent's register,
/// the child's definition (its last of that name) takes the parent's place.
/// Where neither side declares a name twice, that name occurs in the result
/// at that place only.
pub proof fn lemma_own_register_wins(parent: Seq<RegisterView>, own: Seq<RegisterView>, i: int, j: int)
    requires
        0 <= i < parent.len(),
        0 <= j < own.len(),
        own[j].name == parent[i].name,
        forall|k: int| j < k < own.len() ==> #[trigger] own[k].name != own[j].name,
    ensures
        merged(parent, own)[i] == own[j],
        (forall|a: int, b: int| 0 <= a < b < parent.len() ==> parent[a].name != parent[b].name)
            ==> forall|k: int|
            0 <= k < merged(parent, own).len() && k != i ==> #[trigger] merged(parent, own)[k].name
                != own[j].name,
{
    lemma_last_named_is(own, j);
    if forall|a: int, b: int| 0 <= a < b < parent.len() ==> parent[a].name != parent[b].name {
        let m = merged(parent, own);
        lemma_added_fresh(own, parent);
        assert forall|k: int| 0 <= k < m.len() && k != i implies #[trigger] m[k].name != own[j].name by {
            if k < parent.len() {
                lemma_last_named_name(own, parent[k].name);
                assert(m[k] == overridden(parent[k], own));
                assert(m[k].name == parent[k].name);
                if k < i {
                    assert(parent[k].name != parent[i].name);
                } else {
                    assert(parent[i].name != parent[k].name);
                }
            } else {
                let x = added(own, parent)[k - parent.len()];
                assert(m[k] == x);
                assert(!has_name(parent, x.name));
                if x.name == own[j].name {
                    assert(parent[i].name == x.name);
                }
            }
        }
    }
}

/// The position of the first peripheral named `name`, if any.
pub open spec fn first_named(ps: Seq<Peripheral>, name: Seq<char>) -> Option<int>
    decreases ps.len(),
{
    if ps.len() == 0 {
        None
    } else {
        match first_named(ps.drop_last(), name) {
            Some(i) => Some(i),
            None => if ps.last().name@ == name {
                Some(ps.len() - 1)
            } else {
                None
            },
        }
    }
}

/// The registers of peripheral `i` once its `derivedFrom` chain is followed
/// for at most `fuel` steps.
pub open spec fn resolved_registers(ps: Seq<Peripheral>, i: int, fuel: nat) -> Result<
    Seq<RegisterView>,
    ModelBuildError,
>
    decreases fuel,
{
    match ps[i].derived_from {
        None => Ok(registers_view(ps[i].registers@)),
        Some(p) => if fuel == 0 {
            Err(ModelBuildError::DerivationCycle)
        } else {
            match first_named(ps, p@) {
                None => Err(ModelBuildError::UndefinedParent),
                Some(j) => match resolved_registers(ps, j, (fuel - 1) as nat) {
                    Ok(pr) => Ok(merged(pr, registers_view(ps[i].registers@))),
                    Err(e) => Err(e),
                },
            }
        },
    }
}

/// Finds the first peripheral named `name`.
pub fn find_peripheral(ps: &Vec<Peripheral>, name: &String) -> (r: Option<usize>)
    ensures
        match r {
            Some(i) => first_named(ps@, name@) == Some(i as int),
            None => first_named(ps@, name@) is None,
        },
{
    let n = ps.len();
    let mut i: usize = 0;
    while i < n
        invariant
            n == ps@.len(),
            0 <= i <= n,
            first_named(ps@.take(i as int), name@) is None,
        decreases n - i,
    {
        assert(ps@.take(i + 1).drop_last() =~= ps@.take(i as int));
        if ps[i].name == *name {
            proof {
                lemma_first_named_prefix(ps@, name@, i as int);
            }
            return Some(i);
        }
        i = i + 1;
    }
    assert(ps@.take(n as int) =~= ps@);
    None
}

proof fn lemma_first_named_prefix(ps: Seq<Peripheral>, name: Seq<char>, i: int)
    requires
        0 <= i < ps.len(),
        first_named(ps.take(i), name) is None,
        ps[i].name@ == name,
    ensures
        first_named(ps, name) == Some(i),
    decreases ps.len(),
{
    if i < ps.len() - 1 {
        assert(ps.drop_last().take(i) =~= ps.take(i));
        lemma_first_named_prefix(ps.drop_last(), name, i);
    } else {
        assert(ps.drop_last() =~= ps.take(i));
    }
}

fn resolve_with_fuel(ps: &Vec<Peripheral>, i: usize, fuel: usize) -> (r: Result<
    Vec<Register>,
    ModelBuildError,
>)
    requires
        i < ps@.len(),
    ensures
        match r {
            Ok(v) => resolved_registers(ps@, i as int, fuel as nat) == Ok::<
                Seq<RegisterView>,
                ModelBuildError,
            >(registers_view(v@)),
            Err(e) => resolved_registers(ps@, i as int, fuel as nat) == Err::<
                Seq<RegisterView>,
                ModelBuildError,
            >(e),
        },
    decreases fuel,
{
    match &ps[i].derived_from {
        None => Ok(copy_registers(&ps[i].registers)),
        Some(p) => {
            if fuel == 0 {
                return Err(ModelBuildError::DerivationCycle);
            }
            match find_peripheral(ps, p) {
                None => Err(ModelBuildError::UndefinedParent),
                Some(j) => {
                    proof {
                        lemma_first_named_in_range(ps@, p@);
                    }
                    match resolve_with_fuel(ps, j, fuel - 1) {
                        Ok(pr) => Ok(merge_derived(&pr, &ps[i].registers)),
                        Err(e) => Err(e),
                    }
                },
            }
        },
    }
}

proof fn lemma_first_named_in_range(ps: Seq<Peripheral>, name: Seq<char>)
    ensures
        first_named(ps, name) matches Some(i) ==> 0 <= i < ps.len(),
    decreases ps.len(),
{
    if ps.len() > 0 {
        lemma_first_named_in_range(ps.drop_last(), name);
    }
}

/// The registers of peripheral `i` after `derivedFrom` resolution. A chain
/// that reaches an undefined name fails with `UndefinedParent`; one longer
/// than the number of peripherals revisits one of them and fails with
/// `DerivationCycle`.
pub fn derived_registers(ps: &Vec<Peripheral>, i: usize) -> (r: Result<Vec<Register>, ModelBuildError>)
    requires
        i < ps@.len(),
    ensures
        match r {
            Ok(v) => resolved_registers(ps@, i as int, ps@.len()) == Ok::<
                Seq<RegisterView>,
                ModelBuildError,
            >(registers_view(v@)),
            Err(e) => resolved_registers(ps@, i as int, ps@.len()) == Err::<
                Seq<RegisterView>,
                ModelBuildError,
            >(e),
        },
{
    resolve_with_fuel(ps, i, ps.len())
}

} // verus!
