//! The model pipeline: model building followed by layout analysis.
use vstd::prelude::*;
use crate::builder::{
    build_peripherals, build_spec, peripherals_view, ConcretePeripheral, ConcretePeripheralView,
};
use crate::config::{target_features, target_features_spec, Target};
use crate::emit::{
    emit_name_map, emit_peripheral, emit_target_extension, name_map_text, peripheral_text, row_view,
    target_extension_text,
};
use crate::error::{CodeGenError, LayoutError, ModelBuildError};
use crate::layout::{
    addresses_view, distinct_addresses, layout_device, layout_spec, name_map, names_at_spec,
    AddressNames, RegisterAddress, RegisterAddressView,
};
use crate::model::{Device, Peripheral};

verus! {

/// The failure of a pipeline stage.
#[derive(Copy, Clone, PartialEq, Eq, Structural, Debug)]
pub enum PipelineError {
    ModelBuild(ModelBuildError),
    Layout(LayoutError),
    CodeGen(CodeGenError),
}

/// A laid-out device: its concrete peripherals and every register instance's address.
#[derive(Debug)]
pub struct LaidOutDevice {
    pub peripherals: Vec<ConcretePeripheral>,
    pub addresses: Vec<RegisterAddress>,
}

/// What the pipeline yields for a peripheral list: the built model and its
/// layout, or the first stage's failure.
pub open spec fn pipeline_spec(ps: Seq<Peripheral>) -> Result<
    (Seq<ConcretePeripheralView>, Seq<RegisterAddressView>),
    PipelineError,
> {
    match build_spec(ps) {
        Err(e) => Err(PipelineError::ModelBuild(e)),
        Ok(cs) => match layout_spec(cs) {
            Err(e) => Err(PipelineError::Layout(e)),
            Ok(es) => Ok((cs, es)),
        },
    }
}

pub open spec fn outcome_view(r: Result<LaidOutDevice, PipelineError>) -> Result<
    (Seq<ConcretePeripheralView>, Seq<RegisterAddressView>),
    PipelineError,
> {
    match r {
        Ok(d) => Ok((peripherals_view(d.peripherals@), addresses_view(d.addresses@))),
        Err(e) => Err(e),
    }
}

/// Builds the model of a peripheral list and lays it out; no stage runs on
/// the failed output of an earlier one.
pub fn run_pipeline(ps: &Vec<Peripheral>) -> (r: Result<LaidOutDevice, PipelineError>)
    ensures
        outcome_view(r) == pipeline_spec(ps@),
{
    let cs = match build_peripherals(ps) {
        Ok(cs) => cs,
        Err(e) => {
            return Err(PipelineError::ModelBuild(e));
        },
    };
    match layout_device(&cs) {
        Ok(addresses) => Ok(LaidOutDevice { peripherals: cs, addresses }),
        Err(e) => Err(PipelineError::Layout(e)),
    }
}

/// The rows of the address-to-name table of a layout.
pub open spec fn name_rows(es: Seq<RegisterAddressView>) -> Seq<(u64, Seq<Seq<char>>)> {
    distinct_addresses(es).map_values(|a: u64| (a, names_at_spec(es, a)))
}

/// The source units of the first `n` concrete peripherals.
pub open spec fn units_text(cs: Seq<ConcretePeripheralView>, n: int, target: Target, tracing: bool) -> Option<
    Seq<Seq<char>>,
>
    decreases n,
{
    if n <= 0 {
        Some(Seq::empty())
    } else {
        match units_text(cs, n - 1, target, tracing) {
            None => None,
            Some(prev) => match peripheral_text(cs[n - 1], target, tracing) {
                None => None,
                Some(t) => Some(prev.push(t)),
            },
        }
    }
}

/// What generation yields: one source unit per concrete peripheral, in
/// order, followed with tracing by the address-to-name lookup.
pub open spec fn generate_spec(ps: Seq<Peripheral>, target: Target, tracing: bool) -> Result<
    Seq<Seq<char>>,
    PipelineError,
> {
    match pipeline_spec(ps) {
        Err(e) => Err(e),
        Ok((cs, es)) => match units_text(cs, cs.len() as int, target, tracing) {
            None => Err(PipelineError::CodeGen(CodeGenError::FieldWidth)),
            Some(ts) => Ok(
                if tracing {
                    ts.push(name_map_text(name_rows(es)))
                } else {
                    ts
                },
            ),
        },
    }
}

pub open spec fn texts_view(v: Seq<String>) -> Seq<Seq<char>> {
    v.map_values(|s: String| s@)
}

proof fn lemma_units_none_persists(
    cs: Seq<ConcretePeripheralView>,
    m: int,
    n: int,
    target: Target,
    tracing: bool,
)
    requires
        0 <= m <= n,
        units_text(cs, m, target, tracing) is None,
    ensures
        units_text(cs, n, target, tracing) is None,
    decreases n,
{
    if n > m {
        lemma_units_none_persists(cs, m, n - 1, target, tracing);
    }
}

fn name_map_text_of(addresses: &Vec<RegisterAddress>) -> (r: String)
    ensures
        r@ == name_map_text(name_rows(addresses_view(addresses@))),
{
    let rows = name_map(addresses);
    let ghost ev = addresses_view(addresses@);
    assert(rows@.map_values(|r: AddressNames| row_view(r)) =~= name_rows(ev));
    emit_name_map(&rows)
}

/// Runs the whole pipeline on a validated peripheral list: builds the
/// model, lays it out, and renders one source unit per concrete peripheral
/// for `target`, followed with tracing by the address-to-name lookup.
pub fn generate(ps: &Vec<Peripheral>, target: Target, tracing: bool) -> (r: Result<
    Vec<String>,
    PipelineError,
>)
    ensures
        match generate_spec(ps@, target, tracing) {
            Ok(ts) => r is Ok && texts_view(r.unwrap()@) == ts,
            Err(e) => r == Err::<Vec<String>, PipelineError>(e),
        },
{
    let d = match run_pipeline(ps) {
        Ok(d) => d,
        Err(e) => {
            return Err(e);
        },
    };
    let ghost cv = peripherals_view(d.peripherals@);
    let mut out: Vec<String> = Vec::new();
    let n = d.peripherals.len();
    let mut i: usize = 0;
    assert(texts_view(out@) =~= Seq::<Seq<char>>::empty());
    while i < n
        invariant
            n == d.peripherals@.len(),
            0 <= i <= n,
            cv == peripherals_view(d.peripherals@),
            pipeline_spec(ps@) == Ok::<
                (Seq<ConcretePeripheralView>, Seq<RegisterAddressView>),
                PipelineError,
            >((cv, addresses_view(d.addresses@))),
            units_text(cv, i as int, target, tracing) == Some(texts_view(out@)),
        decreases n - i,
    {
        assert(cv[i as int] == d.peripherals@[i as int]@);
        match emit_peripheral(&d.peripherals[i], target, tracing) {
            Ok(t) => {
                let ghost prev = texts_view(out@);
                out.push(t);
                assert(texts_view(out@) =~= prev.push(t@));
            },
            Err(_) => {
                assert(units_text(cv, i + 1, target, tracing) is None);
                proof {
                    lemma_units_none_persists(cv, i + 1, n as int, target, tracing);
                }
                return Err(PipelineError::CodeGen(CodeGenError::FieldWidth));
            },
        }
        i = i + 1;
    }
    if tracing {
        let t = name_map_text_of(&d.addresses);
        let ghost prev = texts_view(out@);
        out.push(t);
        assert(texts_view(out@) =~= prev.push(t@));
    }
    Ok(out)
}

/// What generating a device yields: the units of its peripherals, followed,
/// where the target has an interrupt table, by the target's device-level
/// extension (interrupts, NVIC priority bits, core peripherals).
pub open spec fn generate_device_spec(d: Device, target: Target, tracing: bool) -> Result<
    Seq<Seq<char>>,
    PipelineError,
> {
    match generate_spec(d.peripherals@, target, tracing) {
        Err(e) => Err(e),
        Ok(ts) => Ok(
            if target_features_spec(target).interrupt_table {
                ts.push(target_extension_text(target, d.interrupts@, d.nvic_prio_bits))
            } else {
                ts
            },
        ),
    }
}

/// Generates the source units of a device for `target`: those of
/// [`generate`], plus the device-level extension where the target has one.
pub fn generate_device(d: &Device, target: Target, tracing: bool) -> (r: Result<
    Vec<String>,
    PipelineError,
>)
    ensures
        match generate_device_spec(*d, target, tracing) {
            Ok(ts) => r is Ok && texts_view(r.unwrap()@) == ts,
            Err(e) => r == Err::<Vec<String>, PipelineError>(e),
        },
{
    let mut out = match generate(&d.peripherals, target, tracing) {
        Ok(v) => v,
        Err(e) => {
            return Err(e);
        },
    };
    if target_features(target).interrupt_table {
        let t = emit_target_extension(target, &d.interrupts, d.nvic_prio_bits);
        let ghost prev = texts_view(out@);
        out.push(t);
        assert(texts_view(out@) =~= prev.push(t@));
    }
    Ok(out)
}

/// Generation is a function of its input: two runs on the same peripheral
/// list with the same settings give the same source units, byte for byte.
pub proof fn lemma_generation_deterministic(
    ps: Seq<Peripheral>,
    target: Target,
    tracing: bool,
    a: Result<Vec<String>, PipelineError>,
    b: Result<Vec<String>, PipelineError>,
)
    requires
        match generate_spec(ps, target, tracing) {
            Ok(ts) => a is Ok && texts_view(a.unwrap()@) == ts,
            Err(e) => a == Err::<Vec<String>, PipelineError>(e),
        },
        match generate_spec(ps, target, tracing) {
            Ok(ts) => b is Ok && texts_view(b.unwrap()@) == ts,
            Err(e) => b == Err::<Vec<String>, PipelineError>(e),
        },
    ensures
        a is Ok <==> b is Ok,
        a is Ok ==> texts_view(a.unwrap()@) == texts_view(b.unwrap()@),
        a is Err ==> a == b,
{
}

} // verus!
