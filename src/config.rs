//! Generation settings chosen once per run.
use vstd::prelude::*;

verus! {

/// How strictly a register description is checked before a model is built.
#[derive(Copy, Clone, PartialEq, Eq, Structural, PartialOrd, Ord, Debug)]
pub enum SvdValidationLevel {
    Disabled,
    Weak,
    Strict,
}

/// The architecture that the generated access code is written for.
#[derive(Copy, Clone, PartialEq, Eq, Structural, PartialOrd, Ord, Debug)]
pub enum Target {
    /// Only generic access to registers. No support for interrupt vector and NVIC priority bits.
    Generic,
    /// Generic access to register + atomic read modify store of register values.
    Aurix,
    /// Support for interrupt vector and NVIC priority bits.
    CortexM,
}

/// Settings of one generation run, as handed over by the command line.
#[derive(Clone, Debug)]
pub struct Args {
    /// Disable formatting of generated code using rustfmt mainly for debugging
    pub disable_rust_fmt: bool,
    /// Register description file
    pub register_description_file_name: String,
    /// Destination folder of package
    pub destination_folder: String,
    /// SVD validation level
    pub svd_validation_level: SvdValidationLevel,
    /// Architecture target of the PAC.
    pub target: Target,
    /// Enable the generation of a PAC with the tracing interface.
    pub tracing: bool,
    /// Package name in the manifest. Default is the name stored in the register description file
    pub package_name: Option<String>,
    /// License file whose content is used instead of the one defined in the SVD.
    pub license_file: Option<String>,
}

/// Which emission steps beyond the target-independent accessors run for a target.
#[derive(Copy, Clone, PartialEq, Eq, Structural, Debug)]
pub struct TargetFeatures {
    /// An interrupt vector table is emitted.
    pub interrupt_table: bool,
    /// NVIC priority-bit metadata is emitted.
    pub nvic_priority_bits: bool,
    /// A bus-locking atomic modify operation is emitted for each register.
    pub atomic_modify: bool,
    /// Core CPU peripheral accessors are re-exported.
    pub core_peripherals: bool,
}

pub open spec fn target_features_spec(t: Target) -> TargetFeatures {
    match t {
        Target::Generic => TargetFeatures {
            interrupt_table: false,
            nvic_priority_bits: false,
            atomic_modify: false,
            core_peripherals: false,
        },
        Target::Aurix => TargetFeatures {
            interrupt_table: false,
            nvic_priority_bits: false,
            atomic_modify: true,
            core_peripherals: false,
        },
        Target::CortexM => TargetFeatures {
            interrupt_table: true,
            nvic_priority_bits: true,
            atomic_modify: false,
            core_peripherals: true,
        },
    }
}

/// The extra emission steps that `t` selects: none for `Generic`, the atomic
/// modify operation for `Aurix`, the interrupt table, NVIC metadata and core
/// peripheral re-exports for `CortexM`.
pub fn target_features(t: Target) -> (r: TargetFeatures)
    ensures
        r == target_features_spec(t),
{
    match t {
        Target::Generic => TargetFeatures {
            interrupt_table: false,
            nvic_priority_bits: false,
            atomic_modify: false,
            core_peripherals: false,
        },
        Target::Aurix => TargetFeatures {
            interrupt_table: false,
            nvic_priority_bits: false,
            atomic_modify: true,
            core_peripherals: false,
        },
        Target::CortexM => TargetFeatures {
            interrupt_table: true,
            nvic_priority_bits: true,
            atomic_modify: false,
            core_peripherals: true,
        },
    }
}

} // verus!
