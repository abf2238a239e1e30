//! The failures of each pipeline stage. All of them are fatal to a run.
use vstd::prelude::*;

verus! {

/// A register attribute that the chosen validation level requires is absent or malformed.
#[derive(Copy, Clone, PartialEq, Eq, Structural, Debug)]
pub enum ValidationError {
    /// The register has no address offset.
    MissingAddress,
    /// No size is given and none may be substituted.
    MissingSize,
    /// The size is zero or wider than 64 bits.
    InvalidSize,
    /// No access mode is given and none may be substituted.
    MissingAccess,
    /// No reset value is given and none may be substituted.
    MissingResetValue,
}

/// The validated document cannot be turned into an unambiguous model.
#[derive(Copy, Clone, PartialEq, Eq, Structural, Debug)]
pub enum ModelBuildError {
    /// A `derivedFrom` reference names no peripheral.
    UndefinedParent,
    /// `derivedFrom` references form a cycle.
    DerivationCycle,
    /// An enumerated value does not fit its bitfield's width.
    EnumeratedValueOverflow,
    /// Two concrete entities share a name after expansion.
    DuplicateName,
    /// An array instance's address does not fit 64 bits.
    AddressOverflow,
    /// A bitfield array element's bit offset does not fit 32 bits.
    FieldOffsetOverflow,
}

/// The model's bit or address layout is inconsistent.
#[derive(Copy, Clone, PartialEq, Eq, Structural, Debug)]
pub enum LayoutError {
    /// A bitfield is empty or reaches past the end of its register.
    FieldOutOfRange,
    /// Two bitfields of one register share a bit.
    OverlappingFields,
    /// Two registers that are not aliases share an absolute address.
    AddressCollision,
    /// An absolute register address does not fit 64 bits.
    AddressOverflow,
}

} // verus!

verus! {

/// Rendering met a model that layout analysis should have rejected.
#[derive(Copy, Clone, PartialEq, Eq, Structural, Debug)]
pub enum CodeGenError {
    /// A field is empty or wider than 64 bits.
    FieldWidth,
    /// A register address does not fit 64 bits.
    AddressOverflow,
}

} // verus!
