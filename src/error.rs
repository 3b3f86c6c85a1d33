//! Configuration errors: every way a declaration can be rejected.

use vstd::prelude::*;

verus! {

/// Why a register declaration was rejected. Each error aborts the whole
/// declaration.
#[derive(Clone, Copy, Debug, PartialEq, Eq, Structural)]
pub enum ConfigError {
    /// A range whose end lies before its start.
    InvalidRange,
    /// A position declaration that is not a comma-separated list of
    /// `offset = n`, `size = n`, `lo..hi`, `lo..=hi` and `n`.
    MalformedPosition,
    /// A register-level argument that is not `base_type = T`, `kind = K`,
    /// `read_via = "..."` or `write_via = "..."`.
    MalformedArgument,
    /// A base type other than `u8`, `u16`, `u32` and `u64`.
    UnsupportedBaseType,
    /// An access kind other than `read_only`, `write_only`, `read_write`,
    /// `write_read` and `default`.
    UnsupportedKind,
    /// `offset` given twice in one position declaration.
    DuplicateOffset,
    /// `size` given twice in one position declaration.
    DuplicateSize,
    /// A range mixed with another position form.
    RangeWithOther,
    /// A single bit mixed with another position form.
    SingleWithOther,
    /// No offset was given.
    MissingOffset,
    /// No size was given.
    MissingSize,
    /// A field without a position declaration.
    MissingPosition,
    /// A field with more than one position declaration.
    DuplicatePosition,
    /// A field with more than one variants declaration.
    DuplicateVariants,
    /// A field that does not lie inside the register.
    FieldOutOfRange,
    /// A variants declaration that is neither a list of `Name => value`
    /// pairs nor a single type name.
    MalformedVariants,
    /// Two variants of one value space with the same name.
    DuplicateVariantName,
    /// Two variants of one value space with the same value.
    DuplicateVariantValue,
    /// A variant value that does not fit the base type.
    VariantOutOfRange,
    /// A field with inline variants whose name is not ASCII, so that no
    /// name can be made for its value type.
    NonAsciiName,
    /// A variants declaration naming a type that is not known.
    UnknownVariantType,
    /// A variant type declared over another base width than the register.
    VariantWidthMismatch,
    /// `base_type` given twice.
    DuplicateBaseType,
    /// `kind` given twice.
    DuplicateKind,
    /// `read_via` given twice.
    DuplicateReadVia,
    /// `write_via` given twice.
    DuplicateWriteVia,
    /// No `base_type` was given.
    MissingBaseType,
    /// A combination of `kind`, `read_via` and `write_via` that selects no
    /// register strategy.
    InvalidCombination,
}

} // verus!
