//! Bit-packed registers described declaratively.
//!
//! A register is a fixed-width unsigned integer split into named fields.
//! A declaration (register-level arguments and an ordered list of field
//! declarations) is compiled into a [`BitAccess`] descriptor: positions are
//! resolved and checked, value spaces are bound, and the access strategy is
//! classified. The descriptor then drives the accessors in [`register`]: an
//! in-memory register, snapshots, and the three externally backed
//! strategies.

pub mod bits;
pub mod config;
pub mod descriptor;
pub mod error;
pub mod field;
pub mod naming;
pub mod position;
pub mod register;
pub mod token;
pub mod variants;

pub use bits::{field_mask, read_field, write_field};
pub use config::{
    BaseType, GlobalReadOnly, GlobalReadWrite, GlobalWriteOnly, Implementation, KindArg, TopLevelArgument,
    TopLevelMacroArguments, TopLevelMacroArgumentsBuilder,
};
pub use descriptor::{AccessError, BitAccess, Field, FieldDefinition};
pub use error::ConfigError;
pub use field::{BitField, FieldAttribute, FieldDeclaration};
pub use naming::{inline_enum_ident, private_module_ident, representation_struct_ident};
pub use token::AttrToken;
pub use position::{FieldArgument, FieldLevelMacroArguments, FieldLevelMacroArgumentsBuilder, Position};
pub use variants::{
    check_entries, ExternalVariants, ExtraEnumAccess, InlineEnumAccess, InlineEnumEntry, VariantDeclaration,
    VariantSet,
};
