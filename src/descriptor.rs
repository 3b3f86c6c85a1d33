//! The register descriptor: configuration plus resolved fields, and the
//! pure read and write rules that every accessor applies.

use vstd::prelude::*;

use crate::bits::{
    field_value, fits, lemma_read_after_write as lemma_read_after_write_bits, lemma_write_keeps_disjoint,
    lemma_write_stays_in_width, low_mask, mask_of, merged, read_field, shifted, write_field,
};
use crate::config::{top_args_spec, top_resolve_spec, BaseType, TopLevelArgument, TopLevelMacroArguments};
use crate::token::AttrToken;
use crate::error::ConfigError;
use crate::field::{field_spec, BitField, FieldDeclaration, FieldModel};
use crate::variants::{
    decode_spec, encode_spec, entries_valid, lemma_variant_round_trip, ExternalVariants, VariantSet,
};

verus! {

/// Why an access to a register was refused.
#[derive(Clone, Copy, Debug, PartialEq, Eq, Structural)]
pub enum AccessError {
    /// The mask matches none of the register's fields.
    UnknownField,
    /// The register cannot be read.
    NotReadable,
    /// The register cannot be written.
    NotWritable,
    /// The register uses another access strategy.
    WrongStrategy,
    /// The field has no named values.
    NoVariants,
    /// The field holds a value that none of its variants has.
    UnknownValue,
    /// No variant of the field has the given name.
    UnknownVariant,
}

/// Names one field of a register by its mask.
#[derive(Clone, Copy, Debug, PartialEq, Eq, Structural)]
pub struct FieldDefinition {
    pub mask: u64,
}

/// The value read from one field.
#[derive(Clone, Copy, Debug, PartialEq, Eq, Structural)]
pub struct Field {
    pub value: u64,
}

impl FieldDefinition {
    /// The definition of the field with mask `mask`.
    pub fn new(mask: u64) -> (r: Self)
        ensures
            r.mask == mask,
    {
        FieldDefinition { mask }
    }

    /// The field's mask.
    pub fn mask(&self) -> (r: u64)
        ensures
            r == self.mask,
    {
        self.mask
    }
}

impl Field {
    /// A field value.
    pub fn new(value: u64) -> (r: Self)
        ensures
            r.value == value,
    {
        Field { value }
    }

    /// The value held.
    pub fn value(&self) -> (r: u64)
        ensures
            r == self.value,
    {
        self.value
    }

    /// The name of the variant of `set` that the value held stands for;
    /// `None` when no variant has that value.
    pub fn variant(&self, set: &VariantSet) -> (r: Option<String>)
        ensures
            match decode_spec(set.entries@, self.value) {
                Some(n) => r matches Some(s) && s@ == n,
                None => r is None,
            },
    {
        set.decode(self.value)
    }
}

/// A compiled register declaration.
#[derive(Clone, Debug, PartialEq, Eq)]
pub struct BitAccess {
    pub top_level_arguments: TopLevelMacroArguments,
    pub struct_identifier: String,
    pub fields: Vec<BitField>,
}

/// The fields that a list of declarations resolves to, or the first error.
pub open spec fn fields_spec(
    decls: Seq<FieldDeclaration>,
    base_type: BaseType,
    ext: Seq<ExternalVariants>,
) -> Result<Seq<FieldModel>, ConfigError>
    decreases decls.len(),
{
    if decls.len() == 0 {
        Ok(Seq::empty())
    } else {
        match fields_spec(decls.drop_last(), base_type, ext) {
            Err(e) => Err(e),
            Ok(ms) => match field_spec(decls.last(), base_type, ext) {
                Err(e) => Err(e),
                Ok(m) => Ok(ms.push(m)),
            },
        }
    }
}

/// The first field, from `from` on, with mask `mask`.
pub open spec fn mask_index(fields: Seq<BitField>, mask: u64, from: int) -> Option<int>
    decreases fields.len() - from,
{
    if from < 0 || from >= fields.len() {
        None
    } else if fields[from].mask == mask {
        Some(from)
    } else {
        mask_index(fields, mask, from + 1)
    }
}

impl BitAccess {
    /// The resolved fields, in declaration order.
    pub open spec fn models(&self) -> Seq<FieldModel> {
        self.fields@.map_values(|f: BitField| f@)
    }

    /// The register's width in bits.
    pub open spec fn bits_spec(&self) -> u64 {
        self.top_level_arguments.base_type.bits_spec()
    }

    /// Every field lies inside the register and carries its mask, and every
    /// value space has distinct names and values that fit the register.
    pub open spec fn wf(&self) -> bool {
        forall|i: int|
            0 <= i < self.fields@.len() ==> {
                let f = #[trigger] self.fields@[i];
                &&& fits(f.position.offset, f.position.size, self.bits_spec())
                &&& f.mask == mask_of(f.position.offset, f.position.size)
                &&& f.variants matches Some(set) ==> entries_valid(set.entries@, self.bits_spec())
            }
    }

    /// The field selected by a mask: the first declared with it.
    pub open spec fn selected(&self, mask: u64) -> Option<int> {
        mask_index(self.fields@, mask, 0)
    }

    /// The value of the field with mask `mask` in `raw`.
    pub open spec fn read_spec(&self, raw: u64, mask: u64) -> Result<u64, AccessError> {
        match self.selected(mask) {
            None => Err(AccessError::UnknownField),
            Some(i) => Ok(field_value(raw, mask, self.fields@[i].position.offset)),
        }
    }

    /// `raw` with the field with mask `mask` set to `value`, truncated to
    /// the field; the other bits are kept.
    pub open spec fn write_spec(&self, raw: u64, mask: u64, value: u64) -> Result<u64, AccessError> {
        match self.selected(mask) {
            None => Err(AccessError::UnknownField),
            Some(i) => Ok(merged(raw, mask, self.fields@[i].position.offset, value)),
        }
    }

    /// The raw value that sets the field with mask `mask` to `value`,
    /// truncated to the field, with every other bit zero.
    pub open spec fn write_alone_spec(&self, mask: u64, value: u64) -> Result<u64, AccessError> {
        match self.selected(mask) {
            None => Err(AccessError::UnknownField),
            Some(i) => Ok(shifted(mask, self.fields@[i].position.offset, value)),
        }
    }

    /// Compiles a register declaration: its register-level arguments, then
    /// each field in order. The first error rejects the whole declaration.
    pub fn new(
        ident: String,
        args: &Vec<TopLevelArgument>,
        decls: &Vec<FieldDeclaration>,
        ext: &Vec<ExternalVariants>,
    ) -> (r: Result<BitAccess, ConfigError>)
        ensures
            match top_resolve_spec(args@) {
                Err(e) => r == Err::<BitAccess, ConfigError>(e),
                Ok(t) => match fields_spec(decls@, t.base_type, ext@) {
                    Err(e) => r == Err::<BitAccess, ConfigError>(e),
                    Ok(ms) => r matches Ok(b) && b.top_level_arguments == t && b.struct_identifier@
                        == ident@ && b.models() == ms,
                },
            },
            r matches Ok(b) ==> b.wf(),
    {
        let top = TopLevelMacroArguments::from_arguments(args)?;
        let base_type = top.base_type;
        let mut fields: Vec<BitField> = Vec::new();
        let mut i: usize = 0;
        assert(decls@.subrange(0, 0) == Seq::<FieldDeclaration>::empty());
        assert(fields@.map_values(|f: BitField| f@) == Seq::<FieldModel>::empty());
        while i < decls.len()
            invariant
                i <= decls.len(),
                top_resolve_spec(args@) == Ok::<TopLevelMacroArguments, ConfigError>(top),
                base_type == top.base_type,
                fields_spec(decls@.subrange(0, i as int), base_type, ext@) == Ok::<Seq<FieldModel>, ConfigError>(
                    fields@.map_values(|f: BitField| f@),
                ),
                forall|k: int|
                    0 <= k < fields@.len() ==> {
                        let f = #[trigger] fields@[k];
                        &&& fits(f.position.offset, f.position.size, base_type.bits_spec())
                        &&& f.mask == mask_of(f.position.offset, f.position.size)
                        &&& f.variants matches Some(set) ==> entries_valid(set.entries@, base_type.bits_spec())
                    },
            decreases decls.len() - i,
        {
            assert(decls@.subrange(0, i as int + 1).drop_last() == decls@.subrange(0, i as int));
            assert(decls@.subrange(0, i as int + 1).last() == decls@[i as int]);
            let f = match BitField::single(&decls[i], base_type, ext) {
                Ok(f) => f,
                Err(e) => {
                    assert(fields_spec(decls@.subrange(0, i as int + 1), base_type, ext@) == Err::<
                        Seq<FieldModel>,
                        ConfigError,
                    >(e));
                    proof { lemma_fields_error_sticks(decls@, base_type, ext@, i as int + 1); }
                    assert(top_resolve_spec(args@) == Ok::<TopLevelMacroArguments, ConfigError>(top));
                    assert(fields_spec(decls@, top.base_type, ext@) == Err::<Seq<FieldModel>, ConfigError>(e));
                    return Err(e);
                },
            };
            let ghost before = fields@;
            fields.push(f);
            assert(fields@.map_values(|f: BitField| f@) == before.map_values(|f: BitField| f@).push(f@));
            i = i + 1;
        }
        assert(decls@.subrange(0, decls.len() as int) == decls@);
        Ok(BitAccess { top_level_arguments: top, struct_identifier: ident, fields })
    }

    /// Compiles a register declaration whose register-level arguments are
    /// given as tokens: they are read first, then compiled as by `new`.
    pub fn compile(
        ident: String,
        args: &Vec<AttrToken>,
        decls: &Vec<FieldDeclaration>,
        ext: &Vec<ExternalVariants>,
    ) -> (r: Result<BitAccess, ConfigError>)
        ensures
            match top_args_spec(args@) {
                Err(e) => r == Err::<BitAccess, ConfigError>(e),
                Ok(a) => match top_resolve_spec(a) {
                    Err(e) => r == Err::<BitAccess, ConfigError>(e),
                    Ok(t) => match fields_spec(decls@, t.base_type, ext@) {
                        Err(e) => r == Err::<BitAccess, ConfigError>(e),
                        Ok(ms) => r matches Ok(b) && b.top_level_arguments == t && b.struct_identifier@
                            == ident@ && b.models() == ms,
                    },
                },
            },
            r matches Ok(b) ==> b.wf(),
    {
        let parsed = TopLevelArgument::parse_list(args)?;
        BitAccess::new(ident, &parsed, decls, ext)
    }

    /// The definition of the first field named `name`, if any: the constant
    /// that names the field in reads and writes.
    pub fn field(&self, name: &str) -> (r: Option<FieldDefinition>)
        ensures
            match r {
                Some(d) => exists|i: int|
                    0 <= i < self.fields@.len() && self.fields@[i].ident@ == name@ && d.mask
                        == self.fields@[i].mask && forall|j: int| 0 <= j < i ==> self.fields@[j].ident@ != name@,
                None => forall|i: int| 0 <= i < self.fields@.len() ==> self.fields@[i].ident@ != name@,
            },
    {
        let wanted = name.to_owned();
        let mut i: usize = 0;
        while i < self.fields.len()
            invariant
                i <= self.fields.len(),
                wanted@ == name@,
                forall|j: int| 0 <= j < i ==> self.fields@[j].ident@ != name@,
            decreases self.fields.len() - i,
        {
            if self.fields[i].ident == wanted {
                return Some(FieldDefinition::new(self.fields[i].mask));
            }
            i = i + 1;
        }
        None
    }

    /// The index of the field selected by `mask`.
    pub fn select(&self, mask: u64) -> (r: Option<usize>)
        ensures
            match r {
                Some(i) => self.selected(mask) == Some(i as int) && i < self.fields@.len()
                    && self.fields@[i as int].mask == mask,
                None => self.selected(mask) is None,
            },
    {
        let mut i: usize = 0;
        while i < self.fields.len()
            invariant
                i <= self.fields.len(),
                mask_index(self.fields@, mask, 0) == mask_index(self.fields@, mask, i as int),
            decreases self.fields.len() - i,
        {
            if self.fields[i].mask == mask {
                return Some(i);
            }
            i = i + 1;
        }
        None
    }

    /// Reads the field named by `bits` out of `raw`: `(raw & mask) >> offset`.
    pub fn read_bits(&self, raw: u64, bits: &FieldDefinition) -> (r: Result<Field, AccessError>)
        requires
            self.wf(),
        ensures
            match self.read_spec(raw, bits.mask) {
                Ok(v) => r == Ok::<Field, AccessError>(Field { value: v }),
                Err(e) => r == Err::<Field, AccessError>(e),
            },
    {
        match self.select(bits.mask()) {
            None => Err(AccessError::UnknownField),
            Some(i) => Ok(Field { value: read_field(raw, bits.mask(), self.fields[i].position.offset) }),
        }
    }

    /// Writes `value`, truncated to the field named by `bits`, into `raw`,
    /// keeping the other bits.
    pub fn write_bits(&self, raw: u64, bits: &FieldDefinition, value: u64) -> (r: Result<u64, AccessError>)
        requires
            self.wf(),
        ensures
            r == self.write_spec(raw, bits.mask, value),
            raw <= low_mask(self.bits_spec()) ==> (r matches Ok(v) ==> v <= low_mask(self.bits_spec())),
    {
        match self.select(bits.mask()) {
            None => Err(AccessError::UnknownField),
            Some(i) => {
                let f = &self.fields[i];
                proof {
                    if raw <= low_mask(self.bits_spec()) {
                        lemma_write_stays_in_width(raw, f.position.offset, f.position.size, value, self.bits_spec());
                    }
                }
                Ok(write_field(raw, bits.mask(), f.position.offset, value))
            },
        }
    }

    /// The raw value that writes `value`, truncated to the field named by
    /// `bits`, with every other bit zero: what a register that cannot be
    /// read back is written with.
    pub fn write_bits_alone(&self, bits: &FieldDefinition, value: u64) -> (r: Result<u64, AccessError>)
        requires
            self.wf(),
        ensures
            r == self.write_alone_spec(bits.mask, value),
            r matches Ok(v) ==> v <= low_mask(self.bits_spec()),
    {
        match self.select(bits.mask()) {
            None => Err(AccessError::UnknownField),
            Some(i) => {
                let f = &self.fields[i];
                proof {
                    lemma_write_stays_in_width(0, f.position.offset, f.position.size, value, self.bits_spec());
                    assert(merged(0, f.mask, f.position.offset, value) == shifted(f.mask, f.position.offset, value)) by (bit_vector);
                }
                Ok(write_field(0, bits.mask(), f.position.offset, value))
            },
        }
    }
}

impl BitAccess {
    /// The name of the variant that the field with mask `mask` holds in
    /// `raw`.
    pub open spec fn variant_spec(&self, raw: u64, mask: u64) -> Result<Seq<char>, AccessError> {
        match self.selected(mask) {
            None => Err(AccessError::UnknownField),
            Some(i) => match self.fields@[i].variants {
                None => Err(AccessError::NoVariants),
                Some(set) => match decode_spec(
                    set.entries@,
                    field_value(raw, mask, self.fields@[i].position.offset),
                ) {
                    Some(n) => Ok(n),
                    None => Err(AccessError::UnknownValue),
                },
            },
        }
    }

    /// The value of the variant named `name` of the field with mask `mask`.
    pub open spec fn variant_value_spec(&self, mask: u64, name: Seq<char>) -> Result<u64, AccessError> {
        match self.selected(mask) {
            None => Err(AccessError::UnknownField),
            Some(i) => match self.fields@[i].variants {
                None => Err(AccessError::NoVariants),
                Some(set) => match encode_spec(set.entries@, name) {
                    Some(v) => Ok(v),
                    None => Err(AccessError::UnknownVariant),
                },
            },
        }
    }

    /// The name of the variant that the field named by `bits` holds in `raw`.
    pub fn variant_of(&self, raw: u64, bits: &FieldDefinition) -> (r: Result<String, AccessError>)
        requires
            self.wf(),
        ensures
            match self.variant_spec(raw, bits.mask) {
                Ok(n) => r matches Ok(s) && s@ == n,
                Err(e) => r == Err::<String, AccessError>(e),
            },
    {
        match self.select(bits.mask()) {
            None => Err(AccessError::UnknownField),
            Some(i) => match &self.fields[i].variants {
                None => Err(AccessError::NoVariants),
                Some(set) => {
                    let v = read_field(raw, bits.mask(), self.fields[i].position.offset);
                    match set.decode(v) {
                        Some(s) => Ok(s),
                        None => Err(AccessError::UnknownValue),
                    }
                },
            },
        }
    }

    /// The value of the variant named `name` of the field named by `bits`.
    pub fn variant_value(&self, bits: &FieldDefinition, name: &str) -> (r: Result<u64, AccessError>)
        requires
            self.wf(),
        ensures
            r == self.variant_value_spec(bits.mask, name@),
    {
        match self.select(bits.mask()) {
            None => Err(AccessError::UnknownField),
            Some(i) => match &self.fields[i].variants {
                None => Err(AccessError::NoVariants),
                Some(set) => match set.encode(name) {
                    Some(v) => Ok(v),
                    None => Err(AccessError::UnknownVariant),
                },
            },
        }
    }
}

/// The field that a mask selects carries that mask.
pub proof fn lemma_selected_field(layout: &BitAccess, mask: u64, from: int)
    requires
        0 <= from,
        mask_index(layout.fields@, mask, from) is Some,
    ensures
        ({
            let i = mask_index(layout.fields@, mask, from)->Some_0;
            from <= i < layout.fields@.len() && layout.fields@[i].mask == mask
        }),
    decreases layout.fields@.len() - from,
{
    if from < layout.fields@.len() && layout.fields@[from].mask != mask {
        lemma_selected_field(layout, mask, from + 1);
    }
}

/// Reading a field right after writing `value` to it gives `value` cut down
/// to the field's width; the field's mask is `((1 << width) - 1) << offset`.
pub proof fn lemma_read_after_write(layout: &BitAccess, raw: u64, mask: u64, value: u64)
    requires
        layout.wf(),
        layout.selected(mask) is Some,
    ensures
        ({
            let f = layout.fields@[layout.selected(mask)->Some_0];
            &&& mask == mask_of(f.position.offset, f.position.size)
            &&& layout.write_spec(raw, mask, value) is Ok
            &&& layout.read_spec(layout.write_spec(raw, mask, value)->Ok_0, mask) == Ok::<u64, AccessError>(
                value & low_mask(f.position.size),
            )
        }),
{
    lemma_selected_field(layout, mask, 0);
    let f = layout.fields@[layout.selected(mask)->Some_0];
    lemma_read_after_write_bits(raw, f.position.offset, f.position.size, value);
}

/// Writing one field leaves every field with a disjoint mask reading as
/// before.
pub proof fn lemma_write_keeps_other(layout: &BitAccess, raw: u64, written: u64, other: u64, value: u64)
    requires
        layout.wf(),
        layout.selected(written) is Some,
        layout.selected(other) is Some,
        written & other == 0,
    ensures
        layout.write_spec(raw, written, value) is Ok,
        layout.read_spec(layout.write_spec(raw, written, value)->Ok_0, other) == layout.read_spec(raw, other),
{
    lemma_selected_field(layout, written, 0);
    lemma_selected_field(layout, other, 0);
    let a = layout.fields@[layout.selected(written)->Some_0];
    let b = layout.fields@[layout.selected(other)->Some_0];
    lemma_write_keeps_disjoint(raw, a.position.offset, a.position.size, value, b.position.offset, b.position.size);
}

/// Writing the value of a variant of a field and decoding the field again
/// gives that variant, provided its value fits the field's width.
pub proof fn lemma_variant_write_read(layout: &BitAccess, raw: u64, mask: u64, j: int)
    requires
        layout.wf(),
        layout.selected(mask) is Some,
        layout.fields@[layout.selected(mask)->Some_0].variants is Some,
        0 <= j < layout.fields@[layout.selected(mask)->Some_0].variants->Some_0.entries@.len(),
        ({
            let f = layout.fields@[layout.selected(mask)->Some_0];
            let e = f.variants->Some_0.entries@[j];
            e.value & low_mask(f.position.size) == e.value
        }),
    ensures
        ({
            let f = layout.fields@[layout.selected(mask)->Some_0];
            let e = f.variants->Some_0.entries@[j];
            &&& layout.variant_value_spec(mask, e.ident@) == Ok::<u64, AccessError>(e.value)
            &&& layout.write_spec(raw, mask, e.value) is Ok
            &&& layout.variant_spec(layout.write_spec(raw, mask, e.value)->Ok_0, mask) == Ok::<
                Seq<char>,
                AccessError,
            >(e.ident@)
        }),
{
    lemma_selected_field(layout, mask, 0);
    let f = layout.fields@[layout.selected(mask)->Some_0];
    let es = f.variants->Some_0.entries@;
    lemma_variant_round_trip(es, j, 0);
    lemma_read_after_write(layout, raw, mask, es[j].value);
}

/// Once resolving a field fails, further declarations keep the error.
proof fn lemma_fields_error_sticks(
    decls: Seq<FieldDeclaration>,
    base_type: BaseType,
    ext: Seq<ExternalVariants>,
    i: int,
)
    requires
        0 <= i <= decls.len(),
        fields_spec(decls.subrange(0, i), base_type, ext) is Err,
    ensures
        fields_spec(decls, base_type, ext) == fields_spec(decls.subrange(0, i), base_type, ext),
    decreases decls.len() - i,
{
    if i < decls.len() {
        assert(decls.subrange(0, i + 1).drop_last() == decls.subrange(0, i));
        lemma_fields_error_sticks(decls, base_type, ext, i + 1);
    } else {
        assert(decls.subrange(0, i) == decls);
    }
}

} // verus!
