//! Field descriptors and the register descriptor.

use vstd::prelude::*;
use vstd::utf8::is_ascii_chars;

use crate::bits::{field_mask, fits, lemma_single_bit_mask, mask_of};
use crate::config::BaseType;
use crate::error::ConfigError;
use crate::token::AttrToken;
use crate::naming::{inline_enum_ident, pascal_of};
use crate::position::{
    field_args_spec, lemma_single_form, lemma_written_forms_agree, resolve_spec, FieldArgument,
    FieldLevelMacroArguments,
};
use crate::variants::{
    check_entries, copy_entries, entries_check_spec, entries_spec, is_inline_spec, ExternalVariants,
    ExtraEnumAccess, InlineEnumEntry, VariantSet,
};

verus! {

/// One attribute of a field declaration.
#[derive(Clone, Debug, PartialEq, Eq)]
pub enum FieldAttribute {
    /// The field's position declaration (`bits`, `bit` or `bitaccess`), by
    /// its tokens.
    Bits(Vec<AttrToken>),
    /// The field's value space declaration (`variants`), by its tokens.
    Variants(Vec<AttrToken>),
    /// Any other attribute; it is left alone.
    Other,
}

/// Names of the attributes that declare a field's position.
pub open spec fn is_position_name(name: Seq<char>) -> bool {
    name == "bits"@ || name == "bit"@ || name == "bitaccess"@
}

impl FieldAttribute {
    /// Classifies a field attribute by its name: `bits`, `bit` and
    /// `bitaccess` declare the position, `variants` the value space, and any
    /// other attribute is left alone.
    pub fn from_name(name: &str, tokens: Vec<AttrToken>) -> (r: FieldAttribute)
        ensures
            is_position_name(name@) ==> (r matches FieldAttribute::Bits(t) && t@ == tokens@),
            name@ == "variants"@ ==> (r matches FieldAttribute::Variants(t) && t@ == tokens@),
            !is_position_name(name@) && name@ != "variants"@ ==> r is Other,
    {
        proof {
            reveal_strlit("variants");
            reveal_strlit("bits");
            reveal_strlit("bit");
            reveal_strlit("bitaccess");
            assert("variants"@.len() == 8 && "bits"@.len() == 4 && "bit"@.len() == 3 && "bitaccess"@.len() == 9);
        }
        let n = name.to_owned();
        if n == "bits".to_owned() || n == "bit".to_owned() || n == "bitaccess".to_owned() {
            FieldAttribute::Bits(tokens)
        } else if n == "variants".to_owned() {
            FieldAttribute::Variants(tokens)
        } else {
            FieldAttribute::Other
        }
    }
}

/// A field as declared: its name and its attributes, in order.
#[derive(Clone, Debug, PartialEq, Eq)]
pub struct FieldDeclaration {
    pub ident: String,
    pub attributes: Vec<FieldAttribute>,
}

/// A field once resolved: name, position, mask and value space.
#[derive(Clone, Debug, PartialEq, Eq)]
pub struct BitField {
    pub ident: String,
    pub position: FieldLevelMacroArguments,
    pub mask: u64,
    pub variants: Option<VariantSet>,
}

/// What a resolved field is, in plain values.
pub ghost struct FieldModel {
    pub ident: Seq<char>,
    pub offset: u64,
    pub size: u64,
    pub mask: u64,
    /// The name of the value type and its entries, if the field has one.
    pub variants: Option<(Seq<char>, Seq<InlineEnumEntry>)>,
}

impl View for BitField {
    type V = FieldModel;

    open spec fn view(&self) -> FieldModel {
        FieldModel {
            ident: self.ident@,
            offset: self.position.offset,
            size: self.position.size,
            mask: self.mask,
            variants: match self.variants {
                Some(v) => Some((v.value_type@, v.entries@)),
                None => None,
            },
        }
    }
}

/// The positions of the position declaration and of the variants
/// declaration among a field's attributes, or the error for a second one of
/// either.
pub open spec fn scan_spec(attrs: Seq<FieldAttribute>) -> Result<(Option<int>, Option<int>), ConfigError>
    decreases attrs.len(),
{
    if attrs.len() == 0 {
        Ok((None, None))
    } else {
        match scan_spec(attrs.drop_last()) {
            Err(e) => Err(e),
            Ok((b, v)) => match attrs.last() {
                FieldAttribute::Bits(_) => if b is Some {
                    Err(ConfigError::DuplicatePosition)
                } else {
                    Ok((Some(attrs.len() - 1), v))
                },
                FieldAttribute::Variants(_) => if v is Some {
                    Err(ConfigError::DuplicateVariants)
                } else {
                    Ok((b, Some(attrs.len() - 1)))
                },
                FieldAttribute::Other => Ok((b, v)),
            },
        }
    }
}

/// The first known value type named `name`.
pub open spec fn external_index(ext: Seq<ExternalVariants>, name: Seq<char>) -> Option<int>
    decreases ext.len(),
{
    if ext.len() == 0 {
        None
    } else {
        match external_index(ext.drop_last(), name) {
            Some(i) => Some(i),
            None => if ext.last().name@ == name {
                Some(ext.len() - 1)
            } else {
                None
            },
        }
    }
}

/// The value space that a field's variants declaration binds: an inline
/// list becomes a value type named after the field; a type name must name a
/// known value type over the same base type. An inline list needs an ASCII
/// field name to name its value type. Either way the names and the
/// values must be distinct and the values must fit the base type.
pub open spec fn bind_spec(
    field: Seq<char>,
    toks: Seq<AttrToken>,
    base_type: BaseType,
    ext: Seq<ExternalVariants>,
) -> Result<(Seq<char>, Seq<InlineEnumEntry>), ConfigError> {
    if is_inline_spec(toks) {
        match entries_spec(toks) {
            None => Err(ConfigError::MalformedVariants),
            Some(es) => match entries_check_spec(es, base_type.bits_spec()) {
                Err(e) => Err(e),
                Ok(_) => if is_ascii_chars(field) {
                    Ok((pascal_of(field), es))
                } else {
                    Err(ConfigError::NonAsciiName)
                },
            },
        }
    } else if toks.len() == 1 && toks[0] is Ident {
        let name = toks[0]->Ident_0@;
        match external_index(ext, name) {
            None => Err(ConfigError::UnknownVariantType),
            Some(i) => if ext[i].base_type != base_type {
                Err(ConfigError::VariantWidthMismatch)
            } else {
                match entries_check_spec(ext[i].entries@, base_type.bits_spec()) {
                    Err(e) => Err(e),
                    Ok(_) => Ok((name, ext[i].entries@)),
                }
            },
        }
    } else {
        Err(ConfigError::MalformedVariants)
    }
}

/// The position that the tokens of a position declaration stand for.
pub open spec fn position_spec(toks: Seq<AttrToken>) -> Result<FieldLevelMacroArguments, ConfigError> {
    match field_args_spec(toks) {
        Err(e) => Err(e),
        Ok(args) => resolve_spec(args),
    }
}

/// What a field declaration resolves to inside a register of `base_type`.
pub open spec fn field_spec(
    decl: FieldDeclaration,
    base_type: BaseType,
    ext: Seq<ExternalVariants>,
) -> Result<FieldModel, ConfigError> {
    let attrs = decl.attributes@;
    match scan_spec(attrs) {
        Err(e) => Err(e),
        Ok((None, _)) => Err(ConfigError::MissingPosition),
        Ok((Some(b), v)) => match position_spec(attrs[b]->Bits_0@) {
            Err(e) => Err(e),
            Ok(p) => if !fits(p.offset, p.size, base_type.bits_spec()) {
                Err(ConfigError::FieldOutOfRange)
            } else {
                let bound = match v {
                    None => Ok(None),
                    Some(vi) => match bind_spec(decl.ident@, attrs[vi]->Variants_0@, base_type, ext) {
                        Err(e) => Err(e),
                        Ok(pair) => Ok(Some(pair)),
                    },
                };
                match bound {
                    Err(e) => Err(e),
                    Ok(variants) => Ok(
                        FieldModel {
                            ident: decl.ident@,
                            offset: p.offset,
                            size: p.size,
                            mask: mask_of(p.offset, p.size),
                            variants,
                        },
                    ),
                }
            },
        },
    }
}

/// Finds the position and variants declarations among a field's attributes.
fn scan_attributes(attrs: &Vec<FieldAttribute>) -> (r: Result<(Option<usize>, Option<usize>), ConfigError>)
    ensures
        match scan_spec(attrs@) {
            Ok((b, v)) => r matches Ok((rb, rv)) && (match rb {
                Some(x) => b == Some(x as int),
                None => b is None,
            }) && (match rv {
                Some(x) => v == Some(x as int),
                None => v is None,
            }),
            Err(e) => r == Err::<(Option<usize>, Option<usize>), ConfigError>(e),
        },
        r matches Ok((Some(x), _)) ==> x < attrs@.len() && attrs@[x as int] is Bits,
        r matches Ok((_, Some(x))) ==> x < attrs@.len() && attrs@[x as int] is Variants,
{
    let mut bits: Option<usize> = None;
    let mut vars: Option<usize> = None;
    let mut i: usize = 0;
    while i < attrs.len()
        invariant
            i <= attrs.len(),
            scan_spec(attrs@.subrange(0, i as int)) == Ok::<(Option<int>, Option<int>), ConfigError>((
                match bits {
                    Some(x) => Some(x as int),
                    None => None,
                },
                match vars {
                    Some(x) => Some(x as int),
                    None => None,
                },
            )),
            bits matches Some(x) ==> x < i && attrs@[x as int] is Bits,
            vars matches Some(x) ==> x < i && attrs@[x as int] is Variants,
        decreases attrs.len() - i,
    {
        assert(attrs@.subrange(0, i as int + 1).drop_last() == attrs@.subrange(0, i as int));
        match &attrs[i] {
            FieldAttribute::Bits(_) => {
                if bits.is_some() {
                    proof { lemma_scan_error_sticks(attrs@, i as int + 1); }
                    return Err(ConfigError::DuplicatePosition);
                }
                bits = Some(i);
            },
            FieldAttribute::Variants(_) => {
                if vars.is_some() {
                    proof { lemma_scan_error_sticks(attrs@, i as int + 1); }
                    return Err(ConfigError::DuplicateVariants);
                }
                vars = Some(i);
            },
            FieldAttribute::Other => {},
        }
        i = i + 1;
    }
    assert(attrs@.subrange(0, attrs.len() as int) == attrs@);
    Ok((bits, vars))
}

/// A field declared with a position declaration alone resolves to the
/// position that declaration stands for, with mask
/// `((1 << size) - 1) << offset` and no value space.
pub proof fn lemma_plain_field(decl: FieldDeclaration, base_type: BaseType, ext: Seq<ExternalVariants>)
    requires
        decl.attributes@.len() == 1,
        decl.attributes@[0] is Bits,
    ensures
        field_spec(decl, base_type, ext) == match position_spec(decl.attributes@[0]->Bits_0@) {
            Err(e) => Err(e),
            Ok(p) => if !fits(p.offset, p.size, base_type.bits_spec()) {
                Err(ConfigError::FieldOutOfRange)
            } else {
                Ok(
                    FieldModel {
                        ident: decl.ident@,
                        offset: p.offset,
                        size: p.size,
                        mask: mask_of(p.offset, p.size),
                        variants: None,
                    },
                )
            },
        },
{
    let attrs = decl.attributes@;
    assert(attrs.drop_last() == Seq::<FieldAttribute>::empty());
    assert(scan_spec(Seq::<FieldAttribute>::empty()) == Ok::<(Option<int>, Option<int>), ConfigError>((None, None)));
    assert(scan_spec(attrs) == Ok::<(Option<int>, Option<int>), ConfigError>((Some(0), None)));
}

/// Fields declared as `offset = lo, size = hi - lo`, as `lo..hi` and as
/// `lo..=hi - 1` resolve alike, with the same mask.
pub proof fn lemma_range_fields_agree(
    explicit: FieldDeclaration,
    half_open: FieldDeclaration,
    inclusive: FieldDeclaration,
    offset_key: String,
    size_key: String,
    lo: u64,
    hi: u64,
    base_type: BaseType,
    ext: Seq<ExternalVariants>,
)
    requires
        lo < hi,
        offset_key@ == "offset"@,
        size_key@ == "size"@,
        explicit.ident@ == half_open.ident@,
        explicit.ident@ == inclusive.ident@,
        explicit.attributes@.len() == 1,
        half_open.attributes@.len() == 1,
        inclusive.attributes@.len() == 1,
        explicit.attributes@[0] matches FieldAttribute::Bits(t) && t@ == seq![
            AttrToken::Ident(offset_key),
            AttrToken::Eq,
            AttrToken::Literal(lo),
            AttrToken::Comma,
            AttrToken::Ident(size_key),
            AttrToken::Eq,
            AttrToken::Literal((hi - lo) as u64),
        ],
        half_open.attributes@[0] matches FieldAttribute::Bits(t) && t@ == seq![
            AttrToken::Literal(lo),
            AttrToken::DotDot,
            AttrToken::Literal(hi),
        ],
        inclusive.attributes@[0] matches FieldAttribute::Bits(t) && t@ == seq![
            AttrToken::Literal(lo),
            AttrToken::DotDotEq,
            AttrToken::Literal((hi - 1) as u64),
        ],
    ensures
        field_spec(explicit, base_type, ext) == field_spec(half_open, base_type, ext),
        field_spec(explicit, base_type, ext) == field_spec(inclusive, base_type, ext),
{
    lemma_written_forms_agree(
        explicit.attributes@[0]->Bits_0@,
        half_open.attributes@[0]->Bits_0@,
        inclusive.attributes@[0]->Bits_0@,
        offset_key,
        size_key,
        lo,
        hi,
    );
    lemma_plain_field(explicit, base_type, ext);
    lemma_plain_field(half_open, base_type, ext);
    lemma_plain_field(inclusive, base_type, ext);
}

/// The single-bit shorthand `n` reads and resolves to offset `n` and size 1.
pub proof fn lemma_single_position(n: u64)
    ensures
        position_spec(seq![AttrToken::Literal(n)]) == Ok::<FieldLevelMacroArguments, ConfigError>(
            FieldLevelMacroArguments { offset: n, size: 1 },
        ),
{
    lemma_single_form(n);
}

/// A field declared as the single bit `n` of a register wide enough for it
/// has offset `n`, size 1 and mask `1 << n`.
pub proof fn lemma_single_bit_field(decl: FieldDeclaration, n: u64, base_type: BaseType, ext: Seq<ExternalVariants>)
    requires
        n < base_type.bits_spec(),
        decl.attributes@.len() == 1,
        decl.attributes@[0] matches FieldAttribute::Bits(t) && t@ == seq![AttrToken::Literal(n)],
    ensures
        field_spec(decl, base_type, ext) matches Ok(m) && m.offset == n && m.size == 1 && m.mask == 1u64 << n,
{
    lemma_single_form(n);
    lemma_single_bit_mask(n);
    lemma_plain_field(decl, base_type, ext);
}

/// Once the scan fails, further attributes keep the error.
proof fn lemma_scan_error_sticks(attrs: Seq<FieldAttribute>, i: int)
    requires
        0 <= i <= attrs.len(),
        scan_spec(attrs.subrange(0, i)) is Err,
    ensures
        scan_spec(attrs) == scan_spec(attrs.subrange(0, i)),
    decreases attrs.len() - i,
{
    if i < attrs.len() {
        assert(attrs.subrange(0, i + 1).drop_last() == attrs.subrange(0, i));
        lemma_scan_error_sticks(attrs, i + 1);
    } else {
        assert(attrs.subrange(0, i) == attrs);
    }
}

/// Once a value type is found in a prefix, it stays the first one.
proof fn lemma_external_found_sticks(ext: Seq<ExternalVariants>, name: Seq<char>, i: int)
    requires
        0 <= i <= ext.len(),
        external_index(ext.subrange(0, i), name) is Some,
    ensures
        external_index(ext, name) == external_index(ext.subrange(0, i), name),
    decreases ext.len() - i,
{
    if i < ext.len() {
        assert(ext.subrange(0, i + 1).drop_last() == ext.subrange(0, i));
        lemma_external_found_sticks(ext, name, i + 1);
    } else {
        assert(ext.subrange(0, i) == ext);
    }
}

/// Finds the first known value type named `name`.
fn find_external(ext: &Vec<ExternalVariants>, name: &String) -> (r: Option<usize>)
    ensures
        match r {
            Some(i) => external_index(ext@, name@) == Some(i as int) && i < ext@.len(),
            None => external_index(ext@, name@) is None,
        },
{
    let mut i: usize = 0;
    while i < ext.len()
        invariant
            i <= ext.len(),
            external_index(ext@.subrange(0, i as int), name@) is None,
        decreases ext.len() - i,
    {
        assert(ext@.subrange(0, i as int + 1).drop_last() == ext@.subrange(0, i as int));
        if ext[i].name == *name {
            proof { lemma_external_found_sticks(ext@, name@, i as int + 1); }
            return Some(i);
        }
        i = i + 1;
    }
    assert(ext@.subrange(0, ext.len() as int) == ext@);
    None
}

/// Binds a field's variants declaration to its value space.
fn bind_variants(
    field: &String,
    toks: &Vec<AttrToken>,
    base_type: BaseType,
    ext: &Vec<ExternalVariants>,
) -> (r: Result<VariantSet, ConfigError>)
    ensures
        match bind_spec(field@, toks@, base_type, ext@) {
            Ok((n, es)) => r matches Ok(s) && s.value_type@ == n && s.entries@ == es,
            Err(e) => r == Err::<VariantSet, ConfigError>(e),
        },
{
    match ExtraEnumAccess::parse(toks)? {
        ExtraEnumAccess::InlineEnum(access) => {
            check_entries(&access.items, base_type)?;
            match inline_enum_ident(field.as_str()) {
                Some(value_type) => Ok(VariantSet { value_type, entries: access.items }),
                None => Err(ConfigError::NonAsciiName),
            }
        },
        ExtraEnumAccess::ExternalEnum(name) => {
            match find_external(ext, &name) {
                None => Err(ConfigError::UnknownVariantType),
                Some(i) => {
                    if ext[i].base_type != base_type {
                        return Err(ConfigError::VariantWidthMismatch);
                    }
                    check_entries(&ext[i].entries, base_type)?;
                    Ok(VariantSet { value_type: name, entries: copy_entries(&ext[i].entries) })
                },
            }
        },
    }
}

impl BitField {
    /// Resolves one field declaration inside a register of `base_type`: it
    /// must have exactly one position declaration and at most one variants
    /// declaration; its position must lie inside the register; its value
    /// space, if any, is bound.
    pub fn single(decl: &FieldDeclaration, base_type: BaseType, ext: &Vec<ExternalVariants>) -> (r: Result<
        BitField,
        ConfigError,
    >)
        ensures
            match field_spec(*decl, base_type, ext@) {
                Ok(m) => r matches Ok(f) && f@ == m,
                Err(e) => r == Err::<BitField, ConfigError>(e),
            },
    {
        let (bits, vars) = scan_attributes(&decl.attributes)?;
        let bi = match bits {
            Some(b) => b,
            None => return Err(ConfigError::MissingPosition),
        };
        let position = match &decl.attributes[bi] {
            FieldAttribute::Bits(toks) => {
                let args = FieldArgument::parse_list(toks)?;
                FieldLevelMacroArguments::from_arguments(&args)?
            },
            _ => return Err(ConfigError::MissingPosition),
        };
        let width = base_type.bits();
        if !(position.offset <= width && position.size <= width - position.offset) {
            return Err(ConfigError::FieldOutOfRange);
        }
        let mask = field_mask(position.offset, position.size);
        let variants = match vars {
            None => None,
            Some(vi) => match &decl.attributes[vi] {
                FieldAttribute::Variants(toks) => Some(bind_variants(&decl.ident, toks, base_type, ext)?),
                _ => None,
            },
        };
        Ok(BitField { ident: decl.ident.clone(), position, mask, variants })
    }
}

} // verus!
