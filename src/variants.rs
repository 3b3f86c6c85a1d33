//! The variant binder: a field's optional value space.

use vstd::prelude::*;

use crate::bits::low_mask;
use crate::config::BaseType;
use crate::error::ConfigError;
use crate::token::AttrToken;

verus! {

/// A named value of a field: `ident => value`.
#[derive(Clone, Debug, PartialEq, Eq)]
pub struct InlineEnumEntry {
    pub ident: String,
    pub value: u64,
}

/// An inline list of named values.
#[derive(Clone, Debug, PartialEq, Eq)]
pub struct InlineEnumAccess {
    pub items: Vec<InlineEnumEntry>,
}

/// A parsed variants declaration.
#[derive(Clone, Debug, PartialEq, Eq)]
pub enum ExtraEnumAccess {
    /// A reference to a value type declared elsewhere, by name.
    ExternalEnum(String),
    /// Named values listed with the field.
    InlineEnum(InlineEnumAccess),
}

/// The entries that a list of `Name => value` pairs, separated by commas,
/// with an optional trailing comma, stands for; `None` if the tokens are not
/// such a list.
pub open spec fn entries_spec(toks: Seq<AttrToken>) -> Option<Seq<InlineEnumEntry>>
    decreases toks.len(),
{
    if toks.len() == 0 {
        Some(Seq::empty())
    } else if toks.len() >= 3 && toks[0] is Ident && toks[1] is FatArrow && toks[2] is Literal {
        let e = InlineEnumEntry { ident: toks[0]->Ident_0, value: toks[2]->Literal_0 };
        let rest = toks.skip(3);
        if rest.len() == 0 {
            Some(seq![e])
        } else if rest[0] is Comma {
            match entries_spec(rest.skip(1)) {
                Some(es) => Some(seq![e] + es),
                None => None,
            }
        } else {
            None
        }
    } else {
        None
    }
}

/// A declaration whose second token is `=>` is an inline list; any other is
/// a type reference.
pub open spec fn is_inline_spec(toks: Seq<AttrToken>) -> bool {
    toks.len() >= 2 && toks[1] is FatArrow
}

/// `prefix` followed by what `rest` holds, if anything.
pub open spec fn prepend(prefix: Seq<InlineEnumEntry>, rest: Option<Seq<InlineEnumEntry>>) -> Option<Seq<InlineEnumEntry>> {
    match rest {
        Some(es) => Some(prefix + es),
        None => None,
    }
}

/// Parses the tokens of an inline list of `Name => value` pairs.
fn parse_entries(toks: &Vec<AttrToken>) -> (r: Result<Vec<InlineEnumEntry>, ConfigError>)
    ensures
        match entries_spec(toks@) {
            Some(es) => r is Ok && r->Ok_0@ == es,
            None => r == Err::<Vec<InlineEnumEntry>, ConfigError>(ConfigError::MalformedVariants),
        },
{
    let mut out: Vec<InlineEnumEntry> = Vec::new();
    let mut i: usize = 0;
    let n = toks.len();
    assert(toks@.skip(0) == toks@);
    proof {
        if let Some(es) = entries_spec(toks@) {
            assert(Seq::<InlineEnumEntry>::empty() + es == es);
        }
    }
    while i < n
        invariant
            n == toks.len(),
            i <= n,
            entries_spec(toks@) == prepend(out@, entries_spec(toks@.skip(i as int))),
        decreases n - i,
    {
        let ghost tail = toks@.skip(i as int);
        if n - i < 3 {
            return Err(ConfigError::MalformedVariants);
        }
        let name = match &toks[i] {
            AttrToken::Ident(s) => s.clone(),
            _ => return Err(ConfigError::MalformedVariants),
        };
        match &toks[i + 1] {
            AttrToken::FatArrow => {},
            _ => return Err(ConfigError::MalformedVariants),
        }
        let value = match &toks[i + 2] {
            AttrToken::Literal(v) => *v,
            _ => return Err(ConfigError::MalformedVariants),
        };
        let entry = InlineEnumEntry { ident: name, value };
        let ghost before = out@;
        out.push(entry);
        assert(tail.skip(3) == toks@.skip(i as int + 3));
        if i + 3 == n {
            assert(entries_spec(tail) == Some(seq![entry]));
            assert(before + seq![entry] == out@);
            assert(toks@.skip(n as int).len() == 0);
            i = n;
        } else {
            match &toks[i + 3] {
                AttrToken::Comma => {},
                _ => return Err(ConfigError::MalformedVariants),
            }
            assert(tail.skip(3).skip(1) == toks@.skip(i as int + 4));
            assert(before + (seq![entry] + entries_spec(toks@.skip(i as int + 4))->Some_0) == out@
                + entries_spec(toks@.skip(i as int + 4))->Some_0);
            i = i + 4;
        }
    }
    assert(toks@.skip(i as int).len() == 0);
    assert(out@ + Seq::<InlineEnumEntry>::empty() == out@);
    Ok(out)
}

impl ExtraEnumAccess {
    /// Parses a variants declaration. When its second token is `=>` it is an
    /// inline list of `Name => value` pairs; otherwise it must be a single
    /// type name.
    pub fn parse(toks: &Vec<AttrToken>) -> (r: Result<ExtraEnumAccess, ConfigError>)
        ensures
            is_inline_spec(toks@) ==> match entries_spec(toks@) {
                Some(es) => r matches Ok(ExtraEnumAccess::InlineEnum(a)) && a.items@ == es,
                None => r == Err::<ExtraEnumAccess, ConfigError>(ConfigError::MalformedVariants),
            },
            !is_inline_spec(toks@) ==> if toks@.len() == 1 && toks@[0] is Ident {
                r == Ok::<ExtraEnumAccess, ConfigError>(ExtraEnumAccess::ExternalEnum(toks@[0]->Ident_0))
            } else {
                r == Err::<ExtraEnumAccess, ConfigError>(ConfigError::MalformedVariants)
            },
    {
        if toks.len() >= 2 {
            if let AttrToken::FatArrow = &toks[1] {
                let items = parse_entries(toks)?;
                return Ok(ExtraEnumAccess::InlineEnum(InlineEnumAccess { items }));
            }
        }
        if toks.len() == 1 {
            if let AttrToken::Ident(name) = &toks[0] {
                return Ok(ExtraEnumAccess::ExternalEnum(name.clone()));
            }
        }
        Err(ConfigError::MalformedVariants)
    }
}

/// A field's value space once bound: the name of its value type and the
/// named values, in declaration order.
#[derive(Clone, Debug, PartialEq, Eq)]
pub struct VariantSet {
    pub value_type: String,
    pub entries: Vec<InlineEnumEntry>,
}

/// One variant of a value type declared apart from any register, with its
/// explicit value if it has one.
#[derive(Clone, Debug, PartialEq, Eq)]
pub struct VariantDeclaration {
    pub ident: String,
    pub discriminant: Option<u64>,
}

/// A value type declared apart from any register, over a base type, that
/// fields may name as their value space.
#[derive(Clone, Debug, PartialEq, Eq)]
pub struct ExternalVariants {
    pub name: String,
    pub base_type: BaseType,
    pub entries: Vec<InlineEnumEntry>,
}

/// No two entries share a name.
pub open spec fn names_distinct(es: Seq<InlineEnumEntry>) -> bool {
    forall|i: int, j: int| 0 <= i < j < es.len() ==> es[i].ident@ != es[j].ident@
}

/// No two entries share a value.
pub open spec fn values_distinct(es: Seq<InlineEnumEntry>) -> bool {
    forall|i: int, j: int| 0 <= i < j < es.len() ==> es[i].value != es[j].value
}

/// Every value fits a register of `bits` bits.
pub open spec fn values_fit(es: Seq<InlineEnumEntry>, bits: u64) -> bool {
    forall|i: int| 0 <= i < es.len() ==> es[i].value <= low_mask(bits)
}

/// A value space is well formed: distinct names, distinct values, each
/// value within the base type.
pub open spec fn entries_valid(es: Seq<InlineEnumEntry>, bits: u64) -> bool {
    names_distinct(es) && values_distinct(es) && values_fit(es, bits)
}

/// The error, if any, that a value space over `bits` bits is rejected with:
/// a repeated name first, then a repeated value, then a value too large.
pub open spec fn entries_check_spec(es: Seq<InlineEnumEntry>, bits: u64) -> Result<(), ConfigError> {
    if !names_distinct(es) {
        Err(ConfigError::DuplicateVariantName)
    } else if !values_distinct(es) {
        Err(ConfigError::DuplicateVariantValue)
    } else if !values_fit(es, bits) {
        Err(ConfigError::VariantOutOfRange)
    } else {
        Ok(())
    }
}

/// Checks that a value space has distinct names, distinct values, and
/// values that fit the base type.
pub fn check_entries(es: &Vec<InlineEnumEntry>, base_type: BaseType) -> (r: Result<(), ConfigError>)
    ensures
        r == entries_check_spec(es@, base_type.bits_spec()),
{
    let n = es.len();
    let mut i: usize = 0;
    while i < n
        invariant
            n == es.len(),
            i <= n,
            forall|a: int, b: int| 0 <= a < b < n && a < i ==> es@[a].ident@ != es@[b].ident@,
        decreases n - i,
    {
        let mut j: usize = i + 1;
        while j < n
            invariant
                n == es.len(),
                i < n,
                i < j <= n,
                forall|a: int, b: int| 0 <= a < b < n && a < i ==> es@[a].ident@ != es@[b].ident@,
                forall|b: int| i < b < j ==> es@[i as int].ident@ != es@[b].ident@,
            decreases n - j,
        {
            if es[i].ident == es[j].ident {
                return Err(ConfigError::DuplicateVariantName);
            }
            j = j + 1;
        }
        i = i + 1;
    }
    let mut i: usize = 0;
    while i < n
        invariant
            n == es.len(),
            i <= n,
            names_distinct(es@),
            forall|a: int, b: int| 0 <= a < b < n && a < i ==> es@[a].value != es@[b].value,
        decreases n - i,
    {
        let mut j: usize = i + 1;
        while j < n
            invariant
                n == es.len(),
                i < n,
                i < j <= n,
                names_distinct(es@),
                forall|a: int, b: int| 0 <= a < b < n && a < i ==> es@[a].value != es@[b].value,
                forall|b: int| i < b < j ==> es@[i as int].value != es@[b].value,
            decreases n - j,
        {
            if es[i].value == es[j].value {
                return Err(ConfigError::DuplicateVariantValue);
            }
            j = j + 1;
        }
        i = i + 1;
    }
    let max = base_type.max_value();
    let mut i: usize = 0;
    while i < n
        invariant
            n == es.len(),
            i <= n,
            names_distinct(es@),
            values_distinct(es@),
            max == low_mask(base_type.bits_spec()),
            forall|a: int| 0 <= a < i ==> es@[a].value <= max,
        decreases n - i,
    {
        if es[i].value > max {
            return Err(ConfigError::VariantOutOfRange);
        }
        i = i + 1;
    }
    Ok(())
}

/// Copies a list of entries.
pub fn copy_entries(es: &Vec<InlineEnumEntry>) -> (r: Vec<InlineEnumEntry>)
    ensures
        r@ == es@,
{
    let mut out: Vec<InlineEnumEntry> = Vec::new();
    let mut i: usize = 0;
    while i < es.len()
        invariant
            i <= es.len(),
            out@ == es@.subrange(0, i as int),
        decreases es.len() - i,
    {
        out.push(InlineEnumEntry { ident: es[i].ident.clone(), value: es[i].value });
        i = i + 1;
    }
    assert(es@.subrange(0, es.len() as int) == es@);
    out
}

/// The value of variant `i` of a value type: its explicit value, or one more
/// than the variant before it, or 0 for a first variant without one.
pub open spec fn discriminant_spec(decls: Seq<VariantDeclaration>, i: int) -> int
    decreases i,
{
    if i < 0 {
        0
    } else if decls[i].discriminant is Some {
        decls[i].discriminant->Some_0 as int
    } else if i == 0 {
        0
    } else {
        discriminant_spec(decls, i - 1) + 1
    }
}

/// The first entry, from `from` on, with value `raw`.
pub open spec fn value_index(es: Seq<InlineEnumEntry>, raw: u64, from: int) -> Option<int>
    decreases es.len() - from,
{
    if from < 0 || from >= es.len() {
        None
    } else if es[from].value == raw {
        Some(from)
    } else {
        value_index(es, raw, from + 1)
    }
}

/// The first entry, from `from` on, named `name`.
pub open spec fn name_index(es: Seq<InlineEnumEntry>, name: Seq<char>, from: int) -> Option<int>
    decreases es.len() - from,
{
    if from < 0 || from >= es.len() {
        None
    } else if es[from].ident@ == name {
        Some(from)
    } else {
        name_index(es, name, from + 1)
    }
}

/// The name of the variant with value `raw`.
pub open spec fn decode_spec(es: Seq<InlineEnumEntry>, raw: u64) -> Option<Seq<char>> {
    match value_index(es, raw, 0) {
        Some(i) => Some(es[i].ident@),
        None => None,
    }
}

/// The value of the variant named `name`.
pub open spec fn encode_spec(es: Seq<InlineEnumEntry>, name: Seq<char>) -> Option<u64> {
    match name_index(es, name, 0) {
        Some(i) => Some(es[i].value),
        None => None,
    }
}

impl VariantSet {
    /// The name of the first variant with value `raw`; `None` when no
    /// variant has that value.
    pub fn decode(&self, raw: u64) -> (r: Option<String>)
        ensures
            match decode_spec(self.entries@, raw) {
                Some(n) => r matches Some(s) && s@ == n,
                None => r is None,
            },
    {
        let mut i: usize = 0;
        while i < self.entries.len()
            invariant
                i <= self.entries.len(),
                value_index(self.entries@, raw, 0) == value_index(self.entries@, raw, i as int),
            decreases self.entries.len() - i,
        {
            if self.entries[i].value == raw {
                assert(value_index(self.entries@, raw, i as int) == Some(i as int));
                return Some(self.entries[i].ident.clone());
            }
            i = i + 1;
        }
        None
    }

    /// The value of the first variant named `name`; `None` when no variant
    /// has that name.
    pub fn encode(&self, name: &str) -> (r: Option<u64>)
        ensures
            r == encode_spec(self.entries@, name@),
    {
        let wanted = name.to_owned();
        let mut i: usize = 0;
        while i < self.entries.len()
            invariant
                i <= self.entries.len(),
                wanted@ == name@,
                name_index(self.entries@, name@, 0) == name_index(self.entries@, name@, i as int),
            decreases self.entries.len() - i,
        {
            if self.entries[i].ident == wanted {
                assert(name_index(self.entries@, name@, i as int) == Some(i as int));
                return Some(self.entries[i].value);
            }
            i = i + 1;
        }
        None
    }
}

/// In a value space with distinct values, the search for the value of entry
/// `i` from any earlier entry finds entry `i`.
proof fn lemma_value_index_finds(es: Seq<InlineEnumEntry>, i: int, from: int)
    requires
        values_distinct(es),
        0 <= from <= i < es.len(),
    ensures
        value_index(es, es[i].value, from) == Some(i),
    decreases i - from,
{
    if from < i {
        assert(es[from].value != es[i].value);
        lemma_value_index_finds(es, i, from + 1);
    }
}

/// In a value space with distinct names, the search for the name of entry
/// `i` from any earlier entry finds entry `i`.
proof fn lemma_name_index_finds(es: Seq<InlineEnumEntry>, i: int, from: int)
    requires
        names_distinct(es),
        0 <= from <= i < es.len(),
    ensures
        name_index(es, es[i].ident@, from) == Some(i),
    decreases i - from,
{
    if from < i {
        assert(es[from].ident@ != es[i].ident@);
        lemma_name_index_finds(es, i, from + 1);
    }
}

/// A value that no entry has is not found.
proof fn lemma_value_index_misses(es: Seq<InlineEnumEntry>, raw: u64, from: int)
    requires
        0 <= from,
        forall|j: int| 0 <= j < es.len() ==> es[j].value != raw,
    ensures
        value_index(es, raw, from) is None,
    decreases es.len() - from,
{
    if from < es.len() {
        lemma_value_index_misses(es, raw, from + 1);
    }
}

/// In a value space with distinct names and values, decoding the value of
/// each variant gives its name and encoding its name gives its value;
/// decoding a value that no variant has fails.
pub proof fn lemma_variant_round_trip(es: Seq<InlineEnumEntry>, i: int, raw: u64)
    requires
        names_distinct(es),
        values_distinct(es),
        0 <= i < es.len(),
    ensures
        decode_spec(es, es[i].value) == Some(es[i].ident@),
        encode_spec(es, es[i].ident@) == Some(es[i].value),
        (forall|j: int| 0 <= j < es.len() ==> es[j].value != raw) ==> decode_spec(es, raw) is None,
{
    lemma_value_index_finds(es, i, 0);
    lemma_name_index_finds(es, i, 0);
    if forall|j: int| 0 <= j < es.len() ==> es[j].value != raw {
        lemma_value_index_misses(es, raw, 0);
    }
}

impl ExternalVariants {
    /// Declares a value type over `base_type`: each variant takes its
    /// explicit value, or one more than the variant before it (0 for the
    /// first). Fails when a value does not fit the base type, or when names
    /// or values repeat.
    pub fn derive(name: String, base_type: BaseType, decls: &Vec<VariantDeclaration>) -> (r: Result<
        ExternalVariants,
        ConfigError,
    >)
        ensures
            (exists|i: int| 0 <= i < decls@.len() && discriminant_spec(decls@, i) > low_mask(base_type.bits_spec()))
                ==> r == Err::<ExternalVariants, ConfigError>(ConfigError::VariantOutOfRange),
            (forall|i: int| 0 <= i < decls@.len() ==> discriminant_spec(decls@, i) <= low_mask(base_type.bits_spec()))
                ==> derived_entries(r, decls@, base_type, name@),
    {
        let max = base_type.max_value();
        let mut entries: Vec<InlineEnumEntry> = Vec::new();
        let mut i: usize = 0;
        while i < decls.len()
            invariant
                i <= decls.len(),
                max == low_mask(base_type.bits_spec()),
                entries@.len() == i,
                forall|k: int| 0 <= k < i ==> 0 <= #[trigger] discriminant_spec(decls@, k) <= max,
                forall|k: int| 0 <= k < i ==> #[trigger] entries@[k] == (InlineEnumEntry {
                    ident: decls@[k].ident,
                    value: discriminant_spec(decls@, k) as u64,
                }),
            decreases decls.len() - i,
        {
            let value: u64 = match decls[i].discriminant {
                Some(v) => v,
                None => if i == 0 {
                    0
                } else {
                    let prev = entries[i - 1].value;
                    assert(entries@[i - 1] == InlineEnumEntry {
                        ident: decls@[i - 1].ident,
                        value: discriminant_spec(decls@, i - 1) as u64,
                    });
                    assert(discriminant_spec(decls@, i as int) == discriminant_spec(decls@, i - 1) + 1);
                    if prev >= max {
                        return Err(ConfigError::VariantOutOfRange);
                    }
                    prev + 1
                },
            };
            assert(value == discriminant_spec(decls@, i as int));
            if value > max {
                return Err(ConfigError::VariantOutOfRange);
            }
            entries.push(InlineEnumEntry { ident: decls[i].ident.clone(), value });
            i = i + 1;
        }
        let ghost es = Seq::new(decls@.len(), |k: int| InlineEnumEntry {
            ident: decls@[k].ident,
            value: discriminant_spec(decls@, k) as u64,
        });
        assert(entries@ == es);
        check_entries(&entries, base_type)?;
        Ok(ExternalVariants { name, base_type, entries })
    }
}

/// The result of declaring a value type when every value fits: the entries
/// follow the declarations, and the type is rejected exactly as
/// `check_entries` rejects them.
pub open spec fn derived_entries(
    r: Result<ExternalVariants, ConfigError>,
    decls: Seq<VariantDeclaration>,
    base_type: BaseType,
    name: Seq<char>,
) -> bool {
    let es = Seq::new(decls.len(), |k: int| InlineEnumEntry {
        ident: decls[k].ident,
        value: discriminant_spec(decls, k) as u64,
    });
    match entries_check_spec(es, base_type.bits_spec()) {
        Ok(_) => r matches Ok(t) && t.name@ == name && t.base_type == base_type && t.entries@ == es,
        Err(e) => r == Err::<ExternalVariants, ConfigError>(e),
    }
}

} // verus!
