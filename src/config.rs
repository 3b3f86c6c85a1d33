//! Register-level configuration and the capability classifier.

use vstd::prelude::*;

use crate::bits::low_mask;
use crate::error::ConfigError;
use crate::token::AttrToken;

verus! {

/// The unsigned integer type a register is made of.
#[derive(Clone, Copy, Debug, PartialEq, Eq, Structural)]
pub enum BaseType {
    U8,
    U16,
    U32,
    U64,
}

/// What a register may be used for.
#[derive(Clone, Copy, Debug, PartialEq, Eq, Structural)]
pub struct KindArg {
    pub read: bool,
    pub write: bool,
}

/// One register-level argument of a declaration.
#[derive(Clone, Debug, PartialEq, Eq)]
pub enum TopLevelArgument {
    /// `base_type = u8 | u16 | u32 | u64`
    BaseType(BaseType),
    /// `kind = read_only | write_only | read_write`
    Kind(KindArg),
    /// `write_via = "..."`: the code that stores a raw value.
    WriteVia(String),
    /// `read_via = "..."`: the code that loads a raw value.
    ReadVia(String),
}

/// A register read through external code only.
#[derive(Clone, Debug, PartialEq, Eq)]
pub struct GlobalReadOnly {
    pub read_via: String,
}

/// A register read and written through external code.
#[derive(Clone, Debug, PartialEq, Eq)]
pub struct GlobalReadWrite {
    pub read_via: String,
    pub write_via: String,
}

/// A register written through external code only.
#[derive(Clone, Debug, PartialEq, Eq)]
pub struct GlobalWriteOnly {
    pub write_via: String,
}

/// The access strategy of a register.
#[derive(Clone, Debug, PartialEq, Eq)]
pub enum Implementation {
    /// The raw value is held by the register itself.
    Inline(KindArg),
    GlobalReadOnly(GlobalReadOnly),
    GlobalReadWrite(GlobalReadWrite),
    GlobalWriteOnly(GlobalWriteOnly),
}

/// The normalized register-level configuration.
#[derive(Clone, Debug, PartialEq, Eq)]
pub struct TopLevelMacroArguments {
    pub base_type: BaseType,
    pub implementation: Implementation,
}

/// The register-level arguments gathered so far.
#[derive(Clone, Debug, PartialEq, Eq)]
pub struct TopLevelMacroArgumentsBuilder {
    pub base_type: Option<BaseType>,
    pub kind: Option<KindArg>,
    pub write_via: Option<String>,
    pub read_via: Option<String>,
}

impl BaseType {
    /// The width of the type in bits.
    pub open spec fn bits_spec(self) -> u64 {
        match self {
            BaseType::U8 => 8,
            BaseType::U16 => 16,
            BaseType::U32 => 32,
            BaseType::U64 => 64,
        }
    }

    /// The width of the type in bits.
    pub fn bits(&self) -> (r: u64)
        ensures
            r == self.bits_spec(),
    {
        match self {
            BaseType::U8 => 8,
            BaseType::U16 => 16,
            BaseType::U32 => 32,
            BaseType::U64 => 64,
        }
    }

    /// The largest value of the type.
    pub fn max_value(&self) -> (r: u64)
        ensures
            r == low_mask(self.bits_spec()),
    {
        match self {
            BaseType::U8 => {
                assert(low_mask(8) == 0xffu64) by (bit_vector);
                0xff
            },
            BaseType::U16 => {
                assert(low_mask(16) == 0xffffu64) by (bit_vector);
                0xffff
            },
            BaseType::U32 => {
                assert(low_mask(32) == 0xffff_ffffu64) by (bit_vector);
                0xffff_ffff
            },
            BaseType::U64 => 0xffff_ffff_ffff_ffff,
        }
    }
}

/// The access kind that a `kind` name stands for.
pub open spec fn kind_spec(name: Seq<char>) -> Option<KindArg> {
    if name == "read_only"@ {
        Some(KindArg { read: true, write: false })
    } else if name == "write_only"@ {
        Some(KindArg { read: false, write: true })
    } else if name == "read_write"@ || name == "write_read"@ || name == "default"@ {
        Some(KindArg { read: true, write: true })
    } else {
        None
    }
}

/// The base type that a type name stands for.
pub open spec fn base_type_spec(name: Seq<char>) -> Option<BaseType> {
    if name == "u8"@ {
        Some(BaseType::U8)
    } else if name == "u16"@ {
        Some(BaseType::U16)
    } else if name == "u32"@ {
        Some(BaseType::U32)
    } else if name == "u64"@ {
        Some(BaseType::U64)
    } else {
        None
    }
}

impl KindArg {
    /// The access kind named `read_only`, `write_only`, or one of
    /// `read_write`, `write_read` and `default`; `None` for any other name.
    pub fn from_name(name: &str) -> (r: Option<KindArg>)
        ensures
            r == kind_spec(name@),
    {
        let n = name.to_owned();
        if n == "read_only".to_owned() {
            Some(KindArg { read: true, write: false })
        } else if n == "write_only".to_owned() {
            Some(KindArg { read: false, write: true })
        } else if n == "read_write".to_owned() || n == "write_read".to_owned() || n
            == "default".to_owned() {
            Some(KindArg { read: true, write: true })
        } else {
            None
        }
    }
}

impl BaseType {
    /// The base type named `u8`, `u16`, `u32` or `u64`; `None` for any other
    /// name.
    pub fn from_name(name: &str) -> (r: Option<BaseType>)
        ensures
            r == base_type_spec(name@),
    {
        let n = name.to_owned();
        if n == "u8".to_owned() {
            Some(BaseType::U8)
        } else if n == "u16".to_owned() {
            Some(BaseType::U16)
        } else if n == "u32".to_owned() {
            Some(BaseType::U32)
        } else if n == "u64".to_owned() {
            Some(BaseType::U64)
        } else {
            None
        }
    }
}

/// The builder after taking in one more argument.
pub open spec fn top_apply_spec(
    b: TopLevelMacroArgumentsBuilder,
    arg: TopLevelArgument,
) -> Result<TopLevelMacroArgumentsBuilder, ConfigError> {
    match arg {
        TopLevelArgument::BaseType(t) => if b.base_type is Some {
            Err(ConfigError::DuplicateBaseType)
        } else {
            Ok(TopLevelMacroArgumentsBuilder { base_type: Some(t), ..b })
        },
        TopLevelArgument::Kind(k) => if b.kind is Some {
            Err(ConfigError::DuplicateKind)
        } else {
            Ok(TopLevelMacroArgumentsBuilder { kind: Some(k), ..b })
        },
        TopLevelArgument::WriteVia(w) => if b.write_via is Some {
            Err(ConfigError::DuplicateWriteVia)
        } else {
            Ok(TopLevelMacroArgumentsBuilder { write_via: Some(w), ..b })
        },
        TopLevelArgument::ReadVia(r) => if b.read_via is Some {
            Err(ConfigError::DuplicateReadVia)
        } else {
            Ok(TopLevelMacroArgumentsBuilder { read_via: Some(r), ..b })
        },
    }
}

/// A builder that has seen nothing.
pub open spec fn empty_top_builder() -> TopLevelMacroArgumentsBuilder {
    TopLevelMacroArgumentsBuilder { base_type: None, kind: None, write_via: None, read_via: None }
}

/// The builder after taking in `args` in order, or the first error.
pub open spec fn top_gather_spec(args: Seq<TopLevelArgument>) -> Result<TopLevelMacroArgumentsBuilder, ConfigError>
    decreases args.len(),
{
    if args.len() == 0 {
        Ok(empty_top_builder())
    } else {
        match top_gather_spec(args.drop_last()) {
            Ok(b) => top_apply_spec(b, args.last()),
            Err(e) => Err(e),
        }
    }
}

/// The access kind of a register without a `kind` argument.
pub open spec fn default_kind() -> KindArg {
    KindArg { read: true, write: true }
}

/// The strategy selected by the transfer code given and the access kind:
/// none for an inline register, `read_via` alone for a read-only one, both
/// for a read-write one, `write_via` alone for a write-only one.
pub open spec fn classify_spec(
    read_via: Option<String>,
    write_via: Option<String>,
    kind: KindArg,
) -> Result<Implementation, ConfigError> {
    match (read_via, write_via) {
        (None, None) => Ok(Implementation::Inline(kind)),
        (Some(r), Some(w)) => if kind.read && kind.write {
            Ok(Implementation::GlobalReadWrite(GlobalReadWrite { read_via: r, write_via: w }))
        } else {
            Err(ConfigError::InvalidCombination)
        },
        (Some(r), None) => if kind.read && !kind.write {
            Ok(Implementation::GlobalReadOnly(GlobalReadOnly { read_via: r }))
        } else {
            Err(ConfigError::InvalidCombination)
        },
        (None, Some(w)) => if !kind.read && kind.write {
            Ok(Implementation::GlobalWriteOnly(GlobalWriteOnly { write_via: w }))
        } else {
            Err(ConfigError::InvalidCombination)
        },
    }
}

/// The configuration that a complete builder stands for.
pub open spec fn top_build_spec(b: TopLevelMacroArgumentsBuilder) -> Result<TopLevelMacroArguments, ConfigError> {
    match b.base_type {
        None => Err(ConfigError::MissingBaseType),
        Some(base_type) => {
            let kind = match b.kind {
                Some(k) => k,
                None => default_kind(),
            };
            if !kind.read && !kind.write {
                Err(ConfigError::UnsupportedKind)
            } else {
                match classify_spec(b.read_via, b.write_via, kind) {
                    Ok(implementation) => Ok(TopLevelMacroArguments { base_type, implementation }),
                    Err(e) => Err(e),
                }
            }
        },
    }
}

/// The configuration that a whole list of register-level arguments stands for.
pub open spec fn top_resolve_spec(args: Seq<TopLevelArgument>) -> Result<TopLevelMacroArguments, ConfigError> {
    match top_gather_spec(args) {
        Ok(b) => top_build_spec(b),
        Err(e) => Err(e),
    }
}

impl Implementation {
    /// The strategy reads the raw value.
    pub open spec fn is_read_spec(&self) -> bool {
        match self {
            Implementation::Inline(k) => k.read,
            Implementation::GlobalReadOnly(_) => true,
            Implementation::GlobalReadWrite(_) => true,
            Implementation::GlobalWriteOnly(_) => false,
        }
    }

    /// The strategy writes the raw value.
    pub open spec fn is_write_spec(&self) -> bool {
        match self {
            Implementation::Inline(k) => k.write,
            Implementation::GlobalReadOnly(_) => false,
            Implementation::GlobalReadWrite(_) => true,
            Implementation::GlobalWriteOnly(_) => true,
        }
    }
}

impl TopLevelMacroArgumentsBuilder {
    /// A builder that has seen nothing yet.
    pub fn new() -> (r: Self)
        ensures
            r == empty_top_builder(),
    {
        TopLevelMacroArgumentsBuilder { base_type: None, kind: None, write_via: None, read_via: None }
    }

    /// Takes in one argument; fails on an argument given twice.
    pub fn apply(&mut self, arg: &TopLevelArgument) -> (r: Result<(), ConfigError>)
        ensures
            match top_apply_spec(*old(self), *arg) {
                Ok(b) => r is Ok && *final(self) == b,
                Err(e) => r == Err::<(), ConfigError>(e),
            },
    {
        match arg {
            TopLevelArgument::BaseType(t) => {
                if self.base_type.is_some() {
                    return Err(ConfigError::DuplicateBaseType);
                }
                self.base_type = Some(*t);
            },
            TopLevelArgument::Kind(k) => {
                if self.kind.is_some() {
                    return Err(ConfigError::DuplicateKind);
                }
                self.kind = Some(*k);
            },
            TopLevelArgument::WriteVia(w) => {
                if self.write_via.is_some() {
                    return Err(ConfigError::DuplicateWriteVia);
                }
                self.write_via = Some(w.clone());
            },
            TopLevelArgument::ReadVia(rv) => {
                if self.read_via.is_some() {
                    return Err(ConfigError::DuplicateReadVia);
                }
                self.read_via = Some(rv.clone());
            },
        }
        Ok(())
    }

    /// The configuration gathered: a base type is required, the kind
    /// defaults to read-write and must allow reading or writing, and the
    /// strategy is classified.
    pub fn build(self) -> (r: Result<TopLevelMacroArguments, ConfigError>)
        ensures
            r == top_build_spec(self),
    {
        let base_type = match self.base_type {
            Some(t) => t,
            None => return Err(ConfigError::MissingBaseType),
        };
        let kind = match self.kind {
            Some(k) => k,
            None => KindArg { read: true, write: true },
        };
        if !kind.read && !kind.write {
            return Err(ConfigError::UnsupportedKind);
        }
        let implementation = match (self.read_via, self.write_via) {
            (None, None) => Implementation::Inline(kind),
            (Some(r), Some(w)) => {
                if kind.read && kind.write {
                    Implementation::GlobalReadWrite(GlobalReadWrite { read_via: r, write_via: w })
                } else {
                    return Err(ConfigError::InvalidCombination);
                }
            },
            (Some(r), None) => {
                if kind.read && !kind.write {
                    Implementation::GlobalReadOnly(GlobalReadOnly { read_via: r })
                } else {
                    return Err(ConfigError::InvalidCombination);
                }
            },
            (None, Some(w)) => {
                if !kind.read && kind.write {
                    Implementation::GlobalWriteOnly(GlobalWriteOnly { write_via: w })
                } else {
                    return Err(ConfigError::InvalidCombination);
                }
            },
        };
        Ok(TopLevelMacroArguments { base_type, implementation })
    }
}

impl TopLevelMacroArguments {
    /// Resolves the register-level arguments: each key at most once,
    /// `base_type` required, and a combination of `kind`, `read_via` and
    /// `write_via` that selects a strategy.
    pub fn from_arguments(args: &Vec<TopLevelArgument>) -> (r: Result<Self, ConfigError>)
        ensures
            r == top_resolve_spec(args@),
    {
        let mut builder = TopLevelMacroArgumentsBuilder::new();
        let mut i: usize = 0;
        while i < args.len()
            invariant
                i <= args.len(),
                top_gather_spec(args@.subrange(0, i as int)) == Ok::<TopLevelMacroArgumentsBuilder, ConfigError>(builder),
            decreases args.len() - i,
        {
            assert(args@.subrange(0, i as int + 1).drop_last() == args@.subrange(0, i as int));
            let step = builder.apply(&args[i]);
            if let Err(e) = step {
                assert(args@.subrange(0, i as int + 1).last() == args@[i as int]);
                proof { lemma_top_gather_error_sticks(args@, i as int + 1); }
                return Err(e);
            }
            i = i + 1;
        }
        assert(args@.subrange(0, args.len() as int) == args@);
        builder.build()
    }

    /// The register's raw value can be read.
    pub fn is_read(&self) -> (r: bool)
        ensures
            r == self.implementation.is_read_spec(),
    {
        match &self.implementation {
            Implementation::Inline(k) => k.read,
            Implementation::GlobalReadOnly(_) => true,
            Implementation::GlobalReadWrite(_) => true,
            Implementation::GlobalWriteOnly(_) => false,
        }
    }

    /// The register's raw value can be written.
    pub fn is_write(&self) -> (r: bool)
        ensures
            r == self.implementation.is_write_spec(),
    {
        match &self.implementation {
            Implementation::Inline(k) => k.write,
            Implementation::GlobalReadOnly(_) => false,
            Implementation::GlobalReadWrite(_) => true,
            Implementation::GlobalWriteOnly(_) => true,
        }
    }
}

/// The first register-level argument: `base_type = T`, `kind = K`,
/// `read_via = "..."` or `write_via = "..."`. Each takes three tokens.
pub open spec fn top_item_spec(toks: Seq<AttrToken>) -> Result<TopLevelArgument, ConfigError> {
    if toks.len() >= 3 && toks[0] is Ident && toks[1] is Eq {
        let key = toks[0]->Ident_0@;
        let v = toks[2];
        if key == "base_type"@ && v is Ident {
            match base_type_spec(v->Ident_0@) {
                Some(b) => Ok(TopLevelArgument::BaseType(b)),
                None => Err(ConfigError::UnsupportedBaseType),
            }
        } else if key == "kind"@ && v is Ident {
            match kind_spec(v->Ident_0@) {
                Some(k) => Ok(TopLevelArgument::Kind(k)),
                None => Err(ConfigError::UnsupportedKind),
            }
        } else if key == "read_via"@ && v is Str {
            Ok(TopLevelArgument::ReadVia(v->Str_0))
        } else if key == "write_via"@ && v is Str {
            Ok(TopLevelArgument::WriteVia(v->Str_0))
        } else {
            Err(ConfigError::MalformedArgument)
        }
    } else {
        Err(ConfigError::MalformedArgument)
    }
}

/// The register-level arguments: items separated by commas, with an
/// optional trailing comma.
pub open spec fn top_args_spec(toks: Seq<AttrToken>) -> Result<Seq<TopLevelArgument>, ConfigError>
    decreases toks.len(),
{
    if toks.len() == 0 {
        Ok(Seq::empty())
    } else {
        match top_item_spec(toks) {
            Err(e) => Err(e),
            Ok(arg) => {
                let rest = toks.skip(3);
                if rest.len() == 0 {
                    Ok(seq![arg])
                } else if rest[0] is Comma {
                    match top_args_spec(rest.skip(1)) {
                        Ok(args) => Ok(seq![arg] + args),
                        Err(e) => Err(e),
                    }
                } else {
                    Err(ConfigError::MalformedArgument)
                }
            },
        }
    }
}

/// `prefix` followed by what `rest` holds, or the error of `rest`.
pub open spec fn prepend_top(
    prefix: Seq<TopLevelArgument>,
    rest: Result<Seq<TopLevelArgument>, ConfigError>,
) -> Result<Seq<TopLevelArgument>, ConfigError> {
    match rest {
        Ok(args) => Ok(prefix + args),
        Err(e) => Err(e),
    }
}

/// Reads the register-level argument at `i`.
fn parse_top_item(toks: &Vec<AttrToken>, i: usize) -> (r: Result<TopLevelArgument, ConfigError>)
    requires
        i < toks.len(),
    ensures
        r == top_item_spec(toks@.skip(i as int)),
        r is Ok ==> toks.len() - i >= 3,
{
    let ghost t = toks@.skip(i as int);
    if toks.len() - i < 3 {
        return Err(ConfigError::MalformedArgument);
    }
    assert(t[0] == toks@[i as int] && t[1] == toks@[i + 1] && t[2] == toks@[i + 2]);
    let key = match (&toks[i], &toks[i + 1]) {
        (AttrToken::Ident(key), AttrToken::Eq) => key,
        _ => return Err(ConfigError::MalformedArgument),
    };
    match &toks[i + 2] {
        AttrToken::Ident(v) => {
            if *key == "base_type".to_owned() {
                match BaseType::from_name(v.as_str()) {
                    Some(b) => Ok(TopLevelArgument::BaseType(b)),
                    None => Err(ConfigError::UnsupportedBaseType),
                }
            } else if *key == "kind".to_owned() {
                match KindArg::from_name(v.as_str()) {
                    Some(k) => Ok(TopLevelArgument::Kind(k)),
                    None => Err(ConfigError::UnsupportedKind),
                }
            } else {
                Err(ConfigError::MalformedArgument)
            }
        },
        AttrToken::Str(v) => {
            if *key == "read_via".to_owned() {
                Ok(TopLevelArgument::ReadVia(v.clone()))
            } else if *key == "write_via".to_owned() {
                Ok(TopLevelArgument::WriteVia(v.clone()))
            } else {
                Err(ConfigError::MalformedArgument)
            }
        },
        _ => Err(ConfigError::MalformedArgument),
    }
}

impl TopLevelArgument {
    /// Reads the register-level arguments: a comma-separated list, with an
    /// optional trailing comma, of `base_type = T`, `kind = K`,
    /// `read_via = "..."` and `write_via = "..."`.
    pub fn parse_list(toks: &Vec<AttrToken>) -> (r: Result<Vec<TopLevelArgument>, ConfigError>)
        ensures
            match top_args_spec(toks@) {
                Ok(args) => r is Ok && r->Ok_0@ == args,
                Err(e) => r == Err::<Vec<TopLevelArgument>, ConfigError>(e),
            },
    {
        let mut out: Vec<TopLevelArgument> = Vec::new();
        let mut i: usize = 0;
        let n = toks.len();
        assert(toks@.skip(0) == toks@);
        proof {
            if let Ok(args) = top_args_spec(toks@) {
                assert(Seq::<TopLevelArgument>::empty() + args == args);
            }
        }
        while i < n
            invariant
                n == toks.len(),
                i <= n,
                top_args_spec(toks@) == prepend_top(out@, top_args_spec(toks@.skip(i as int))),
            decreases n - i,
        {
            let ghost tail = toks@.skip(i as int);
            let arg = match parse_top_item(toks, i) {
                Ok(x) => x,
                Err(e) => return Err(e),
            };
            let ghost before = out@;
            out.push(arg);
            assert(tail.skip(3) == toks@.skip(i + 3));
            if i + 3 == n {
                assert(toks@.skip(n as int).len() == 0);
                assert(before + seq![arg] == out@);
                i = n;
            } else {
                assert(tail.skip(3)[0] == toks@[i + 3]);
                match &toks[i + 3] {
                    AttrToken::Comma => {},
                    _ => return Err(ConfigError::MalformedArgument),
                }
                assert(tail.skip(3).skip(1) == toks@.skip(i + 4));
                proof {
                    if let Ok(rest) = top_args_spec(toks@.skip(i + 4)) {
                        assert(before + (seq![arg] + rest) == out@ + rest);
                    }
                }
                i = i + 4;
            }
        }
        assert(toks@.skip(i as int).len() == 0);
        assert(out@ + Seq::<TopLevelArgument>::empty() == out@);
        Ok(out)
    }
}

/// Once the gathering fails, taking in further arguments keeps the error.
proof fn lemma_top_gather_error_sticks(args: Seq<TopLevelArgument>, i: int)
    requires
        0 <= i <= args.len(),
        top_gather_spec(args.subrange(0, i)) is Err,
    ensures
        top_gather_spec(args) == top_gather_spec(args.subrange(0, i)),
    decreases args.len() - i,
{
    if i < args.len() {
        assert(args.subrange(0, i + 1).drop_last() == args.subrange(0, i));
        lemma_top_gather_error_sticks(args, i + 1);
    } else {
        assert(args.subrange(0, i) == args);
    }
}

} // verus!
