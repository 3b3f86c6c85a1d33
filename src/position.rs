//! The bit-position resolver: one field's position declaration to an
//! `(offset, size)` pair.

use vstd::prelude::*;

use crate::error::ConfigError;
use crate::token::AttrToken;

verus! {

/// A contiguous run of bits: its lowest bit and its length.
#[derive(Clone, Copy, Debug, PartialEq, Eq, Structural)]
pub struct Position {
    pub lo: u64,
    pub len: u64,
}

/// One item of a field's position declaration.
#[derive(Clone, Copy, Debug, PartialEq, Eq, Structural)]
pub enum FieldArgument {
    /// `offset = n`
    Offset(u64),
    /// `size = n`
    Size(u64),
    /// `lo..hi` or `lo..=hi`
    Range(Position),
    /// `n`: the single bit `n`
    Single(u64),
}

/// The resolved position of a field.
#[derive(Clone, Copy, Debug, PartialEq, Eq, Structural)]
pub struct FieldLevelMacroArguments {
    pub offset: u64,
    pub size: u64,
}

/// The position gathered so far from a field's position declaration.
#[derive(Clone, Copy, Debug)]
pub struct FieldLevelMacroArgumentsBuilder {
    pub offset: Option<u64>,
    pub size: Option<u64>,
}

/// The position that the range `lo..hi` (or `lo..=hi` when `inclusive`)
/// stands for, if it is well formed.
pub open spec fn range_spec(lo: u64, hi: u64, inclusive: bool) -> Result<Position, ConfigError> {
    if hi < lo || (inclusive && hi - lo + 1 > u64::MAX) {
        Err(ConfigError::InvalidRange)
    } else if inclusive {
        Ok(Position { lo, len: (hi - lo + 1) as u64 })
    } else {
        Ok(Position { lo, len: (hi - lo) as u64 })
    }
}

/// The builder after taking in one more argument.
pub open spec fn apply_spec(
    b: FieldLevelMacroArgumentsBuilder,
    arg: FieldArgument,
) -> Result<FieldLevelMacroArgumentsBuilder, ConfigError> {
    match arg {
        FieldArgument::Offset(o) => if b.offset is Some {
            Err(ConfigError::DuplicateOffset)
        } else {
            Ok(FieldLevelMacroArgumentsBuilder { offset: Some(o), ..b })
        },
        FieldArgument::Size(s) => if b.size is Some {
            Err(ConfigError::DuplicateSize)
        } else {
            Ok(FieldLevelMacroArgumentsBuilder { size: Some(s), ..b })
        },
        FieldArgument::Range(p) => if b.offset is Some || b.size is Some {
            Err(ConfigError::RangeWithOther)
        } else {
            Ok(FieldLevelMacroArgumentsBuilder { offset: Some(p.lo), size: Some(p.len) })
        },
        FieldArgument::Single(n) => if b.offset is Some || b.size is Some {
            Err(ConfigError::SingleWithOther)
        } else {
            Ok(FieldLevelMacroArgumentsBuilder { offset: Some(n), size: Some(1) })
        },
    }
}

/// The builder after taking in `args` in order, or the first error.
pub open spec fn gather_spec(args: Seq<FieldArgument>) -> Result<FieldLevelMacroArgumentsBuilder, ConfigError>
    decreases args.len(),
{
    if args.len() == 0 {
        Ok(FieldLevelMacroArgumentsBuilder { offset: None, size: None })
    } else {
        match gather_spec(args.drop_last()) {
            Ok(b) => apply_spec(b, args.last()),
            Err(e) => Err(e),
        }
    }
}

/// The position that a complete builder stands for.
pub open spec fn build_spec(b: FieldLevelMacroArgumentsBuilder) -> Result<FieldLevelMacroArguments, ConfigError> {
    match (b.offset, b.size) {
        (Some(offset), Some(size)) => Ok(FieldLevelMacroArguments { offset, size }),
        (None, _) => Err(ConfigError::MissingOffset),
        (Some(_), None) => Err(ConfigError::MissingSize),
    }
}

/// The position that a whole declaration stands for.
pub open spec fn resolve_spec(args: Seq<FieldArgument>) -> Result<FieldLevelMacroArguments, ConfigError> {
    match gather_spec(args) {
        Ok(b) => build_spec(b),
        Err(e) => Err(e),
    }
}

/// The first argument of a position declaration and the number of tokens
/// it takes: `offset = n`, `size = n`, `lo..hi`, `lo..=hi`, or `n` alone.
pub open spec fn field_item_spec(toks: Seq<AttrToken>) -> Result<(FieldArgument, int), ConfigError> {
    if toks.len() >= 3 && toks[0] is Ident && toks[1] is Eq && toks[2] is Literal {
        let key = toks[0]->Ident_0@;
        let v = toks[2]->Literal_0;
        if key == "offset"@ {
            Ok((FieldArgument::Offset(v), 3))
        } else if key == "size"@ {
            Ok((FieldArgument::Size(v), 3))
        } else {
            Err(ConfigError::MalformedPosition)
        }
    } else if toks.len() >= 3 && toks[0] is Literal && (toks[1] is DotDot || toks[1] is DotDotEq)
        && toks[2] is Literal {
        match range_spec(toks[0]->Literal_0, toks[2]->Literal_0, toks[1] is DotDotEq) {
            Ok(p) => Ok((FieldArgument::Range(p), 3)),
            Err(e) => Err(e),
        }
    } else if toks.len() >= 1 && toks[0] is Literal {
        Ok((FieldArgument::Single(toks[0]->Literal_0), 1))
    } else {
        Err(ConfigError::MalformedPosition)
    }
}

/// The arguments of a position declaration: items separated by commas, with
/// an optional trailing comma.
pub open spec fn field_args_spec(toks: Seq<AttrToken>) -> Result<Seq<FieldArgument>, ConfigError>
    decreases toks.len(),
{
    if toks.len() == 0 {
        Ok(Seq::empty())
    } else {
        match field_item_spec(toks) {
            Err(e) => Err(e),
            Ok((arg, n)) => {
                let rest = toks.skip(n);
                if rest.len() == 0 {
                    Ok(seq![arg])
                } else if rest[0] is Comma {
                    match field_args_spec(rest.skip(1)) {
                        Ok(args) => Ok(seq![arg] + args),
                        Err(e) => Err(e),
                    }
                } else {
                    Err(ConfigError::MalformedPosition)
                }
            },
        }
    }
}

/// `prefix` followed by what `rest` holds, or the error of `rest`.
pub open spec fn prepend_args(
    prefix: Seq<FieldArgument>,
    rest: Result<Seq<FieldArgument>, ConfigError>,
) -> Result<Seq<FieldArgument>, ConfigError> {
    match rest {
        Ok(args) => Ok(prefix + args),
        Err(e) => Err(e),
    }
}

/// Reads the argument at `i` of a position declaration.
fn parse_field_item(toks: &Vec<AttrToken>, i: usize) -> (r: Result<(FieldArgument, usize), ConfigError>)
    requires
        i < toks.len(),
    ensures
        match field_item_spec(toks@.skip(i as int)) {
            Ok((arg, n)) => r == Ok::<(FieldArgument, usize), ConfigError>((arg, n as usize)) && n <= toks.len() - i
                && (n == 1 || n == 3),
            Err(e) => r == Err::<(FieldArgument, usize), ConfigError>(e),
        },
{
    let ghost t = toks@.skip(i as int);
    assert(t[0] == toks@[i as int]);
    if toks.len() - i >= 3 {
        assert(t[1] == toks@[i + 1] && t[2] == toks@[i + 2]);
        if let (AttrToken::Ident(key), AttrToken::Eq, AttrToken::Literal(v)) = (&toks[i], &toks[i + 1], &toks[i + 2]) {
            if *key == "offset".to_owned() {
                return Ok((FieldArgument::Offset(*v), 3));
            } else if *key == "size".to_owned() {
                return Ok((FieldArgument::Size(*v), 3));
            } else {
                return Err(ConfigError::MalformedPosition);
            }
        }
        if let (AttrToken::Literal(lo), AttrToken::Literal(hi)) = (&toks[i], &toks[i + 2]) {
            let inclusive = match &toks[i + 1] {
                AttrToken::DotDot => Some(false),
                AttrToken::DotDotEq => Some(true),
                _ => None,
            };
            if let Some(inc) = inclusive {
                let p = Position::from_range(*lo, *hi, inc)?;
                return Ok((FieldArgument::Range(p), 3));
            }
        }
    }
    match &toks[i] {
        AttrToken::Literal(v) => Ok((FieldArgument::Single(*v), 1)),
        _ => Err(ConfigError::MalformedPosition),
    }
}

impl FieldArgument {
    /// Reads a position declaration: a comma-separated list, with an
    /// optional trailing comma, of `offset = n`, `size = n`, `lo..hi`,
    /// `lo..=hi` and `n`.
    pub fn parse_list(toks: &Vec<AttrToken>) -> (r: Result<Vec<FieldArgument>, ConfigError>)
        ensures
            match field_args_spec(toks@) {
                Ok(args) => r is Ok && r->Ok_0@ == args,
                Err(e) => r == Err::<Vec<FieldArgument>, ConfigError>(e),
            },
    {
        let mut out: Vec<FieldArgument> = Vec::new();
        let mut i: usize = 0;
        let n = toks.len();
        assert(toks@.skip(0) == toks@);
        proof {
            if let Ok(args) = field_args_spec(toks@) {
                assert(Seq::<FieldArgument>::empty() + args == args);
            }
        }
        while i < n
            invariant
                n == toks.len(),
                i <= n,
                field_args_spec(toks@) == prepend_args(out@, field_args_spec(toks@.skip(i as int))),
            decreases n - i,
        {
            let ghost tail = toks@.skip(i as int);
            let (arg, used) = match parse_field_item(toks, i) {
                Ok(x) => x,
                Err(e) => return Err(e),
            };
            let ghost before = out@;
            out.push(arg);
            assert(tail.skip(used as int) == toks@.skip(i + used));
            if i + used == n {
                assert(toks@.skip(n as int).len() == 0);
                assert(before + seq![arg] == out@);
                i = n;
            } else {
                assert(tail.skip(used as int)[0] == toks@[i + used]);
                match &toks[i + used] {
                    AttrToken::Comma => {},
                    _ => return Err(ConfigError::MalformedPosition),
                }
                assert(tail.skip(used as int).skip(1) == toks@.skip(i + used + 1));
                proof {
                    if let Ok(rest) = field_args_spec(toks@.skip(i + used + 1)) {
                        assert(before + (seq![arg] + rest) == out@ + rest);
                    }
                }
                i = i + used + 1;
            }
        }
        assert(toks@.skip(i as int).len() == 0);
        assert(out@ + Seq::<FieldArgument>::empty() == out@);
        Ok(out)
    }
}

impl Position {
    /// The position of the range `lo..hi`, or of `lo..=hi` when `inclusive`.
    pub fn from_range(lo: u64, hi: u64, inclusive: bool) -> (r: Result<Position, ConfigError>)
        ensures
            r == range_spec(lo, hi, inclusive),
    {
        if hi < lo {
            Err(ConfigError::InvalidRange)
        } else if inclusive {
            if hi - lo == u64::MAX {
                Err(ConfigError::InvalidRange)
            } else {
                Ok(Position { lo, len: hi - lo + 1 })
            }
        } else {
            Ok(Position { lo, len: hi - lo })
        }
    }
}

impl FieldLevelMacroArgumentsBuilder {
    /// A builder that has seen nothing yet.
    pub fn new() -> (r: Self)
        ensures
            r.offset is None,
            r.size is None,
    {
        FieldLevelMacroArgumentsBuilder { offset: None, size: None }
    }

    /// Takes in one argument; fails on an argument that repeats or mixes
    /// position forms.
    pub fn apply(&mut self, arg: FieldArgument) -> (r: Result<(), ConfigError>)
        ensures
            match apply_spec(*old(self), arg) {
                Ok(b) => r is Ok && *final(self) == b,
                Err(e) => r == Err::<(), ConfigError>(e),
            },
    {
        match arg {
            FieldArgument::Offset(o) => {
                if self.offset.is_some() {
                    return Err(ConfigError::DuplicateOffset);
                }
                self.offset = Some(o);
            },
            FieldArgument::Size(s) => {
                if self.size.is_some() {
                    return Err(ConfigError::DuplicateSize);
                }
                self.size = Some(s);
            },
            FieldArgument::Range(p) => {
                if self.offset.is_some() || self.size.is_some() {
                    return Err(ConfigError::RangeWithOther);
                }
                self.offset = Some(p.lo);
                self.size = Some(p.len);
            },
            FieldArgument::Single(n) => {
                if self.offset.is_some() || self.size.is_some() {
                    return Err(ConfigError::SingleWithOther);
                }
                self.offset = Some(n);
                self.size = Some(1);
            },
        }
        Ok(())
    }

    /// The position gathered, once both offset and size are known.
    pub fn build(&self) -> (r: Result<FieldLevelMacroArguments, ConfigError>)
        ensures
            r == build_spec(*self),
    {
        match (self.offset, self.size) {
            (Some(offset), Some(size)) => Ok(FieldLevelMacroArguments { offset, size }),
            (None, _) => Err(ConfigError::MissingOffset),
            (Some(_), None) => Err(ConfigError::MissingSize),
        }
    }
}

impl FieldLevelMacroArguments {
    /// Resolves a field's position declaration: explicit `offset` and
    /// `size`, one range, or one single bit, with no form repeated or mixed.
    pub fn from_arguments(args: &Vec<FieldArgument>) -> (r: Result<Self, ConfigError>)
        ensures
            r == resolve_spec(args@),
    {
        let mut builder = FieldLevelMacroArgumentsBuilder::new();
        let mut i: usize = 0;
        while i < args.len()
            invariant
                i <= args.len(),
                gather_spec(args@.subrange(0, i as int)) == Ok::<FieldLevelMacroArgumentsBuilder, ConfigError>(builder),
            decreases args.len() - i,
        {
            assert(args@.subrange(0, i as int + 1).drop_last() == args@.subrange(0, i as int));
            let step = builder.apply(args[i]);
            if let Err(e) = step {
                assert(args@.subrange(0, i as int + 1).last() == args@[i as int]);
                proof { lemma_gather_error_sticks(args@, i as int + 1); }
                return Err(e);
            }
            i = i + 1;
        }
        assert(args@.subrange(0, args.len() as int) == args@);
        builder.build()
    }
}

/// The position forms agree: `offset = lo, size = hi - lo`, the range
/// `lo..hi` and the range `lo..=hi - 1` all resolve to offset `lo` and size
/// `hi - lo`.
pub proof fn lemma_range_forms_agree(lo: u64, hi: u64)
    requires
        lo < hi,
    ensures
        range_spec(lo, hi, false) == Ok::<Position, ConfigError>(Position { lo, len: (hi - lo) as u64 }),
        range_spec(lo, (hi - 1) as u64, true) == Ok::<Position, ConfigError>(Position { lo, len: (hi - lo) as u64 }),
        resolve_spec(seq![FieldArgument::Offset(lo), FieldArgument::Size((hi - lo) as u64)])
            == Ok::<FieldLevelMacroArguments, ConfigError>(FieldLevelMacroArguments { offset: lo, size: (hi - lo) as u64 }),
        resolve_spec(seq![FieldArgument::Range(Position { lo, len: (hi - lo) as u64 })])
            == Ok::<FieldLevelMacroArguments, ConfigError>(FieldLevelMacroArguments { offset: lo, size: (hi - lo) as u64 }),
{
    let none = FieldLevelMacroArgumentsBuilder { offset: None, size: None };
    let empty = Seq::<FieldArgument>::empty();
    assert(gather_spec(empty) == Ok::<FieldLevelMacroArgumentsBuilder, ConfigError>(none));
    let first = seq![FieldArgument::Offset(lo)];
    assert(first.drop_last() == empty);
    assert(gather_spec(first) == apply_spec(none, FieldArgument::Offset(lo)));
    let explicit = first.push(FieldArgument::Size((hi - lo) as u64));
    assert(explicit.drop_last() == first);
    assert(explicit == seq![FieldArgument::Offset(lo), FieldArgument::Size((hi - lo) as u64)]);
    assert(gather_spec(explicit) == apply_spec(
        FieldLevelMacroArgumentsBuilder { offset: Some(lo), size: None },
        FieldArgument::Size((hi - lo) as u64),
    ));
    let range = seq![FieldArgument::Range(Position { lo, len: (hi - lo) as u64 })];
    assert(range.drop_last() == empty);
    assert(gather_spec(range) == apply_spec(none, range.last()));
}

/// The position written as `offset = lo, size = hi - lo`, as `lo..hi` and
/// as `lo..=hi - 1` reads and resolves to offset `lo` and size `hi - lo`.
pub proof fn lemma_written_forms_agree(
    explicit: Seq<AttrToken>,
    half_open: Seq<AttrToken>,
    inclusive: Seq<AttrToken>,
    offset_key: String,
    size_key: String,
    lo: u64,
    hi: u64,
)
    requires
        lo < hi,
        offset_key@ == "offset"@,
        size_key@ == "size"@,
        explicit == seq![
            AttrToken::Ident(offset_key),
            AttrToken::Eq,
            AttrToken::Literal(lo),
            AttrToken::Comma,
            AttrToken::Ident(size_key),
            AttrToken::Eq,
            AttrToken::Literal((hi - lo) as u64),
        ],
        half_open == seq![AttrToken::Literal(lo), AttrToken::DotDot, AttrToken::Literal(hi)],
        inclusive == seq![AttrToken::Literal(lo), AttrToken::DotDotEq, AttrToken::Literal((hi - 1) as u64)],
    ensures
        field_args_spec(explicit) matches Ok(a) && resolve_spec(a) == Ok::<FieldLevelMacroArguments, ConfigError>(
            FieldLevelMacroArguments { offset: lo, size: (hi - lo) as u64 },
        ),
        field_args_spec(half_open) matches Ok(a) && resolve_spec(a) == Ok::<FieldLevelMacroArguments, ConfigError>(
            FieldLevelMacroArguments { offset: lo, size: (hi - lo) as u64 },
        ),
        field_args_spec(inclusive) matches Ok(a) && resolve_spec(a) == Ok::<FieldLevelMacroArguments, ConfigError>(
            FieldLevelMacroArguments { offset: lo, size: (hi - lo) as u64 },
        ),
{
    lemma_range_forms_agree(lo, hi);
    let p = Position { lo, len: (hi - lo) as u64 };
    reveal_strlit("offset");
    reveal_strlit("size");
    assert("size"@.len() == 4 && "offset"@.len() == 6);
    assert(size_key@ != "offset"@);
    let size_part = explicit.skip(3).skip(1);
    assert(size_part == seq![AttrToken::Ident(size_key), AttrToken::Eq, AttrToken::Literal((hi - lo) as u64)]);
    assert(size_part.skip(3).len() == 0);
    assert(field_args_spec(size_part) == Ok::<Seq<FieldArgument>, ConfigError>(
        seq![FieldArgument::Size((hi - lo) as u64)],
    ));
    assert(explicit.skip(3)[0] == AttrToken::Comma);
    assert(seq![FieldArgument::Offset(lo)] + seq![FieldArgument::Size((hi - lo) as u64)] == seq![
        FieldArgument::Offset(lo),
        FieldArgument::Size((hi - lo) as u64),
    ]);
    assert(field_args_spec(explicit) == Ok::<Seq<FieldArgument>, ConfigError>(
        seq![FieldArgument::Offset(lo), FieldArgument::Size((hi - lo) as u64)],
    ));
    assert(half_open.skip(3).len() == 0);
    assert(field_args_spec(half_open) == Ok::<Seq<FieldArgument>, ConfigError>(seq![FieldArgument::Range(p)]));
    assert(inclusive.skip(3).len() == 0);
    assert(field_args_spec(inclusive) == Ok::<Seq<FieldArgument>, ConfigError>(seq![FieldArgument::Range(p)]));
}

/// The single-bit form `n` resolves to offset `n` and size 1.
pub proof fn lemma_single_form(n: u64)
    ensures
        field_args_spec(seq![AttrToken::Literal(n)]) == Ok::<Seq<FieldArgument>, ConfigError>(
            seq![FieldArgument::Single(n)],
        ),
        resolve_spec(seq![FieldArgument::Single(n)])
            == Ok::<FieldLevelMacroArguments, ConfigError>(FieldLevelMacroArguments { offset: n, size: 1 }),
{
    let none = FieldLevelMacroArgumentsBuilder { offset: None, size: None };
    let empty = Seq::<FieldArgument>::empty();
    assert(gather_spec(empty) == Ok::<FieldLevelMacroArgumentsBuilder, ConfigError>(none));
    assert(seq![AttrToken::Literal(n)].skip(1).len() == 0);
    let single = seq![FieldArgument::Single(n)];
    assert(single.drop_last() == empty);
    assert(gather_spec(single) == apply_spec(none, single.last()));
}

/// Once the gathering fails, taking in further arguments keeps the error.
proof fn lemma_gather_error_sticks(args: Seq<FieldArgument>, i: int)
    requires
        0 <= i <= args.len(),
        gather_spec(args.subrange(0, i)) is Err,
    ensures
        gather_spec(args) == gather_spec(args.subrange(0, i)),
    decreases args.len() - i,
{
    if i < args.len() {
        assert(args.subrange(0, i + 1).drop_last() == args.subrange(0, i));
        lemma_gather_error_sticks(args, i + 1);
    } else {
        assert(args.subrange(0, i) == args);
    }
}

} // verus!
