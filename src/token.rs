//! The tokens that declarations are written in.

use vstd::prelude::*;

verus! {

/// One token of an attribute's arguments.
#[derive(Clone, Debug, PartialEq, Eq)]
pub enum AttrToken {
    /// A name.
    Ident(String),
    /// An integer literal.
    Literal(u64),
    /// A string literal, by its value.
    Str(String),
    /// `=`
    Eq,
    /// `,`
    Comma,
    /// `=>`
    FatArrow,
    /// `..`
    DotDot,
    /// `..=`
    DotDotEq,
    /// Any other token.
    Other,
}

} // verus!
