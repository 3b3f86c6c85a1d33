//! Names of the items that a register declaration gives rise to.

use convert_case::{Case, Casing};
use vstd::prelude::*;
use vstd::utf8::is_ascii_chars;

verus! {

/// What `convert_case` makes of a name in Pascal case.
pub uninterp spec fn pascal_of(s: Seq<char>) -> Seq<char>;

/// What `convert_case` makes of a name in snake case.
pub uninterp spec fn snake_of(s: Seq<char>) -> Seq<char>;

/// Relies on `convert_case::Casing::to_case` with `Case::Pascal` (the same
/// conversion as `Case::UpperCamel`): the result depends on the name alone.
/// The name must be ASCII: the conversion splits words at character
/// positions used as byte offsets, which panics inside a wider character.
#[verifier::external_body]
fn pascal_case(s: &str) -> (r: String)
    requires
        is_ascii_chars(s@),
    ensures
        r@ == pascal_of(s@),
{
    s.to_case(Case::Pascal)
}

/// Relies on `convert_case::Casing::to_case` with `Case::Snake`: the result
/// depends on the name alone. The name must be ASCII, as for `pascal_case`.
#[verifier::external_body]
fn snake_case(s: &str) -> (r: String)
    requires
        is_ascii_chars(s@),
    ensures
        r@ == snake_of(s@),
{
    s.to_case(Case::Snake)
}

/// The name of the value type synthesized for a field's inline variants:
/// the field's name in Pascal case. `None` for a name that is not ASCII.
pub fn inline_enum_ident(field: &str) -> (r: Option<String>)
    ensures
        is_ascii_chars(field@) ==> (r matches Some(n) && n@ == pascal_of(field@)),
        !is_ascii_chars(field@) ==> r is None,
{
    if field.is_ascii() {
        Some(pascal_case(field))
    } else {
        None
    }
}

/// The name of the snapshot type of a register: its name in Pascal case,
/// followed by `Representation`. `None` for a name that is not ASCII.
pub fn representation_struct_ident(register: &str) -> (r: Option<String>)
    ensures
        is_ascii_chars(register@) ==> (r matches Some(n) && n@ == pascal_of(register@) + "Representation"@),
        !is_ascii_chars(register@) ==> r is None,
{
    if register.is_ascii() {
        let base = pascal_case(register);
        Some(base.concat("Representation"))
    } else {
        None
    }
}

/// The name of the module that holds a register's private items: its name
/// in snake case. `None` for a name that is not ASCII.
pub fn private_module_ident(register: &str) -> (r: Option<String>)
    ensures
        is_ascii_chars(register@) ==> (r matches Some(n) && n@ == snake_of(register@)),
        !is_ascii_chars(register@) ==> r is None,
{
    if register.is_ascii() {
        Some(snake_case(register))
    } else {
        None
    }
}

} // verus!
