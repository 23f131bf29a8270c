//! Case-normalized names of the generated declarations.
//!
//! The engine never invents spellings of its own: every generated name is
//! a case transformation of a model name, with a fixed prefix or suffix.
//! The case transformations themselves are a pure string utility of an
//! outside crate; their results are named by uninterpreted spec functions
//! so that every caller's contract can say exactly which transformation of
//! which model name it returns.

use vstd::prelude::*;

verus! {

/// The snake_case form of a sequence of characters, as
/// `inflections::case::to_snake_case` computes it.
pub uninterp spec fn snake_case_of(s: Seq<char>) -> Seq<char>;

/// The PascalCase form of a sequence of characters, as
/// `inflections::case::to_pascal_case` computes it.
pub uninterp spec fn pascal_case_of(s: Seq<char>) -> Seq<char>;

/// The CONSTANT_CASE form of a sequence of characters, as
/// `inflections::case::to_constant_case` computes it.
pub uninterp spec fn constant_case_of(s: Seq<char>) -> Seq<char>;

/// Relies on `inflections::case::to_snake_case`: its result depends on
/// the characters of the input alone.
#[verifier::external_body]
pub(crate) fn to_snake_case(s: &str) -> (r: String)
    ensures
        r@ == snake_case_of(s@),
{
    inflections::case::to_snake_case(s)
}

/// Relies on `inflections::case::to_pascal_case`: its result depends on
/// the characters of the input alone.
#[verifier::external_body]
pub(crate) fn to_pascal_case(s: &str) -> (r: String)
    ensures
        r@ == pascal_case_of(s@),
{
    inflections::case::to_pascal_case(s)
}

/// Relies on `inflections::case::to_constant_case`: its result depends on
/// the characters of the input alone.
#[verifier::external_body]
pub(crate) fn to_constant_case(s: &str) -> (r: String)
    ensures
        r@ == constant_case_of(s@),
{
    inflections::case::to_constant_case(s)
}

/// Name of the generated register value type: the register's name in
/// PascalCase.
pub fn register_type_name(name: &str) -> (r: String)
    ensures
        r@ == pascal_case_of(name@),
{
    to_pascal_case(name)
}

/// Name of the generated snapshot-reader type of a register.
pub fn register_getter_name(name: &str) -> (r: String)
    ensures
        r@ == pascal_case_of(name@) + "Get"@,
{
    let mut s = to_pascal_case(name);
    s.append("Get");
    s
}

/// Name of the generated staged-writer type of a register.
pub fn register_updater_name(name: &str) -> (r: String)
    ensures
        r@ == pascal_case_of(name@) + "Update"@,
{
    let mut s = to_pascal_case(name);
    s.append("Update");
    s
}

/// Name of the generated field accessor: the field's name in snake_case.
pub fn field_accessor_name(name: &str) -> (r: String)
    ensures
        r@ == snake_case_of(name@),
{
    to_snake_case(name)
}

/// Name of the generated field setter: `set_` before the field's name in
/// snake_case.
pub fn field_setter_name(name: &str) -> (r: String)
    ensures
        r@ == "set_"@ + snake_case_of(name@),
{
    let mut s = String::from_str("set_");
    let snake = to_snake_case(name);
    s.append(snake.as_str());
    s
}

/// The link symbol that binds one peripheral instance to its hardware
/// base address: a fixed prefix, the device name and the peripheral name,
/// joined and normalized to snake_case.
pub open spec fn link_symbol_of(device_name: Seq<char>, periph_name: Seq<char>) -> Seq<char> {
    snake_case_of("mmap_"@ + device_name + "_"@ + periph_name)
}

/// Computes the link symbol of one peripheral instance.
pub fn link_symbol(device_name: &str, periph_name: &str) -> (r: String)
    ensures
        r@ == link_symbol_of(device_name@, periph_name@),
{
    let mut s = String::from_str("mmap_");
    s.append(device_name);
    s.append("_");
    s.append(periph_name);
    to_snake_case(s.as_str())
}

} // verus!
