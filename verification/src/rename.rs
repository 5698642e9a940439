//! How names of methods and arguments are written on the wire.

use crate::text::same;
use vstd::prelude::*;

verus! {

/// A name in upper camel case, as `heck` writes it.
pub uninterp spec fn upper_camel_case(name: Seq<char>) -> Seq<char>;

/// A name in kebab case, as `heck` writes it.
pub uninterp spec fn kebab_case(name: Seq<char>) -> Seq<char>;

/// A name in lower camel case, as `heck` writes it.
pub uninterp spec fn lower_camel_case(name: Seq<char>) -> Seq<char>;

/// A name in shouty snake case, as `heck` writes it.
pub uninterp spec fn shouty_snake_case(name: Seq<char>) -> Seq<char>;

/// A name in snake case, as `heck` writes it.
pub uninterp spec fn snake_case(name: Seq<char>) -> Seq<char>;

/// Calls `heck::ToUpperCamelCase::to_upper_camel_case`, whose result depends on the name alone.
#[verifier::external_body]
fn to_upper_camel_case(name: &str) -> (r: String)
    ensures
        r@ == upper_camel_case(name@),
{
    heck::ToUpperCamelCase::to_upper_camel_case(name)
}

/// Calls `heck::ToKebabCase::to_kebab_case`, whose result depends on the name alone.
#[verifier::external_body]
fn to_kebab_case(name: &str) -> (r: String)
    ensures
        r@ == kebab_case(name@),
{
    heck::ToKebabCase::to_kebab_case(name)
}

/// Calls `heck::ToLowerCamelCase::to_lower_camel_case`, whose result depends on the name alone.
#[verifier::external_body]
fn to_lower_camel_case(name: &str) -> (r: String)
    ensures
        r@ == lower_camel_case(name@),
{
    heck::ToLowerCamelCase::to_lower_camel_case(name)
}

/// Calls `heck::ToShoutySnakeCase::to_shouty_snake_case`, whose result depends on the name alone.
#[verifier::external_body]
fn to_shouty_snake_case(name: &str) -> (r: String)
    ensures
        r@ == shouty_snake_case(name@),
{
    heck::ToShoutySnakeCase::to_shouty_snake_case(name)
}

/// Calls `heck::ToSnakeCase::to_snake_case`, whose result depends on the name alone.
#[verifier::external_body]
fn to_snake_case(name: &str) -> (r: String)
    ensures
        r@ == snake_case(name@),
{
    heck::ToSnakeCase::to_snake_case(name)
}

/// How all names of a service are renamed.
#[derive(Clone, Copy, Debug, PartialEq, Eq, Structural)]
pub enum RenameAll {
    /// `UpperCamelCase`.
    Camel,
    /// `kebab-case`.
    Kebab,
    /// `lowerCamelCase`.
    Mixed,
    /// `SHOUTY_SNAKE_CASE`.
    ShoutySnake,
    /// `snake_case`.
    Snake,
}

/// The renaming that a case name stands for, if it stands for one.
pub open spec fn rename_all_of(s: Seq<char>) -> Option<RenameAll> {
    if s == "CamelCase"@ {
        Some(RenameAll::Camel)
    } else if s == "kebab-case"@ {
        Some(RenameAll::Kebab)
    } else if s == "mixedCase"@ || s == "camelCase"@ {
        Some(RenameAll::Mixed)
    } else if s == "SHOUTY_SNAKE_CASE"@ {
        Some(RenameAll::ShoutySnake)
    } else if s == "snake_case"@ {
        Some(RenameAll::Snake)
    } else {
        None
    }
}

/// The wire name of `name`.
pub open spec fn renamed(r: RenameAll, name: Seq<char>) -> Seq<char> {
    match r {
        RenameAll::Camel => upper_camel_case(name),
        RenameAll::Kebab => kebab_case(name),
        RenameAll::Mixed => lower_camel_case(name),
        RenameAll::ShoutySnake => shouty_snake_case(name),
        RenameAll::Snake => snake_case(name),
    }
}

/// The wire name of `name`, which is the name itself unless names are renamed.
pub open spec fn wire_name(r: Option<RenameAll>, name: Seq<char>) -> Seq<char> {
    match r {
        Some(r) => renamed(r, name),
        None => name,
    }
}

impl RenameAll {
    /// Whether a text is a case name.
    pub fn is_case_name(s: &str) -> (r: bool)
        ensures
            r == (rename_all_of(s@) is Some),
    {
        same(s, "CamelCase") || same(s, "kebab-case") || same(s, "mixedCase") || same(
            s,
            "camelCase",
        ) || same(s, "SHOUTY_SNAKE_CASE") || same(s, "snake_case")
    }

    /// Reads a case name.
    pub fn from_str(s: &str) -> (r: Result<RenameAll, ()>)
        requires
            rename_all_of(s@) is Some,
        ensures
            r == Ok::<RenameAll, ()>(rename_all_of(s@)->0),
    {
        if same(s, "CamelCase") {
            Ok(RenameAll::Camel)
        } else if same(s, "kebab-case") {
            Ok(RenameAll::Kebab)
        } else if same(s, "mixedCase") || same(s, "camelCase") {
            Ok(RenameAll::Mixed)
        } else if same(s, "SHOUTY_SNAKE_CASE") {
            Ok(RenameAll::ShoutySnake)
        } else {
            Ok(RenameAll::Snake)
        }
    }

    /// The wire name of `name`.
    pub fn rename(&self, name: &str) -> (r: String)
        ensures
            r@ == renamed(*self, name@),
    {
        match self {
            RenameAll::Camel => to_upper_camel_case(name),
            RenameAll::Kebab => to_kebab_case(name),
            RenameAll::Mixed => to_lower_camel_case(name),
            RenameAll::ShoutySnake => to_shouty_snake_case(name),
            RenameAll::Snake => to_snake_case(name),
        }
    }
}

} // verus!
