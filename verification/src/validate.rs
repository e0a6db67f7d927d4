//! Which rendered signatures the scripting runtime can take as an argument
//! and which it can hand back as a result.

use vstd::prelude::*;
use vstd::string::*;
use crate::config::{Config, WRAPPER_PREFIX};
use crate::text::{after_prefix, has_prefix, starts_with, strip_prefix};

verus! {

/// The spellings of the primitives that can be taken from a script value.
pub open spec fn is_argument_primitive(s: Seq<char>) -> bool {
    ||| s == "bool"@
    ||| s == "StdString"@
    ||| s == "Box<str>"@
    ||| s == "CString"@
    ||| s == "BString"@
    ||| s == "i8"@
    ||| s == "u8"@
    ||| s == "i16"@
    ||| s == "u16"@
    ||| s == "i32"@
    ||| s == "u32"@
    ||| s == "i64"@
    ||| s == "u64"@
    ||| s == "i128"@
    ||| s == "u128"@
    ||| s == "isize"@
    ||| s == "usize"@
    ||| s == "f32"@
    ||| s == "f64"@
}

/// The spellings of the primitives that can be turned into a script value:
/// those that can be taken from one, and the borrowed string views.
pub open spec fn is_return_primitive(s: Seq<char>) -> bool {
    ||| is_argument_primitive(s)
    ||| s == "&str"@
    ||| s == "&CStr"@
    ||| s == "&BStr"@
}

/// Whether `s` is the wrapper's prefix followed by the name of a configured
/// target.
pub open spec fn is_wrapper(s: Seq<char>, config: Config) -> bool {
    has_prefix(s, WRAPPER_PREFIX@) && config.is_target(after_prefix(s, WRAPPER_PREFIX@))
}

/// Whether a rendered signature is accepted in argument position: `self`, a
/// reference to `self`, a listed primitive, or the wrapper of a configured
/// target.
pub open spec fn valid_argument(s: Seq<char>, config: Config) -> bool {
    ||| s == "self"@
    ||| s == "&self"@
    ||| is_argument_primitive(s)
    ||| is_wrapper(s, config)
}

/// Whether a rendered signature is accepted in return position: a listed
/// primitive or the wrapper of a configured target.
pub open spec fn valid_return(s: Seq<char>, config: Config) -> bool {
    is_return_primitive(s) || is_wrapper(s, config)
}

/// Every listed primitive is accepted, whatever the configuration: one of
/// the argument list in both positions, one of the return list in return
/// position.
pub proof fn lemma_listed_primitives_accepted(s: Seq<char>, config: Config)
    ensures
        is_argument_primitive(s) ==> valid_argument(s, config) && valid_return(s, config),
        is_return_primitive(s) ==> valid_return(s, config),
{
}

/// A signature outside the lists is accepted only as the wrapper of a
/// configured target or, in argument position, as `self` or a reference to
/// it.
pub proof fn lemma_unlisted_rejected(s: Seq<char>, config: Config)
    requires
        !is_wrapper(s, config),
    ensures
        !is_return_primitive(s) ==> !valid_return(s, config),
        !is_argument_primitive(s) && s != "self"@ && s != "&self"@ ==> !valid_argument(s, config),
{
}

fn argument_primitive(s: &str) -> (r: bool)
    ensures
        r == is_argument_primitive(s@),
{
    *s == *"bool" || *s == *"StdString" || *s == *"Box<str>" || *s == *"CString" || *s
        == *"BString" || *s == *"i8" || *s == *"u8" || *s == *"i16" || *s == *"u16" || *s
        == *"i32" || *s == *"u32" || *s == *"i64" || *s == *"u64" || *s == *"i128" || *s
        == *"u128" || *s == *"isize" || *s == *"usize" || *s == *"f32" || *s == *"f64"
}

fn return_primitive(s: &str) -> (r: bool)
    ensures
        r == is_return_primitive(s@),
{
    argument_primitive(s) || *s == *"&str" || *s == *"&CStr" || *s == *"&BStr"
}

fn wrapper_of_target(s: &str, config: &Config) -> (r: bool)
    ensures
        r == is_wrapper(s@, *config),
{
    starts_with(s, WRAPPER_PREFIX) && config.contains_type(strip_prefix(s, WRAPPER_PREFIX))
}

/// Tests whether a rendered signature is accepted in argument position.
pub fn is_valid_lua_fn_arg(str: &str, config: &Config) -> (r: bool)
    ensures
        r == valid_argument(str@, *config),
{
    *str == *"self" || *str == *"&self" || argument_primitive(str) || wrapper_of_target(
        str,
        config,
    )
}

/// Tests whether a rendered signature is accepted in return position.
pub fn is_valid_lua_fn_return_typ(str: &str, config: &Config) -> (r: bool)
    ensures
        r == valid_return(str@, *config),
{
    return_primitive(str) || wrapper_of_target(str, config)
}

} // verus!
