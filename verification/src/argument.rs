//! What the name of a type becomes in a binding's signature. There are two
//! policies: one for a type's own methods, one for the members of operator
//! implementations, where `Self` may stand on either side of the operator.

use vstd::prelude::*;
use vstd::string::*;
use crate::config::{Config, WRAPPER_PREFIX};
use crate::stringify::{view_result, BaseTransform};
use crate::text::after_prefix;
use crate::validate::{is_argument_primitive, valid_argument, valid_return};
use crate::wrapped_item::WrappedItem;

verus! {

/// What a concrete type name becomes: a configured target is named by its
/// wrapper, an accepted primitive stands as it is, anything else is rejected
/// with its own name as the reason.
pub open spec fn resolved_name(name: Seq<char>, config: Config) -> Result<Seq<char>, Seq<char>> {
    if config.is_target(name) {
        Ok(WRAPPER_PREFIX@ + name)
    } else if config.is_primitive(name) {
        Ok(name)
    } else {
        Err(name)
    }
}

/// What `base` becomes in the signature of one of the own methods of the
/// type `wrapped_type`: `Self` in first position is the receiver, `Self`
/// elsewhere is the type itself.
pub open spec fn auto_method_argument(
    base: Seq<char>,
    wrapped_type: Seq<char>,
    config: Config,
    is_first_arg: bool,
) -> Result<Seq<char>, Seq<char>> {
    if base == "Self"@ {
        if is_first_arg {
            Ok("self"@)
        } else {
            resolved_name(wrapped_type, config)
        }
    } else {
        resolved_name(base, config)
    }
}

/// What `base` becomes in the signature of an operator implemented for
/// `self_type`, seen from the type `wrapped_type`. With the wrapped type on
/// the left, `Self` in first position is the receiver. Any other `Self` is
/// `self_type`. With another type on the left, a later operand stands for the
/// wrapped type and is the receiver. Everything else is looked up by name.
pub open spec fn op_argument(
    base: Seq<char>,
    self_type: Seq<char>,
    wrapped_type: Seq<char>,
    config: Config,
    is_first_arg: bool,
    is_return_type: bool,
) -> Result<Seq<char>, Seq<char>> {
    let self_on_lhs = self_type == wrapped_type;
    if base == "Self"@ {
        if self_on_lhs && is_first_arg {
            Ok("self"@)
        } else {
            resolved_name(self_type, config)
        }
    } else if !is_first_arg && !is_return_type && !self_on_lhs {
        Ok("self"@)
    } else {
        resolved_name(base, config)
    }
}

/// The policy for a type's own methods, as a function of the name.
pub open spec fn auto_method_transform(
    wrapped_type: Seq<char>,
    config: Config,
    is_first_arg: bool,
) -> spec_fn(Seq<char>) -> Result<Seq<char>, Seq<char>> {
    |base: Seq<char>| auto_method_argument(base, wrapped_type, config, is_first_arg)
}

/// The policy for operator members, as a function of the name.
pub open spec fn op_transform(
    self_type: Seq<char>,
    wrapped_type: Seq<char>,
    config: Config,
    is_first_arg: bool,
    is_return_type: bool,
) -> spec_fn(Seq<char>) -> Result<Seq<char>, Seq<char>> {
    |base: Seq<char>|
        op_argument(base, self_type, wrapped_type, config, is_first_arg, is_return_type)
}

fn resolve_name(name: &String, config: &Config) -> (r: Result<String, String>)
    ensures
        view_result(r) == resolved_name(name@, *config),
{
    if config.contains_type(name.as_str()) {
        let mut out = String::from_str(WRAPPER_PREFIX);
        out.append(name.as_str());
        Ok(out)
    } else if config.contains_primitive(name.as_str()) {
        Ok(name.clone())
    } else {
        Err(name.clone())
    }
}

fn auto_method_name(base: &String, wrapped_type: &String, config: &Config, is_first_arg: bool) -> (r:
    Result<String, String>)
    ensures
        view_result(r) == auto_method_argument(base@, wrapped_type@, *config, is_first_arg),
{
    if *base.as_str() == *"Self" {
        if is_first_arg {
            Ok(String::from_str("self"))
        } else {
            resolve_name(wrapped_type, config)
        }
    } else {
        resolve_name(base, config)
    }
}

fn op_name(
    base: &String,
    self_type: &String,
    wrapped_type: &String,
    config: &Config,
    is_first_arg: bool,
    is_return_type: bool,
) -> (r: Result<String, String>)
    ensures
        view_result(r) == op_argument(
            base@,
            self_type@,
            wrapped_type@,
            *config,
            is_first_arg,
            is_return_type,
        ),
{
    let self_on_lhs = *self_type == *wrapped_type;
    if *base.as_str() == *"Self" {
        if self_on_lhs && is_first_arg {
            Ok(String::from_str("self"))
        } else {
            resolve_name(self_type, config)
        }
    } else if !is_first_arg && !is_return_type && !self_on_lhs {
        Ok(String::from_str("self"))
    } else {
        resolve_name(base, config)
    }
}

/// Brings the name of a type into the form it has in the signature of one
/// of `wrapped`'s own methods.
pub fn to_auto_method_argument(
    base_string: &String,
    wrapped: &WrappedItem,
    config: &Config,
    is_first_arg: bool,
) -> (r: Result<String, String>)
    ensures
        view_result(r) == auto_method_argument(
            base_string@,
            wrapped.item().name->0@,
            *config,
            is_first_arg,
        ),
{
    proof {
        use_type_invariant(wrapped);
    }
    auto_method_name(base_string, wrapped.wrapped_type, config, is_first_arg)
}

/// Brings the name of a type into the form it has in the signature of an
/// operator implemented for `self_type`, one of `wrapped`'s operators.
pub fn to_op_argument(
    base_string: &String,
    self_type: &String,
    wrapped: &WrappedItem,
    config: &Config,
    is_first_arg: bool,
    is_return_type: bool,
) -> (r: Result<String, String>)
    ensures
        view_result(r) == op_argument(
            base_string@,
            self_type@,
            wrapped.item().name->0@,
            *config,
            is_first_arg,
            is_return_type,
        ),
{
    proof {
        use_type_invariant(wrapped);
    }
    op_name(base_string, self_type, wrapped.wrapped_type, config, is_first_arg, is_return_type)
}

/// The policy for a type's own methods, as a transform of type names.
pub struct AutoMethodPolicy<'a> {
    pub wrapped_type: &'a String,
    pub config: &'a Config,
    pub is_first_arg: bool,
}

impl<'a> BaseTransform for AutoMethodPolicy<'a> {
    open spec fn meaning(&self) -> spec_fn(Seq<char>) -> Result<Seq<char>, Seq<char>> {
        auto_method_transform(self.wrapped_type@, *self.config, self.is_first_arg)
    }

    fn transform(&self, base: &String) -> (r: Result<String, String>) {
        auto_method_name(base, self.wrapped_type, self.config, self.is_first_arg)
    }
}

/// The policy for operator members, as a transform of type names.
pub struct OperatorPolicy<'a> {
    pub self_type: &'a String,
    pub wrapped_type: &'a String,
    pub config: &'a Config,
    pub is_first_arg: bool,
    pub is_return_type: bool,
}

impl<'a> BaseTransform for OperatorPolicy<'a> {
    open spec fn meaning(&self) -> spec_fn(Seq<char>) -> Result<Seq<char>, Seq<char>> {
        op_transform(
            self.self_type@,
            self.wrapped_type@,
            *self.config,
            self.is_first_arg,
            self.is_return_type,
        )
    }

    fn transform(&self, base: &String) -> (r: Result<String, String>) {
        op_name(
            base,
            self.self_type,
            self.wrapped_type,
            self.config,
            self.is_first_arg,
            self.is_return_type,
        )
    }
}

/// A listed primitive that the configuration accepts is accepted as an
/// argument and as a result of a type's own methods, whether it passes as it
/// is or, being a configured target too, under its wrapper's name.
pub proof fn lemma_accepted_primitive_passes(
    name: Seq<char>,
    wrapped_type: Seq<char>,
    config: Config,
    is_first_arg: bool,
)
    requires
        is_argument_primitive(name),
        config.is_primitive(name),
    ensures
        auto_method_argument(name, wrapped_type, config, is_first_arg) matches Ok(text)
            && valid_argument(text, config) && valid_return(text, config),
{
    reveal_strlit("Self");
    reveal_strlit("bool");
    reveal_strlit("StdString");
    reveal_strlit("Box<str>");
    reveal_strlit("CString");
    reveal_strlit("BString");
    reveal_strlit("i8");
    reveal_strlit("u8");
    reveal_strlit("i16");
    reveal_strlit("u16");
    reveal_strlit("i32");
    reveal_strlit("u32");
    reveal_strlit("i64");
    reveal_strlit("u64");
    reveal_strlit("i128");
    reveal_strlit("u128");
    reveal_strlit("isize");
    reveal_strlit("usize");
    reveal_strlit("f32");
    reveal_strlit("f64");
    assert(name != "Self"@) by {
        assert("Self"@[1] == 'e');
    }
    if config.is_target(name) {
        let text = WRAPPER_PREFIX@ + name;
        assert(text.subrange(0, WRAPPER_PREFIX@.len() as int) =~= WRAPPER_PREFIX@);
        assert(after_prefix(text, WRAPPER_PREFIX@) =~= name);
    }
}

/// A name that is neither `Self`, nor a configured target, nor an accepted
/// primitive is rejected by both policies wherever it is looked up, with the
/// name itself as the reason.
pub proof fn lemma_unknown_name_rejected(
    name: Seq<char>,
    self_type: Seq<char>,
    wrapped_type: Seq<char>,
    config: Config,
    is_first_arg: bool,
    is_return_type: bool,
)
    requires
        name != "Self"@,
        !config.is_target(name),
        !config.is_primitive(name),
    ensures
        auto_method_argument(name, wrapped_type, config, is_first_arg) == Err::<
            Seq<char>,
            Seq<char>,
        >(name),
        is_first_arg || is_return_type || self_type == wrapped_type ==> op_argument(
            name,
            self_type,
            wrapped_type,
            config,
            is_first_arg,
            is_return_type,
        ) == Err::<Seq<char>, Seq<char>>(name),
{
}

} // verus!
