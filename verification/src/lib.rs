//! Synthesis of scripting-runtime binding descriptors from a type graph and a
//! configuration of the types to expose.
//!
//! A run takes the documents of the analysed crates and a configuration, and
//! writes one payload: the invocation of a macro that receives the bindings of
//! the primitives and one descriptor for each type that the configuration
//! names. `generate::generate_macros` is the entry point.

pub mod search;
pub mod text;
pub mod name_index;
pub mod document;
pub mod config;
pub mod stringify;
pub mod wrapped_item;
pub mod validate;
pub mod argument;
pub mod diagnostics;
pub mod emit;
pub mod failures;
pub mod presence;
pub mod catalog;
pub mod generate;
pub mod ordering;
pub mod injection;

pub use crate::argument::{to_auto_method_argument, to_op_argument};
pub use crate::config::{Config, Newtype, Source, WrapperType, WRAPPER_PREFIX};
pub use crate::failures::Failure;
pub use crate::document::{
    Crate, FnDecl, Function, Id, Impl, Item, ItemEnum, ItemSummary, Method, Type,
};
pub use crate::generate::generate_macros;
pub use crate::stringify::type_to_string;
pub use crate::validate::{is_valid_lua_fn_arg, is_valid_lua_fn_return_typ};
pub use crate::wrapped_item::{ResolveError, WrappedItem};
