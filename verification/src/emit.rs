//! The clause body of a descriptor: derive flags, unary and binary operator
//! clauses, and the clause of the methods that are bound automatically.
//!
//! A member that cannot be bound never fails the descriptor. Its entry is
//! written as a comment that says what could not be bound, and the rest is
//! written as usual.

use vstd::prelude::*;
use vstd::string::*;
use crate::argument::{auto_method_transform, op_transform, AutoMethodPolicy, OperatorPolicy};
use crate::config::{Config, Newtype};
use crate::diagnostics::{
    debug_name, debug_name_text, unsupported_argument, unsupported_argument_message,
    unsupported_lhs, unsupported_lhs_message, unsupported_member, unsupported_member_message,
    unsupported_operator, unsupported_operator_message, unsupported_return,
    unsupported_return_message,
};
use crate::document::{
    item_position, lemma_item_position, lemma_item_resolves, Crate, Document, FnDecl, Id, Impl,
    Item, ItemEnum, Type,
};
use crate::search::{first_index, lemma_first_index_is};
use crate::stringify::{identity_transform, rendered, type_to_string, view_result, Identity};
use crate::text::{join, join_strings, prefix_each_line, prefix_lines, texts};
use crate::validate::{is_valid_lua_fn_arg, is_valid_lua_fn_return_typ, valid_argument, valid_return};
use crate::wrapped_item::{
    all_members, block_resolves, is_member, is_named, located, method_docstring, named, own_block,
    WrappedItem,
};

verus! {

/// The text of a parameter of type `t` in one of the own methods of
/// `wrapped_type`, or the type that cannot be bound: a name that the policy
/// rejects, a shape that cannot be rendered, or the rendered text itself when
/// it is not accepted as an argument.
pub open spec fn argument_text(
    t: Type,
    wrapped_type: Seq<char>,
    config: Config,
    is_first_arg: bool,
) -> Result<Seq<char>, Seq<char>> {
    match rendered(t, auto_method_transform(wrapped_type, config, is_first_arg)) {
        Ok(text) => if valid_argument(text, config) {
            Ok(text)
        } else {
            Err(text)
        },
        Err(reason) => Err(reason),
    }
}

/// The text of a result of type `t` of one of the own methods of
/// `wrapped_type`, or the type that cannot be bound.
pub open spec fn return_text(t: Type, wrapped_type: Seq<char>, config: Config) -> Result<
    Seq<char>,
    Seq<char>,
> {
    match rendered(t, auto_method_transform(wrapped_type, config, false)) {
        Ok(text) => if valid_return(text, config) {
            Ok(text)
        } else {
            Err(text)
        },
        Err(reason) => Err(reason),
    }
}

/// The texts of the first `n` parameters, or the type of the first that
/// cannot be bound.
pub open spec fn argument_texts(
    inputs: Seq<(String, Type)>,
    wrapped_type: Seq<char>,
    config: Config,
    n: nat,
) -> Result<Seq<Seq<char>>, Seq<char>>
    decreases n,
{
    if n == 0 || n > inputs.len() {
        Ok(Seq::empty())
    } else {
        match argument_texts(inputs, wrapped_type, config, (n - 1) as nat) {
            Err(e) => Err(e),
            Ok(done) => match argument_text(inputs[n - 1].1, wrapped_type, config, n == 1) {
                Ok(text) => Ok(done.push(text)),
                Err(e) => Err(e),
            },
        }
    }
}

/// What cannot be bound in a method with signature `decl`, if anything: its
/// first parameter that cannot, or else its result. `owner` describes the
/// wrapped type.
pub open spec fn method_error(
    decl: FnDecl,
    wrapped_type: Seq<char>,
    config: Config,
    owner: Seq<char>,
) -> Option<Seq<char>> {
    match argument_texts(decl.inputs@, wrapped_type, config, decl.inputs@.len()) {
        Err(typ) => Some(unsupported_argument(typ, owner)),
        Ok(_) => match decl.output {
            Some(t) => match return_text(t, wrapped_type, config) {
                Err(typ) => Some(unsupported_return(typ, owner)),
                Ok(_) => None,
            },
            None => None,
        },
    }
}

/// The parameter list of a method as it is written: the texts of the
/// parameters with commas between them, or nothing when one cannot be bound.
pub open spec fn method_arguments(decl: FnDecl, wrapped_type: Seq<char>, config: Config) -> Seq<
    char,
> {
    match argument_texts(decl.inputs@, wrapped_type, config, decl.inputs@.len()) {
        Ok(arguments) => join(arguments, ","@),
        Err(_) => Seq::empty(),
    }
}

/// The result of a method as it is written: nothing for a method without a
/// result, else an arrow and the text of the result, the arrow alone when the
/// result cannot be bound.
pub open spec fn method_result(decl: FnDecl, wrapped_type: Seq<char>, config: Config) -> Seq<
    char,
> {
    match decl.output {
        Some(t) => "-> "@ + match return_text(t, wrapped_type, config) {
            Ok(text) => text,
            Err(_) => Seq::empty(),
        },
        None => Seq::empty(),
    }
}

/// The signature of the method `member` as it is written, under its
/// docstring.
pub open spec fn method_signature(
    doc: Document,
    member: Item,
    wrapped_type: Seq<char>,
    config: Config,
) -> Seq<char>
    recommends
        member.inner.decl() is Some,
        member.name is Some,
{
    let decl = member.inner.decl()->0;
    "\t"@ + method_docstring(doc, member.id.0@) + "\n\t\t\t"@ + member.name->0@ + "("@
        + method_arguments(decl, wrapped_type, config) + ") "@ + method_result(
        decl,
        wrapped_type,
        config,
    ) + " "@
}

/// The entry of the method `member`: its signature, or, when something in it
/// cannot be bound, the signature with each line turned into a comment and a
/// last comment line that says what cannot be bound.
pub open spec fn method_entry(
    doc: Document,
    member: Item,
    wrapped_type: Seq<char>,
    config: Config,
    owner: Seq<char>,
) -> Seq<char>
    recommends
        member.inner.decl() is Some,
        member.name is Some,
{
    let signature = method_signature(doc, member, wrapped_type, config);
    match method_error(member.inner.decl()->0, wrapped_type, config, owner) {
        Some(error) => prefix_lines(signature, "//"@) + "\n//\t\t\tError: "@ + error,
        None => signature,
    }
}

/// The entries of the functions and methods among the first `n` members
/// that `items` names, in order.
pub open spec fn method_entries(
    doc: Document,
    items: Seq<Id>,
    wrapped_type: Seq<char>,
    config: Config,
    owner: Seq<char>,
    n: nat,
) -> Seq<Seq<char>>
    decreases n,
{
    if n == 0 || n > items.len() {
        Seq::empty()
    } else {
        let done = method_entries(doc, items, wrapped_type, config, owner, (n - 1) as nat);
        let member = doc.item(items[n - 1].0@);
        if member.inner.decl() is Some {
            done.push(method_entry(doc, member, wrapped_type, config, owner))
        } else {
            done
        }
    }
}

/// The entries of the own methods of `item`, when it has a block of its own.
pub open spec fn auto_methods(doc: Document, item: Item, config: Config) -> Option<Seq<char>> {
    match own_block(doc, item) {
        Some(block) => Some(
            join(
                method_entries(
                    doc,
                    block.items@,
                    item.name->0@,
                    config,
                    debug_name_text(item.name.deep_view()),
                    block.items@.len(),
                ),
                ",\n\t\t"@,
            ),
        ),
        None => None,
    }
}

/// The separator between the clauses of a clause body.
pub open spec fn clause_separator() -> Seq<char> {
    ",\n\t\t\t"@
}

/// The clauses of a unary operator written `rep` that is implemented
/// `count` times: one for each implementation.
pub open spec fn unary_clauses(rep: Seq<char>, count: nat) -> Seq<Seq<char>> {
    Seq::new(count, |i: int| rep + " self"@)
}

/// The unary operator clauses of `item`: one negation clause for each of its
/// members called `neg`.
pub open spec fn unary_ops(doc: Document, item: Item) -> Seq<char> {
    join(
        unary_clauses("Neg"@, named(all_members(doc, item), "neg"@).len()),
        clause_separator(),
    )
}

/// The binary operators that are bound: the name of each one's method and
/// how the operator is written, in the order in which they are written.
pub open spec fn binary_operators() -> Seq<(Seq<char>, Seq<char>)> {
    seq![
        ("add"@, "Add"@),
        ("sub"@, "Sub"@),
        ("div"@, "Div"@),
        ("mul"@, "Mul"@),
        ("rem"@, "Rem"@),
    ]
}

/// The condition of naming a type alias called `Output`, on the identifiers
/// of the members of a block.
pub open spec fn names_output(doc: Document) -> spec_fn(Id) -> bool {
    |id: Id| doc.item(id.0@).inner is Typedef && is_named(doc.item(id.0@), "Output"@)
}

/// The type behind the first type alias called `Output` among the members of
/// `block`: the result of the operator that the block implements.
pub open spec fn output_type(doc: Document, block: Impl) -> Option<Type> {
    let at = first_index(block.items@, names_output(doc));
    if at < block.items@.len() {
        Some(doc.item(block.items@[at].0@).inner->Typedef_0)
    } else {
        None
    }
}

/// The texts of the first `n` operands of an operator implemented for
/// `self_type`, or nothing when the name of one is rejected, its shape cannot
/// be rendered, or its text is empty.
pub open spec fn operand_texts(
    inputs: Seq<(String, Type)>,
    self_type: Seq<char>,
    wrapped_type: Seq<char>,
    config: Config,
    n: nat,
) -> Option<Seq<Seq<char>>>
    decreases n,
{
    if n == 0 || n > inputs.len() {
        Some(Seq::empty())
    } else {
        match operand_texts(inputs, self_type, wrapped_type, config, (n - 1) as nat) {
            None => None,
            Some(done) => match rendered(
                inputs[n - 1].1,
                op_transform(self_type, wrapped_type, config, n == 1, false),
            ) {
                Ok(text) => if text.len() > 0 {
                    Some(done.push(text))
                } else {
                    None
                },
                Err(_) => None,
            },
        }
    }
}

/// The expression of an operator written `rep`, implemented by `block` for
/// `self_type` with signature `decl`: the operands with the operator between
/// them, an arrow, and the block's `Output` type. Nothing when an operand
/// cannot be written, the block has no `Output` type, or that type cannot be
/// written.
pub open spec fn operator_expression(
    doc: Document,
    block: Impl,
    decl: FnDecl,
    self_type: Seq<char>,
    rep: Seq<char>,
    wrapped_type: Seq<char>,
    config: Config,
) -> Option<Seq<char>> {
    match operand_texts(decl.inputs@, self_type, wrapped_type, config, decl.inputs@.len()) {
        None => None,
        Some(operands) => match output_type(doc, block) {
            None => None,
            Some(output) => match rendered(
                output,
                op_transform(self_type, wrapped_type, config, false, true),
            ) {
                Ok(result) => Some(join(operands, " "@ + rep + " "@) + " -> "@ + result),
                Err(_) => None,
            },
        },
    }
}

/// What the operator written `rep` comes to for the member `pair`: its
/// expression, or the note that stands for it. The type that the block is
/// implemented for is rendered with its names unchanged; it has to be a
/// configured target or an accepted primitive, and the member a method whose
/// expression can be written. Otherwise the note says what is not supported.
pub open spec fn operator_outcome(
    doc: Document,
    pair: (Impl, Item),
    rep: Seq<char>,
    wrapped_type: Seq<char>,
    config: Config,
) -> Result<Seq<char>, Seq<char>> {
    let (block, member) = pair;
    match rendered(block.for_, identity_transform()) {
        Ok(self_type) => if config.is_target(self_type) || config.is_primitive(self_type) {
            match member.inner {
                ItemEnum::Method(m) => match operator_expression(
                    doc,
                    block,
                    m.decl,
                    self_type,
                    rep,
                    wrapped_type,
                    config,
                ) {
                    Some(expression) => Ok(expression),
                    None => Err(unsupported_operator(m.dump@)),
                },
                _ => Err(unsupported_member(rep)),
            }
        } else {
            Err(unsupported_lhs(block.for_dump@, rep))
        },
        Err(_) => Err(unsupported_lhs(block.for_dump@, rep)),
    }
}

/// The clause of the operator written `rep` for the member `pair`: its
/// expression, or a comment where it cannot be bound.
pub open spec fn operator_clause(
    doc: Document,
    pair: (Impl, Item),
    rep: Seq<char>,
    wrapped_type: Seq<char>,
    config: Config,
) -> Seq<char> {
    match operator_outcome(doc, pair, rep, wrapped_type, config) {
        Ok(expression) => expression,
        Err(note) => note,
    }
}

/// The clauses of the operator written `rep` for each of `pairs`.
pub open spec fn operator_clauses(
    doc: Document,
    pairs: Seq<(Impl, Item)>,
    rep: Seq<char>,
    wrapped_type: Seq<char>,
    config: Config,
) -> Seq<Seq<char>> {
    Seq::new(pairs.len(), |i: int| operator_clause(doc, pairs[i], rep, wrapped_type, config))
}

/// The clauses of the operator with method `op`, written `rep`, over all
/// blocks of `item` that implement it, with separators between them.
pub open spec fn operator_group(
    doc: Document,
    item: Item,
    config: Config,
    op: Seq<char>,
    rep: Seq<char>,
) -> Seq<char> {
    join(
        operator_clauses(doc, named(all_members(doc, item), op), rep, item.name->0@, config),
        clause_separator(),
    )
}

/// The groups of the first `n` binary operators, those that are not empty.
pub open spec fn binary_groups(doc: Document, item: Item, config: Config, n: nat) -> Seq<
    Seq<char>,
>
    decreases n,
{
    if n == 0 || n > binary_operators().len() {
        Seq::empty()
    } else {
        let done = binary_groups(doc, item, config, (n - 1) as nat);
        let (op, rep) = binary_operators()[n - 1];
        let group = operator_group(doc, item, config, op, rep);
        if group.len() > 0 {
            done.push(group)
        } else {
            done
        }
    }
}

/// The binary operator clauses of `item`: the groups of all binary
/// operators, in the operators' order, with separators between them.
pub open spec fn binary_ops(doc: Document, item: Item, config: Config) -> Seq<char> {
    join(binary_groups(doc, item, config, binary_operators().len()), clause_separator())
}

/// The derive flags of `entry`, each followed by a plus sign on a new line.
pub open spec fn derive_flags(entry: Newtype) -> Seq<char> {
    let flags = join(texts(entry.derive_flags@), "\n\t\t+ "@);
    if flags.len() > 0 {
        flags + "\n\t\t+ "@
    } else {
        flags
    }
}

/// The clause of the methods that are bound automatically, when `item` has
/// a block of its own.
pub open spec fn auto_methods_clause(doc: Document, item: Item, config: Config) -> Seq<char> {
    match auto_methods(doc, item, config) {
        Some(entries) => " \n\t\t+ AutoMethods(\n\t\t"@ + entries + "\n\t\t)"@,
        None => Seq::empty(),
    }
}

/// The clause body of the descriptor of `item`: its derive flags, its unary
/// and binary operator clauses, and the clause of its own methods.
pub open spec fn derive_flags_body(doc: Document, item: Item, entry: Newtype, config: Config) -> Seq<
    char,
> {
    derive_flags(entry) + "UnaryOps(\n\t\t\t"@ + unary_ops(doc, item)
        + "\n\t\t\t) \n\t\t+ BinOps(\n\t\t\t"@ + binary_ops(doc, item, config) + "\n\t\t\t)"@
        + auto_methods_clause(doc, item, config)
}

/// A parameter that cannot be bound among the first `n` is the one that is
/// reported for any longer prefix.
pub proof fn lemma_argument_texts_fails(
    inputs: Seq<(String, Type)>,
    wrapped_type: Seq<char>,
    config: Config,
    n: nat,
    m: nat,
)
    requires
        n <= m <= inputs.len(),
        argument_texts(inputs, wrapped_type, config, n) is Err,
    ensures
        argument_texts(inputs, wrapped_type, config, m) == argument_texts(
            inputs,
            wrapped_type,
            config,
            n,
        ),
    decreases m,
{
    if n < m {
        lemma_argument_texts_fails(inputs, wrapped_type, config, n, (m - 1) as nat);
    }
}

fn render_argument(t: &Type, wrapped_type: &String, config: &Config, is_first_arg: bool) -> (r:
    Result<String, String>)
    ensures
        view_result(r) == argument_text(*t, wrapped_type@, *config, is_first_arg),
{
    let policy = AutoMethodPolicy { wrapped_type, config, is_first_arg };
    match type_to_string(t, &policy) {
        Ok(text) => if is_valid_lua_fn_arg(text.as_str(), config) {
            Ok(text)
        } else {
            Err(text)
        },
        Err(reason) => Err(reason),
    }
}

pub(crate) fn render_return(t: &Type, wrapped_type: &String, config: &Config) -> (r: Result<
    String,
    String,
>)
    ensures
        view_result(r) == return_text(*t, wrapped_type@, *config),
{
    let policy = AutoMethodPolicy { wrapped_type, config, is_first_arg: false };
    match type_to_string(t, &policy) {
        Ok(text) => if is_valid_lua_fn_return_typ(text.as_str(), config) {
            Ok(text)
        } else {
            Err(text)
        },
        Err(reason) => Err(reason),
    }
}

pub(crate) fn render_arguments(inputs: &Vec<(String, Type)>, wrapped_type: &String, config: &Config) -> (r:
    Result<Vec<String>, String>)
    ensures
        match r {
            Ok(arguments) => argument_texts(inputs@, wrapped_type@, *config, inputs@.len())
                == Ok::<Seq<Seq<char>>, Seq<char>>(arguments.deep_view()),
            Err(typ) => argument_texts(inputs@, wrapped_type@, *config, inputs@.len()) == Err::<
                Seq<Seq<char>>,
                Seq<char>,
            >(typ@),
        },
{
    let mut arguments: Vec<String> = Vec::new();
    let mut i: usize = 0;
    proof {
        assert(arguments.deep_view() =~= Seq::<Seq<char>>::empty());
    }
    while i < inputs.len()
        invariant
            i <= inputs.len(),
            argument_texts(inputs@, wrapped_type@, *config, i as nat) == Ok::<
                Seq<Seq<char>>,
                Seq<char>,
            >(arguments.deep_view()),
        decreases inputs.len() - i,
    {
        let ghost before = arguments.deep_view();
        match render_argument(&inputs[i].1, wrapped_type, config, i == 0) {
            Ok(text) => {
                arguments.push(text);
                proof {
                    assert(arguments.deep_view() =~= before.push(text@));
                }
            },
            Err(typ) => {
                proof {
                    lemma_argument_texts_fails(
                        inputs@,
                        wrapped_type@,
                        *config,
                        (i + 1) as nat,
                        inputs@.len(),
                    );
                }
                return Err(typ);
            },
        }
        i = i + 1;
    }
    Ok(arguments)
}

/// The method name and the spelling of the binary operator at position `at`.
pub(crate) fn binary_operator(at: usize) -> (r: (&'static str, &'static str))
    requires
        at < binary_operators().len(),
    ensures
        (r.0@, r.1@) == binary_operators()[at as int],
{
    if at == 0 {
        ("add", "Add")
    } else if at == 1 {
        ("sub", "Sub")
    } else if at == 2 {
        ("div", "Div")
    } else if at == 3 {
        ("mul", "Mul")
    } else {
        ("rem", "Rem")
    }
}

/// An operand that cannot be written among the first `n` leaves nothing for
/// any longer prefix.
pub proof fn lemma_operand_texts_fails(
    inputs: Seq<(String, Type)>,
    self_type: Seq<char>,
    wrapped_type: Seq<char>,
    config: Config,
    n: nat,
    m: nat,
)
    requires
        n <= m <= inputs.len(),
        operand_texts(inputs, self_type, wrapped_type, config, n) is None,
    ensures
        operand_texts(inputs, self_type, wrapped_type, config, m) is None,
    decreases m,
{
    if n < m {
        lemma_operand_texts_fails(inputs, self_type, wrapped_type, config, n, (m - 1) as nat);
    }
}

fn render_operands(
    inputs: &Vec<(String, Type)>,
    self_type: &String,
    wrapped_type: &String,
    config: &Config,
) -> (r: Option<Vec<String>>)
    ensures
        r.deep_view() == operand_texts(
            inputs@,
            self_type@,
            wrapped_type@,
            *config,
            inputs@.len(),
        ),
{
    let mut operands: Vec<String> = Vec::new();
    let mut i: usize = 0;
    proof {
        assert(operands.deep_view() =~= Seq::<Seq<char>>::empty());
    }
    while i < inputs.len()
        invariant
            i <= inputs.len(),
            operand_texts(inputs@, self_type@, wrapped_type@, *config, i as nat) == Some(
                operands.deep_view(),
            ),
        decreases inputs.len() - i,
    {
        let ghost before = operands.deep_view();
        let policy = OperatorPolicy {
            self_type,
            wrapped_type,
            config,
            is_first_arg: i == 0,
            is_return_type: false,
        };
        match type_to_string(&inputs[i].1, &policy) {
            Ok(text) => {
                if text.as_str().is_empty() {
                    proof {
                        lemma_operand_texts_fails(
                            inputs@,
                            self_type@,
                            wrapped_type@,
                            *config,
                            (i + 1) as nat,
                            inputs@.len(),
                        );
                    }
                    return None;
                }
                operands.push(text);
                proof {
                    assert(operands.deep_view() =~= before.push(text@));
                }
            },
            Err(_) => {
                proof {
                    lemma_operand_texts_fails(
                        inputs@,
                        self_type@,
                        wrapped_type@,
                        *config,
                        (i + 1) as nat,
                        inputs@.len(),
                    );
                }
                return None;
            },
        }
        i = i + 1;
    }
    Some(operands)
}

/// Finds the type behind the first type alias called `Output` among the
/// members of `block`.
fn find_output_type<'a>(source: &'a Crate, block: &Impl) -> (r: Option<&'a Type>)
    requires
        block_resolves(source@, *block),
    ensures
        match r {
            Some(t) => output_type(source@, *block) == Some(*t),
            None => output_type(source@, *block) is None,
        },
{
    let mut i: usize = 0;
    while i < block.items.len()
        invariant
            i <= block.items.len(),
            block_resolves(source@, *block),
            forall|k: int| 0 <= k < i ==> !names_output(source@)(#[trigger] block.items@[k]),
        decreases block.items.len() - i,
    {
        match source.get(&block.items[i]) {
            Some(member) => {
                match &member.inner {
                    ItemEnum::Typedef(t) => {
                        let called_output = match &member.name {
                            Some(name) => *name.as_str() == *"Output",
                            None => false,
                        };
                        if called_output {
                            proof {
                                lemma_first_index_is(
                                    block.items@,
                                    names_output(source@),
                                    i as int,
                                );
                            }
                            return Some(t);
                        }
                    },
                    _ => {},
                }
            },
            None => {},
        }
        i = i + 1;
    }
    proof {
        lemma_first_index_is(block.items@, names_output(source@), i as int);
    }
    None
}

fn render_operator_expression(
    source: &Crate,
    block: &Impl,
    decl: &FnDecl,
    self_type: &String,
    rep: &str,
    wrapped_type: &String,
    config: &Config,
) -> (r: Option<String>)
    requires
        block_resolves(source@, *block),
    ensures
        r.deep_view() == operator_expression(
            source@,
            *block,
            *decl,
            self_type@,
            rep@,
            wrapped_type@,
            *config,
        ),
{
    let operands = match render_operands(&decl.inputs, self_type, wrapped_type, config) {
        Some(operands) => operands,
        None => {
            return None;
        },
    };
    let output = match find_output_type(source, block) {
        Some(output) => output,
        None => {
            return None;
        },
    };
    let policy = OperatorPolicy {
        self_type,
        wrapped_type,
        config,
        is_first_arg: false,
        is_return_type: true,
    };
    match type_to_string(output, &policy) {
        Ok(result) => {
            let mut infix = String::from_str(" ");
            infix.append(rep);
            infix.append(" ");
            let mut out = join_strings(&operands, infix.as_str());
            out.append(" -> ");
            out.append(result.as_str());
            Some(out)
        },
        Err(_) => None,
    }
}

pub(crate) fn render_operator_outcome(
    source: &Crate,
    pair: (usize, usize),
    rep: &str,
    wrapped_type: &String,
    config: &Config,
) -> (r: Result<String, String>)
    requires
        pair.0 < source.items().len(),
        pair.1 < source.items().len(),
        source.items()[pair.0 as int].inner is Impl,
        is_member(source@, located(*source, pair)),
    ensures
        view_result(r) == operator_outcome(
            source@,
            located(*source, pair),
            rep@,
            wrapped_type@,
            *config,
        ),
{
    let block = match &source.index[pair.0].inner {
        ItemEnum::Impl(block) => block,
        _ => {
            return Err(String::new());
        },
    };
    let member = &source.index[pair.1];
    let accepted = match type_to_string(&block.for_, &Identity) {
        Ok(self_type) => if config.contains_type(self_type.as_str()) || config.contains_primitive(
            self_type.as_str(),
        ) {
            Some(self_type)
        } else {
            None
        },
        Err(_) => None,
    };
    match accepted {
        Some(self_type) => match &member.inner {
            ItemEnum::Method(m) => match render_operator_expression(
                source,
                block,
                &m.decl,
                &self_type,
                rep,
                wrapped_type,
                config,
            ) {
                Some(expression) => Ok(expression),
                None => Err(unsupported_operator_message(m.dump.as_str())),
            },
            _ => Err(unsupported_member_message(rep)),
        },
        None => Err(unsupported_lhs_message(block.for_dump.as_str(), rep)),
    }
}

fn render_operator_clause(
    source: &Crate,
    pair: (usize, usize),
    rep: &str,
    wrapped_type: &String,
    config: &Config,
) -> (r: String)
    requires
        pair.0 < source.items().len(),
        pair.1 < source.items().len(),
        source.items()[pair.0 as int].inner is Impl,
        is_member(source@, located(*source, pair)),
    ensures
        r@ == operator_clause(source@, located(*source, pair), rep@, wrapped_type@, *config),
{
    match render_operator_outcome(source, pair, rep, wrapped_type, config) {
        Ok(expression) => expression,
        Err(note) => note,
    }
}

/// Words what cannot be bound in a method of the type called `owner`, from
/// what its parameters and its result came to.
pub(crate) fn signature_error(
    arguments: &Result<Vec<String>, String>,
    result: &Option<Result<String, String>>,
    owner: &Option<String>,
) -> (r: Option<String>)
    ensures
        r.deep_view() == match arguments {
            Err(typ) => Some(unsupported_argument(typ@, debug_name_text(owner.deep_view()))),
            Ok(_) => match result {
                Some(Err(typ)) => Some(
                    unsupported_return(typ@, debug_name_text(owner.deep_view())),
                ),
                _ => None,
            },
        },
{
    match arguments {
        Err(typ) => {
            let described = debug_name(owner);
            Some(unsupported_argument_message(typ.as_str(), described.as_str()))
        },
        Ok(_) => match result {
            Some(Err(typ)) => {
                let described = debug_name(owner);
                Some(unsupported_return_message(typ.as_str(), described.as_str()))
            },
            _ => None,
        },
    }
}

impl<'a> WrappedItem<'a> {
    /// Writes the entry of the method `member` with signature `decl`.
    fn method_entry(&self, member: &Item, decl: &FnDecl, config: &Config) -> (r: String)
        requires
            member.inner.decl() == Some(*decl),
            member.name is Some,
            self.source()@.resolves(member.id.0@),
        ensures
            r@ == method_entry(
                self.source()@,
                *member,
                self.item().name->0@,
                *config,
                debug_name_text(self.item().name.deep_view()),
            ),
    {
        proof {
            use_type_invariant(self);
        }
        let ghost wrapped = self.wrapped_type@;
        let arguments = render_arguments(&decl.inputs, self.wrapped_type, config);
        let result = match &decl.output {
            Some(t) => Some(render_return(t, self.wrapped_type, config)),
            None => None,
        };
        let error = signature_error(&arguments, &result, &self.item.name);
        let mut signature = String::from_str("\t");
        signature.append(self.get_method_docstring(&member.id).as_str());
        signature.append("\n\t\t\t");
        match &member.name {
            Some(name) => {
                signature.append(name.as_str());
            },
            None => {},
        }
        signature.append("(");
        match &arguments {
            Ok(texts) => {
                signature.append(join_strings(texts, ",").as_str());
            },
            Err(_) => {},
        }
        signature.append(") ");
        match &result {
            Some(text) => {
                signature.append("-> ");
                match text {
                    Ok(text) => {
                        signature.append(text.as_str());
                    },
                    Err(_) => {},
                }
            },
            None => {},
        }
        signature.append(" ");
        proof {
            assert(signature@ =~= method_signature(self.source@, *member, wrapped, *config));
        }
        match error {
            Some(error) => {
                let mut out = prefix_each_line(signature.as_str(), "//");
                out.append("\n//\t\t\tError: ");
                out.append(error.as_str());
                out
            },
            None => signature,
        }
    }

    /// Writes the entries of the type's own methods, when it has a block of
    /// its own.
    #[verifier::loop_isolation(false)]
    fn auto_methods_clause(&self, config: &Config) -> (r: Option<String>)
        ensures
            r.deep_view() == auto_methods(self.source()@, self.item(), *config),
    {
        proof {
            use_type_invariant(self);
        }
        let at = match self.self_impl() {
            Some(at) => at,
            None => {
                return None;
            },
        };
        let block = match &self.source.index[at].inner {
            ItemEnum::Impl(block) => block,
            _ => {
                return None;
            },
        };
        let ghost wrapped = self.wrapped_type@;
        let ghost owner = debug_name_text(self.item.name.deep_view());
        let mut entries: Vec<String> = Vec::new();
        let mut i: usize = 0;
        proof {
            assert(entries.deep_view() =~= Seq::<Seq<char>>::empty());
        }
        while i < block.items.len()
            invariant
                i <= block.items.len(),
                entries.deep_view() == method_entries(
                    self.source@,
                    block.items@,
                    wrapped,
                    *config,
                    owner,
                    i as nat,
                ),
            decreases block.items.len() - i,
        {
            let ghost before = entries.deep_view();
            match self.source.get(&block.items[i]) {
                Some(member) => {
                    proof {
                        lemma_item_position(self.source.items(), block.items@[i as int].0@);
                        lemma_item_resolves(
                            *self.source,
                            item_position(self.source.items(), block.items@[i as int].0@),
                        );
                    }
                    match &member.inner {
                        ItemEnum::Function(f) => {
                            let entry = self.method_entry(member, &f.decl, config);
                            entries.push(entry);
                            proof {
                                assert(entries.deep_view() =~= before.push(entry@));
                            }
                        },
                        ItemEnum::Method(m) => {
                            let entry = self.method_entry(member, &m.decl, config);
                            entries.push(entry);
                            proof {
                                assert(entries.deep_view() =~= before.push(entry@));
                            }
                        },
                        _ => {},
                    }
                },
                None => {},
            }
            i = i + 1;
        }
        Some(join_strings(&entries, ",\n\t\t"))
    }

    /// Writes the unary operator clauses.
    fn unary_ops_clause(&self) -> (r: String)
        ensures
            r@ == unary_ops(self.source()@, self.item()),
    {
        let count = match self.members_named("neg") {
            Some(found) => found.len(),
            None => 0,
        };
        let mut clauses: Vec<String> = Vec::new();
        let mut i: usize = 0;
        proof {
            assert(clauses.deep_view() =~= unary_clauses("Neg"@, 0));
        }
        while i < count
            invariant
                i <= count,
                clauses.deep_view() == unary_clauses("Neg"@, i as nat),
            decreases count - i,
        {
            let ghost before = clauses.deep_view();
            let mut clause = String::from_str("Neg");
            clause.append(" self");
            clauses.push(clause);
            proof {
                assert(clauses.deep_view() =~= before.push(clause@));
                assert(before.push(clause@) =~= unary_clauses("Neg"@, (i + 1) as nat));
            }
            i = i + 1;
        }
        join_strings(&clauses, ",\n\t\t\t")
    }

    /// Writes the clauses of the operator with method `op`, written `rep`.
    #[verifier::loop_isolation(false)]
    fn operator_group(&self, config: &Config, op: &str, rep: &str) -> (r: String)
        ensures
            r@ == operator_group(self.source()@, self.item(), *config, op@, rep@),
    {
        proof {
            use_type_invariant(self);
        }
        let ghost pairs = named(all_members(self.source@, *self.item), op@);
        let mut clauses: Vec<String> = Vec::new();
        proof {
            assert(clauses.deep_view() =~= Seq::<Seq<char>>::empty());
        }
        match self.members_named(op) {
            Some(found) => {
                let mut i: usize = 0;
                while i < found.len()
                    invariant
                        i <= found.len(),
                        clauses.deep_view() == operator_clauses(
                            self.source@,
                            pairs.take(i as int),
                            rep@,
                            self.wrapped_type@,
                            *config,
                        ),
                    decreases found.len() - i,
                {
                    let ghost before = clauses.deep_view();
                    let clause = render_operator_clause(
                        self.source,
                        found[i],
                        rep,
                        self.wrapped_type,
                        config,
                    );
                    clauses.push(clause);
                    proof {
                        assert(clauses.deep_view() =~= before.push(clause@));
                        assert(before.push(clause@) =~= operator_clauses(
                            self.source@,
                            pairs.take(i + 1),
                            rep@,
                            self.wrapped_type@,
                            *config,
                        ));
                    }
                    i = i + 1;
                }
                proof {
                    assert(pairs.take(i as int) =~= pairs);
                }
            },
            None => {
                proof {
                    assert(pairs =~= Seq::<(Impl, Item)>::empty());
                    assert(clauses.deep_view() =~= operator_clauses(
                        self.source@,
                        pairs,
                        rep@,
                        self.wrapped_type@,
                        *config,
                    ));
                }
            },
        }
        join_strings(&clauses, ",\n\t\t\t")
    }

    /// Writes the binary operator clauses.
    fn binary_ops_clause(&self, config: &Config) -> (r: String)
        ensures
            r@ == binary_ops(self.source()@, self.item(), *config),
    {
        let mut groups: Vec<String> = Vec::new();
        let mut i: usize = 0;
        proof {
            assert(groups.deep_view() =~= Seq::<Seq<char>>::empty());
        }
        while i < 5
            invariant
                i <= 5,
                binary_operators().len() == 5,
                groups.deep_view() == binary_groups(
                    self.source()@,
                    self.item(),
                    *config,
                    i as nat,
                ),
            decreases 5 - i,
        {
            let ghost before = groups.deep_view();
            let (op, rep) = binary_operator(i);
            let group = self.operator_group(config, op, rep);
            if !group.as_str().is_empty() {
                groups.push(group);
                proof {
                    assert(groups.deep_view() =~= before.push(group@));
                }
            }
            i = i + 1;
        }
        join_strings(&groups, ",\n\t\t\t")
    }

    /// Writes the clause body of the descriptor: the derive flags, the unary
    /// and binary operator clauses, and the clause of the type's own
    /// methods.
    pub fn get_derive_flags_body(&self, config: &Config) -> (r: String)
        ensures
            r@ == derive_flags_body(self.source()@, self.item(), self.entry(), *config),
    {
        let auto_methods = self.auto_methods_clause(config);
        let unary = self.unary_ops_clause();
        let binary = self.binary_ops_clause(config);
        proof {
            assert(self.config.derive_flags.deep_view() =~= texts(self.config.derive_flags@));
        }
        let mut out = join_strings(&self.config.derive_flags, "\n\t\t+ ");
        if !out.as_str().is_empty() {
            out.append("\n\t\t+ ");
        }
        out.append("UnaryOps(\n\t\t\t");
        out.append(unary.as_str());
        out.append("\n\t\t\t) \n\t\t+ BinOps(\n\t\t\t");
        out.append(binary.as_str());
        out.append("\n\t\t\t)");
        match auto_methods {
            Some(entries) => {
                out.append(" \n\t\t+ AutoMethods(\n\t\t");
                out.append(entries.as_str());
                out.append("\n\t\t)");
            },
            None => {},
        }
        proof {
            assert(out@ =~= derive_flags_body(
                self.source()@,
                self.item(),
                self.entry(),
                *config,
            ));
        }
        out
    }
}

} // verus!
