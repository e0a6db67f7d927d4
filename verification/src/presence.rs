//! What is present in the clause body of a descriptor whatever else it
//! holds: the entry of each of the type's own methods, and with it the note on
//! a method that cannot be bound.

use vstd::prelude::*;
use crate::config::{Config, Newtype};
use crate::diagnostics::{debug_name_text, unsupported_argument, unsupported_lhs};
use crate::document::{Document, Id, Impl, Item};
use crate::emit::{
    argument_texts, auto_methods, auto_methods_clause, derive_flags_body, method_entries,
    method_entry, method_error, method_signature, operator_outcome,
};
use crate::stringify::{identity_transform, rendered};
use crate::text::{
    lemma_join_holds_part, lemma_occurs_between, lemma_occurs_within, occurs_in, prefix_lines,
};
use crate::wrapped_item::own_block;

verus! {

/// The entry of the member behind `items[k]`, a function or a method, is one
/// of the entries of the first `n` members, for every `n` beyond `k`.
proof fn lemma_entry_listed(
    doc: Document,
    items: Seq<Id>,
    wrapped_type: Seq<char>,
    config: Config,
    owner: Seq<char>,
    n: nat,
    k: int,
) -> (i: int)
    requires
        0 <= k < n <= items.len(),
        doc.item(items[k].0@).inner.decl() is Some,
    ensures
        0 <= i < method_entries(doc, items, wrapped_type, config, owner, n).len(),
        method_entries(doc, items, wrapped_type, config, owner, n)[i] == method_entry(
            doc,
            doc.item(items[k].0@),
            wrapped_type,
            config,
            owner,
        ),
    decreases n,
{
    if k == n - 1 {
        method_entries(doc, items, wrapped_type, config, owner, (n - 1) as nat).len() as int
    } else {
        lemma_entry_listed(doc, items, wrapped_type, config, owner, (n - 1) as nat, k)
    }
}

/// The entry of every own method of `item` stands in the clause body of its
/// descriptor, whatever the other members are and whether they can be bound.
pub proof fn lemma_method_entry_written(
    doc: Document,
    item: Item,
    entry: Newtype,
    config: Config,
    k: int,
)
    requires
        own_block(doc, item) matches Some(block) && 0 <= k < block.items@.len() && doc.item(
            block.items@[k].0@,
        ).inner.decl() is Some,
    ensures
        occurs_in(
            derive_flags_body(doc, item, entry, config),
            method_entry(
                doc,
                doc.item(own_block(doc, item)->0.items@[k].0@),
                item.name->0@,
                config,
                debug_name_text(item.name.deep_view()),
            ),
        ),
{
    let block = own_block(doc, item)->0;
    let owner = debug_name_text(item.name.deep_view());
    let wrapped = item.name->0@;
    let entries = method_entries(doc, block.items@, wrapped, config, owner, block.items@.len());
    let i = lemma_entry_listed(doc, block.items@, wrapped, config, owner, block.items@.len(), k);
    lemma_join_holds_part(entries, ",\n\t\t"@, i);
    let joined = auto_methods(doc, item, config)->0;
    let clause = auto_methods_clause(doc, item, config);
    lemma_occurs_between(" \n\t\t+ AutoMethods(\n\t\t"@, joined, "\n\t\t)"@);
    lemma_occurs_within(clause, joined, entries[i]);
    let body = derive_flags_body(doc, item, entry, config);
    let empty = Seq::<char>::empty();
    let head = body.subrange(0, body.len() - clause.len());
    assert(head + clause + empty =~= body);
    lemma_occurs_between(head, clause, empty);
    lemma_occurs_within(body, clause, entries[i]);
}

/// The entry of a method in which something cannot be bound holds the note
/// on it.
proof fn lemma_entry_holds_note(
    doc: Document,
    member: Item,
    wrapped_type: Seq<char>,
    config: Config,
    owner: Seq<char>,
)
    requires
        method_error(member.inner.decl()->0, wrapped_type, config, owner) is Some,
    ensures
        occurs_in(
            method_entry(doc, member, wrapped_type, config, owner),
            method_error(member.inner.decl()->0, wrapped_type, config, owner)->0,
        ),
{
    let note = method_error(member.inner.decl()->0, wrapped_type, config, owner)->0;
    let commented = prefix_lines(method_signature(doc, member, wrapped_type, config), "//"@);
    let empty = Seq::<char>::empty();
    lemma_occurs_between(commented + "\n//\t\t\tError: "@, note, empty);
    assert(commented + "\n//\t\t\tError: "@ + note + empty =~= commented + "\n//\t\t\tError: "@
        + note);
}

/// The note on a parameter holds the type in question.
proof fn lemma_note_holds_type(typ: Seq<char>, owner: Seq<char>)
    ensures
        occurs_in(unsupported_argument(typ, owner), typ),
{
    lemma_occurs_between("Unsupported argument `"@, typ, "` in type: `"@ + owner + "`."@);
    assert("Unsupported argument `"@ + typ + ("` in type: `"@ + owner + "`."@)
        =~= unsupported_argument(typ, owner));
}

/// An own method with a parameter that cannot be bound leaves its note in
/// the clause body: the words `Unsupported argument` with the type in
/// question and the description of the wrapped type.
pub proof fn lemma_unsupported_argument_noted(
    doc: Document,
    item: Item,
    entry: Newtype,
    config: Config,
    k: int,
)
    requires
        own_block(doc, item) matches Some(block) && 0 <= k < block.items@.len() && (doc.item(
            block.items@[k].0@,
        ).inner.decl() matches Some(decl) && argument_texts(
            decl.inputs@,
            item.name->0@,
            config,
            decl.inputs@.len(),
        ) is Err),
    ensures
        ({
            let decl = doc.item(own_block(doc, item)->0.items@[k].0@).inner.decl()->0;
            let typ = argument_texts(
                decl.inputs@,
                item.name->0@,
                config,
                decl.inputs@.len(),
            )->Err_0;
            let note = unsupported_argument(typ, debug_name_text(item.name.deep_view()));
            &&& occurs_in(derive_flags_body(doc, item, entry, config), note)
            &&& occurs_in(note, typ)
        }),
{
    let member = doc.item(own_block(doc, item)->0.items@[k].0@);
    let decl = member.inner.decl()->0;
    let owner = debug_name_text(item.name.deep_view());
    let typ = argument_texts(decl.inputs@, item.name->0@, config, decl.inputs@.len())->Err_0;
    lemma_method_entry_written(doc, item, entry, config, k);
    lemma_entry_holds_note(doc, member, item.name->0@, config, owner);
    lemma_occurs_within(
        derive_flags_body(doc, item, entry, config),
        method_entry(doc, member, item.name->0@, config, owner),
        unsupported_argument(typ, owner),
    );
    lemma_note_holds_type(typ, owner);
}

/// An operator implemented for a type that is neither a configured target
/// nor an accepted primitive comes to the note on its left-hand side,
/// whatever its member is.
pub proof fn lemma_unrelated_lhs_noted(
    doc: Document,
    block: Impl,
    member: Item,
    rep: Seq<char>,
    wrapped_type: Seq<char>,
    config: Config,
)
    requires
        rendered(block.for_, identity_transform()) matches Ok(lhs) ==> !config.is_target(lhs)
            && !config.is_primitive(lhs),
    ensures
        operator_outcome(doc, (block, member), rep, wrapped_type, config) == Err::<
            Seq<char>,
            Seq<char>,
        >(unsupported_lhs(block.for_dump@, rep)),
{
}

} // verus!
