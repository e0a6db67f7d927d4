//! The members of a wrapped type that cannot be bound, as a list: what the
//! descriptor says in comments, in a form that a program can inspect.

use vstd::prelude::*;
use vstd::string::*;
use crate::config::Config;
use crate::diagnostics::debug_name_text;
use crate::document::{Document, FnDecl, Id, Impl, Item, ItemEnum};
use crate::emit::{
    binary_operator, binary_operators, method_error, operator_outcome, render_arguments,
    render_operator_outcome, render_return, signature_error,
};
use crate::wrapped_item::{all_members, named, own_block, WrappedItem};

verus! {

/// One member that cannot be bound.
#[derive(Clone, Debug, PartialEq, Eq)]
pub struct Failure {
    /// The name of the wrapped type.
    pub wrapped_type: String,
    /// The name of the member.
    pub member: String,
    /// The note that the descriptor holds on it.
    pub reason: String,
}

impl View for Failure {
    type V = (Seq<char>, Seq<char>, Seq<char>);

    open spec fn view(&self) -> (Seq<char>, Seq<char>, Seq<char>) {
        (self.wrapped_type@, self.member@, self.reason@)
    }
}

/// The views of `list`.
pub open spec fn failure_views(list: Seq<Failure>) -> Seq<(Seq<char>, Seq<char>, Seq<char>)> {
    Seq::new(list.len(), |i: int| list[i]@)
}

/// The functions and methods among the first `n` members that `items` names
/// in which something cannot be bound, each with the note on it.
pub open spec fn method_failures(
    doc: Document,
    items: Seq<Id>,
    wrapped_type: Seq<char>,
    config: Config,
    owner: Seq<char>,
    n: nat,
) -> Seq<(Seq<char>, Seq<char>, Seq<char>)>
    decreases n,
{
    if n == 0 || n > items.len() {
        Seq::empty()
    } else {
        let done = method_failures(doc, items, wrapped_type, config, owner, (n - 1) as nat);
        let member = doc.item(items[n - 1].0@);
        match member.inner.decl() {
            Some(decl) => match method_error(decl, wrapped_type, config, owner) {
                Some(error) => done.push((wrapped_type, member.name->0@, error)),
                None => done,
            },
            None => done,
        }
    }
}

/// Those of the first `n` of `pairs`, members called `op`, for which the
/// operator written `rep` cannot be bound, each with the note on it.
pub open spec fn operator_failures(
    doc: Document,
    pairs: Seq<(Impl, Item)>,
    op: Seq<char>,
    rep: Seq<char>,
    wrapped_type: Seq<char>,
    config: Config,
    n: nat,
) -> Seq<(Seq<char>, Seq<char>, Seq<char>)>
    decreases n,
{
    if n == 0 || n > pairs.len() {
        Seq::empty()
    } else {
        let done = operator_failures(doc, pairs, op, rep, wrapped_type, config, (n - 1) as nat);
        match operator_outcome(doc, pairs[n - 1], rep, wrapped_type, config) {
            Ok(_) => done,
            Err(note) => done.push((wrapped_type, op, note)),
        }
    }
}

/// The implementations of the first `n` binary operators that cannot be
/// bound, in the order of the operators.
pub open spec fn binary_failures(doc: Document, item: Item, config: Config, n: nat) -> Seq<
    (Seq<char>, Seq<char>, Seq<char>),
>
    decreases n,
{
    if n == 0 || n > binary_operators().len() {
        Seq::empty()
    } else {
        let (op, rep) = binary_operators()[n - 1];
        let pairs = named(all_members(doc, item), op);
        binary_failures(doc, item, config, (n - 1) as nat) + operator_failures(
            doc,
            pairs,
            op,
            rep,
            item.name->0@,
            config,
            pairs.len(),
        )
    }
}

/// The own methods of `item` in which something cannot be bound.
pub open spec fn own_method_failures(doc: Document, item: Item, config: Config) -> Seq<
    (Seq<char>, Seq<char>, Seq<char>),
> {
    match own_block(doc, item) {
        Some(block) => method_failures(
            doc,
            block.items@,
            item.name->0@,
            config,
            debug_name_text(item.name.deep_view()),
            block.items@.len(),
        ),
        None => Seq::empty(),
    }
}

/// Every member of `item` that cannot be bound: the implementations of
/// binary operators first, then the type's own methods; each kind in the order
/// in which the descriptor writes it.
pub open spec fn failures(doc: Document, item: Item, config: Config) -> Seq<
    (Seq<char>, Seq<char>, Seq<char>),
> {
    binary_failures(doc, item, config, binary_operators().len()) + own_method_failures(
        doc,
        item,
        config,
    )
}

impl<'a> WrappedItem<'a> {
    /// Finds what cannot be bound in a method with signature `decl`.
    fn method_error(&self, decl: &FnDecl, config: &Config) -> (r: Option<String>)
        ensures
            r.deep_view() == method_error(
                *decl,
                self.item().name->0@,
                *config,
                debug_name_text(self.item().name.deep_view()),
            ),
    {
        proof {
            use_type_invariant(self);
        }
        let arguments = render_arguments(&decl.inputs, self.wrapped_type, config);
        let result = match &decl.output {
            Some(t) => Some(render_return(t, self.wrapped_type, config)),
            None => None,
        };
        signature_error(&arguments, &result, &self.item.name)
    }

    /// Adds the own methods in which something cannot be bound to `list`.
    #[verifier::loop_isolation(false)]
    fn add_method_failures(&self, config: &Config, list: &mut Vec<Failure>)
        ensures
            failure_views(final(list)@) == failure_views(old(list)@) + own_method_failures(
                self.source()@,
                self.item(),
                *config,
            ),
    {
        proof {
            use_type_invariant(self);
        }
        let ghost start = failure_views(list@);
        let at = match self.self_impl() {
            Some(at) => at,
            None => {
                proof {
                    assert(start + Seq::empty() =~= start);
                }
                return ;
            },
        };
        let block = match &self.source.index[at].inner {
            ItemEnum::Impl(block) => block,
            _ => {
                return ;
            },
        };
        let ghost wrapped = self.wrapped_type@;
        let ghost owner = debug_name_text(self.item.name.deep_view());
        let mut i: usize = 0;
        proof {
            assert(start + Seq::empty() =~= start);
        }
        while i < block.items.len()
            invariant
                i <= block.items.len(),
                failure_views(list@) == start + method_failures(
                    self.source@,
                    block.items@,
                    wrapped,
                    *config,
                    owner,
                    i as nat,
                ),
            decreases block.items.len() - i,
        {
            let ghost before = failure_views(list@);
            let ghost done = method_failures(
                self.source@,
                block.items@,
                wrapped,
                *config,
                owner,
                i as nat,
            );
            match self.source.get(&block.items[i]) {
                Some(member) => {
                    let error = match &member.inner {
                        ItemEnum::Function(f) => self.method_error(&f.decl, config),
                        ItemEnum::Method(m) => self.method_error(&m.decl, config),
                        _ => None,
                    };
                    match (error, &member.name) {
                        (Some(reason), Some(name)) => {
                            let failure = Failure {
                                wrapped_type: self.wrapped_type.clone(),
                                member: name.clone(),
                                reason,
                            };
                            list.push(failure);
                            proof {
                                assert(failure_views(list@) =~= before.push(failure@));
                                assert(before.push(failure@) =~= start + done.push(failure@));
                            }
                        },
                        _ => {},
                    }
                },
                None => {},
            }
            i = i + 1;
        }
    }

    /// Adds the implementations of the operator with method `op`, written
    /// `rep`, that cannot be bound to `list`.
    #[verifier::loop_isolation(false)]
    fn add_operator_failures(&self, config: &Config, op: &str, rep: &str, list: &mut Vec<Failure>)
        ensures
            failure_views(final(list)@) == failure_views(old(list)@) + operator_failures(
                self.source()@,
                named(all_members(self.source()@, self.item()), op@),
                op@,
                rep@,
                self.item().name->0@,
                *config,
                named(all_members(self.source()@, self.item()), op@).len(),
            ),
    {
        proof {
            use_type_invariant(self);
        }
        let ghost start = failure_views(list@);
        let ghost pairs = named(all_members(self.source@, *self.item), op@);
        let ghost wrapped = self.wrapped_type@;
        proof {
            assert(start + Seq::empty() =~= start);
        }
        match self.members_named(op) {
            Some(found) => {
                let mut i: usize = 0;
                while i < found.len()
                    invariant
                        i <= found.len(),
                        failure_views(list@) == start + operator_failures(
                            self.source@,
                            pairs,
                            op@,
                            rep@,
                            wrapped,
                            *config,
                            i as nat,
                        ),
                    decreases found.len() - i,
                {
                    let ghost before = failure_views(list@);
                    let ghost done = operator_failures(
                        self.source@,
                        pairs,
                        op@,
                        rep@,
                        wrapped,
                        *config,
                        i as nat,
                    );
                    match render_operator_outcome(
                        self.source,
                        found[i],
                        rep,
                        self.wrapped_type,
                        config,
                    ) {
                        Ok(_) => {},
                        Err(reason) => {
                            let failure = Failure {
                                wrapped_type: self.wrapped_type.clone(),
                                member: String::from_str(op),
                                reason,
                            };
                            list.push(failure);
                            proof {
                                assert(failure_views(list@) =~= before.push(failure@));
                                assert(before.push(failure@) =~= start + done.push(failure@));
                            }
                        },
                    }
                    i = i + 1;
                }
            },
            None => {},
        }
    }

    /// Lists every member that cannot be bound, with the note that the
    /// descriptor holds on it.
    pub fn failures(&self, config: &Config) -> (r: Vec<Failure>)
        ensures
            failure_views(r@) == failures(self.source()@, self.item(), *config),
    {
        let mut list: Vec<Failure> = Vec::new();
        let mut i: usize = 0;
        proof {
            assert(failure_views(list@) =~= Seq::empty());
        }
        while i < 5
            invariant
                i <= 5,
                binary_operators().len() == 5,
                failure_views(list@) == binary_failures(
                    self.source()@,
                    self.item(),
                    *config,
                    i as nat,
                ),
            decreases 5 - i,
        {
            let (op, rep) = binary_operator(i);
            self.add_operator_failures(config, op, rep, &mut list);
            i = i + 1;
        }
        self.add_method_failures(config, &mut list);
        list
    }
}

} // verus!
