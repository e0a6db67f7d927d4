//! The payload of a run: the import preamble, the list of types declared
//! elsewhere, the bindings of the primitives, and one descriptor for each type
//! of the documents that is a configured target, in the order of the
//! configuration.

use vstd::prelude::*;
use vstd::string::*;
use crate::catalog::{primitive_bindings, PRIMITIVE_BINDINGS};
use crate::config::{Config, Newtype, WrapperType};
use crate::document::{Crate, Document, Item};
use crate::emit::derive_flags_body;
use crate::search::{lemma_picked_push, picked};
use crate::text::{concat_all, join, join_strings, lemma_concat_all_push};
use crate::wrapped_item::{
    full_path, impl_block_body, resolution_error, type_docstring, ResolveError, WrappedItem,
};

verus! {

/// The clause body of a descriptor behind its colon, or nothing when the
/// body is empty.
pub open spec fn flags_part(body: Seq<char>) -> Seq<char> {
    if body.len() > 0 {
        ":\n        "@ + body
    } else {
        body
    }
}

/// The block of hand-written bindings of a descriptor, or nothing when
/// there are none.
pub open spec fn manual_part(body: Seq<char>) -> Seq<char> {
    if body.len() > 0 {
        "\n\timpl {\n"@ + body + "}"@
    } else {
        body
    }
}

/// The name of the wrapped type in parentheses for a wrapper that holds its
/// value directly, nothing for the others.
pub open spec fn wrapped_part(item: Item, entry: Newtype) -> Seq<char> {
    if entry.wrapper_type is NonReflect {
        "("@ + item.name->0@ + ")"@
    } else {
        Seq::empty()
    }
}

/// The descriptor of `item`: its docstring, its path, the classification of
/// its wrapper, the clause body, and the hand-written bindings.
pub open spec fn descriptor(doc: Document, item: Item, entry: Newtype, config: Config) -> Seq<
    char,
> {
    "{\n    "@ + type_docstring(item, entry) + "\n    "@ + full_path(doc, item, entry) + " : "@
        + entry.wrapper_type.spelling() + wrapped_part(item, entry) + flags_part(
        derive_flags_body(doc, item, entry, config),
    ) + " "@ + manual_part(impl_block_body(entry)) + "\n},\n"@
}

/// Whether `item` of `doc` is to be wrapped: it has the name of a
/// configured target, it is a struct or an enum, and it is defined in the
/// crate of `doc`.
pub open spec fn eligible(config: Config, doc: Document, item: Item) -> bool {
    item.name matches Some(name) && config.is_target(name@) && config.entries()[config.target_index(
        name@,
    )].matches(item, doc)
}

/// The item that the candidate `c` names: the document's number and the
/// item's position in it.
pub open spec fn candidate_item(crates: Seq<Crate>, c: (int, int)) -> Item {
    crates[c.0].items()[c.1]
}

/// The position of the candidate's target in the configuration.
pub open spec fn candidate_target(config: Config, crates: Seq<Crate>, c: (int, int)) -> int {
    config.target_index(candidate_item(crates, c).name->0@)
}

/// The eligible items among the first `n` items of document `d`.
pub open spec fn document_candidates(config: Config, crates: Seq<Crate>, d: int, n: nat) -> Seq<
    (int, int),
>
    decreases n,
{
    if n == 0 || n > crates[d].items().len() {
        Seq::empty()
    } else {
        let done = document_candidates(config, crates, d, (n - 1) as nat);
        if eligible(config, crates[d]@, crates[d].items()[n - 1]) {
            done.push((d, n - 1))
        } else {
            done
        }
    }
}

/// The eligible items of the first `docs` documents, in the order of the
/// documents and, within one, of its items.
pub open spec fn candidates(config: Config, crates: Seq<Crate>, docs: nat) -> Seq<(int, int)>
    decreases docs,
{
    if docs == 0 || docs > crates.len() {
        Seq::empty()
    } else {
        candidates(config, crates, (docs - 1) as nat) + document_candidates(
            config,
            crates,
            docs - 1,
            crates[docs - 1].items().len(),
        )
    }
}

/// Why the first eligible item among the first `n` of document `d` that
/// cannot be resolved cannot, if there is one.
pub open spec fn document_failure(config: Config, crates: Seq<Crate>, d: int, n: nat) -> Option<
    ResolveError,
>
    decreases n,
{
    if n == 0 || n > crates[d].items().len() {
        None
    } else {
        match document_failure(config, crates, d, (n - 1) as nat) {
            Some(e) => Some(e),
            None => if eligible(config, crates[d]@, crates[d].items()[n - 1]) {
                resolution_error(crates[d]@, crates[d].items()[n - 1])
            } else {
                None
            },
        }
    }
}

/// Why the first eligible item of the first `docs` documents that cannot be
/// resolved cannot, if there is one.
pub open spec fn failure(config: Config, crates: Seq<Crate>, docs: nat) -> Option<ResolveError>
    decreases docs,
{
    if docs == 0 || docs > crates.len() {
        None
    } else {
        match failure(config, crates, (docs - 1) as nat) {
            Some(e) => Some(e),
            None => document_failure(config, crates, docs - 1, crates[docs - 1].items().len()),
        }
    }
}

/// The condition of being a candidate for the target at position `k`.
pub open spec fn has_target(config: Config, crates: Seq<Crate>, k: int) -> spec_fn(
    (int, int),
) -> bool {
    |c: (int, int)| candidate_target(config, crates, c) == k
}

/// The candidates of the first `n` targets: target by target in the order of
/// the configuration, those of one target in the order in which they were
/// found.
pub open spec fn ordered(
    config: Config,
    crates: Seq<Crate>,
    found: Seq<(int, int)>,
    n: nat,
) -> Seq<(int, int)>
    decreases n,
{
    if n == 0 {
        Seq::empty()
    } else {
        ordered(config, crates, found, (n - 1) as nat) + picked(
            found,
            has_target(config, crates, n - 1),
            found.len(),
        )
    }
}

/// The descriptor of each of `list`.
pub open spec fn descriptors(config: Config, crates: Seq<Crate>, list: Seq<(int, int)>) -> Seq<
    Seq<char>,
> {
    Seq::new(
        list.len(),
        |i: int|
            descriptor(
                crates[list[i].0]@,
                candidate_item(crates, list[i]),
                config.entries()[candidate_target(config, crates, list[i])],
                config,
            ),
    )
}

/// The descriptors of a run, in the order of the configuration.
pub open spec fn generated_body(config: Config, crates: Seq<Crate>) -> Seq<char> {
    concat_all(
        descriptors(
            config,
            crates,
            ordered(
                config,
                crates,
                candidates(config, crates, crates.len()),
                config.entries().len(),
            ),
        ),
    )
}

/// The payload around the descriptors `body`.
pub open spec fn payload_around(config: Config, body: Seq<char>) -> Seq<char> {
    config.preamble() + "\n impl_lua_newtypes!(["@ + join(config.external_names(), ","@) + "][\n"@
        + PRIMITIVE_BINDINGS@ + body + "]);"@
}

/// The payload of a run.
pub open spec fn payload(config: Config, crates: Seq<Crate>) -> Seq<char> {
    payload_around(config, generated_body(config, crates))
}

/// A failure among the first `n` items of a document is the failure of any
/// longer prefix.
pub proof fn lemma_document_failure_stays(
    config: Config,
    crates: Seq<Crate>,
    d: int,
    n: nat,
    m: nat,
)
    requires
        n <= m <= crates[d].items().len(),
        document_failure(config, crates, d, n) is Some,
    ensures
        document_failure(config, crates, d, m) == document_failure(config, crates, d, n),
    decreases m,
{
    if n < m {
        lemma_document_failure_stays(config, crates, d, n, (m - 1) as nat);
    }
}

/// A failure among the first `n` documents is the failure of any longer
/// prefix.
pub proof fn lemma_failure_stays(config: Config, crates: Seq<Crate>, n: nat, m: nat)
    requires
        n <= m <= crates.len(),
        failure(config, crates, n) is Some,
    ensures
        failure(config, crates, m) == failure(config, crates, n),
    decreases m,
{
    if n < m {
        lemma_failure_stays(config, crates, n, (m - 1) as nat);
    }
}

/// Every candidate of `found` names a document of `crates` and an item
/// inside it.
pub open spec fn in_bounds(crates: Seq<Crate>, found: Seq<(int, int)>) -> bool {
    forall|i: int|
        0 <= i < found.len() ==> 0 <= (#[trigger] found[i]).0 < crates.len() && 0 <= found[i].1
            < crates[found[i].0].items().len()
}

impl<'a> WrappedItem<'a> {
    /// Writes the descriptor of the wrapped type.
    pub fn descriptor(&self, config: &Config) -> (r: String)
        ensures
            r@ == descriptor(self.source()@, self.item(), self.entry(), *config),
    {
        proof {
            use_type_invariant(self);
        }
        let flags = self.get_derive_flags_body(config);
        let manual = self.get_impl_block_body();
        let mut out = String::from_str("{\n    ");
        out.append(self.get_type_docstring().as_str());
        out.append("\n    ");
        out.append(self.get_full_path().as_str());
        out.append(" : ");
        out.append(self.wrapper_type.to_string().as_str());
        match self.wrapper_type {
            WrapperType::NonReflect => {
                out.append("(");
                out.append(self.wrapped_type.as_str());
                out.append(")");
            },
            _ => {},
        }
        if !flags.as_str().is_empty() {
            out.append(":\n        ");
            out.append(flags.as_str());
        }
        out.append(" ");
        if !manual.as_str().is_empty() {
            out.append("\n\timpl {\n");
            out.append(manual.as_str());
            out.append("}");
        }
        out.append("\n},\n");
        proof {
            assert(out@ =~= descriptor(self.source()@, self.item(), self.entry(), *config));
        }
        out
    }
}

/// `wrapped` and `targets` hold, for each of `found`, the resolved item and
/// the position of its target.
pub open spec fn collected(
    config: Config,
    crates: Seq<Crate>,
    found: Seq<(int, int)>,
    wrapped: Seq<WrappedItem>,
    targets: Seq<usize>,
) -> bool {
    &&& in_bounds(crates, found)
    &&& wrapped.len() == found.len()
    &&& targets.len() == found.len()
    &&& forall|i: int|
        0 <= i < found.len() ==> {
            &&& (#[trigger] wrapped[i]).source() == crates[found[i].0]
            &&& wrapped[i].item() == candidate_item(crates, found[i])
            &&& wrapped[i].entry() == config.entries()[candidate_target(config, crates, found[i])]
            &&& targets[i] == candidate_target(config, crates, found[i])
        }
}

/// Resolves the item at position `j` of document `d` when it is eligible.
fn collect_item<'a>(
    crates: &'a [Crate],
    config: &'a Config,
    d: usize,
    j: usize,
    wrapped: &mut Vec<WrappedItem<'a>>,
    targets: &mut Vec<usize>,
    Ghost(found): Ghost<Seq<(int, int)>>,
) -> (r: Result<bool, ResolveError>)
    requires
        d < crates@.len(),
        j < crates@[d as int].items().len(),
        collected(*config, crates@, found, old(wrapped)@, old(targets)@),
    ensures
        match r {
            Ok(taken) => {
                &&& taken == eligible(
                    *config,
                    crates@[d as int]@,
                    crates@[d as int].items()[j as int],
                )
                &&& taken ==> resolution_error(
                    crates@[d as int]@,
                    crates@[d as int].items()[j as int],
                ) is None
                &&& collected(
                    *config,
                    crates@,
                    if taken {
                        found.push((d as int, j as int))
                    } else {
                        found
                    },
                    final(wrapped)@,
                    final(targets)@,
                )
            },
            Err(e) => eligible(*config, crates@[d as int]@, crates@[d as int].items()[j as int])
                && resolution_error(crates@[d as int]@, crates@[d as int].items()[j as int])
                == Some(e),
        },
{
    let source = &crates[d];
    let item = &source.index[j];
    let name = match &item.name {
        Some(name) => name,
        None => {
            return Ok(false);
        },
    };
    let entry = match config.get(name.as_str()) {
        Some(entry) => entry,
        None => {
            return Ok(false);
        },
    };
    if !entry.matches_result(item, source) {
        return Ok(false);
    }
    let target = match config.get_index_of(name.as_str()) {
        Some(target) => target,
        None => 0,
    };
    match WrappedItem::new(source, item, entry) {
        Ok(w) => {
            wrapped.push(w);
            targets.push(target);
            Ok(true)
        },
        Err(e) => Err(e),
    }
}

/// Resolves the eligible items of document `d`.
fn collect_document<'a>(
    crates: &'a [Crate],
    config: &'a Config,
    d: usize,
    wrapped: &mut Vec<WrappedItem<'a>>,
    targets: &mut Vec<usize>,
    Ghost(before): Ghost<Seq<(int, int)>>,
) -> (r: Result<(), ResolveError>)
    requires
        d < crates@.len(),
        collected(*config, crates@, before, old(wrapped)@, old(targets)@),
    ensures
        match r {
            Ok(_) => document_failure(*config, crates@, d as int, crates@[d as int].items().len())
                is None && collected(
                *config,
                crates@,
                before + document_candidates(
                    *config,
                    crates@,
                    d as int,
                    crates@[d as int].items().len(),
                ),
                final(wrapped)@,
                final(targets)@,
            ),
            Err(e) => document_failure(
                *config,
                crates@,
                d as int,
                crates@[d as int].items().len(),
            ) == Some(e),
        },
{
    let ghost mut here: Seq<(int, int)> = Seq::empty();
    let mut j: usize = 0;
    proof {
        assert(before + here =~= before);
    }
    while j < crates[d].index.len()
        invariant
            d < crates@.len(),
            j <= crates@[d as int].items().len(),
            here == document_candidates(*config, crates@, d as int, j as nat),
            document_failure(*config, crates@, d as int, j as nat) is None,
            collected(*config, crates@, before + here, wrapped@, targets@),
        decreases crates@[d as int].items().len() - j,
    {
        match collect_item(crates, config, d, j, wrapped, targets, Ghost(before + here)) {
            Ok(taken) => {
                proof {
                    if taken {
                        assert((before + here).push((d as int, j as int)) =~= before + here.push(
                            (d as int, j as int),
                        ));
                        here = here.push((d as int, j as int));
                    }
                }
            },
            Err(e) => {
                proof {
                    lemma_document_failure_stays(
                        *config,
                        crates@,
                        d as int,
                        (j + 1) as nat,
                        crates@[d as int].items().len(),
                    );
                }
                return Err(e);
            },
        }
        j = j + 1;
    }
    Ok(())
}

/// Writes the descriptors of the candidates for the target at position `k`.
fn write_target(
    wrapped: &Vec<WrappedItem>,
    targets: &Vec<usize>,
    config: &Config,
    k: usize,
    body: &mut String,
    Ghost(crates): Ghost<Seq<Crate>>,
    Ghost(found): Ghost<Seq<(int, int)>>,
    Ghost(start): Ghost<Seq<(int, int)>>,
)
    requires
        collected(*config, crates, found, wrapped@, targets@),
        old(body)@ == concat_all(descriptors(*config, crates, start)),
    ensures
        final(body)@ == concat_all(
            descriptors(
                *config,
                crates,
                start + picked(found, has_target(*config, crates, k as int), found.len()),
            ),
        ),
{
    let ghost mut taken: Seq<(int, int)> = Seq::empty();
    let mut c: usize = 0;
    proof {
        assert(start + taken =~= start);
    }
    while c < wrapped.len()
        invariant
            c <= wrapped.len(),
            collected(*config, crates, found, wrapped@, targets@),
            taken == picked(found, has_target(*config, crates, k as int), c as nat),
            body@ == concat_all(descriptors(*config, crates, start + taken)),
        decreases wrapped.len() - c,
    {
        proof {
            lemma_picked_push(found, has_target(*config, crates, k as int), c as nat);
        }
        if targets[c] == k {
            let text = wrapped[c].descriptor(config);
            proof {
                let texts = descriptors(*config, crates, start + taken);
                let more = (start + taken).push(found[c as int]);
                assert(descriptors(*config, crates, more) =~= texts.push(text@));
                lemma_concat_all_push(texts, text@);
                assert(more =~= start + taken.push(found[c as int]));
                taken = taken.push(found[c as int]);
            }
            body.append(text.as_str());
        }
        c = c + 1;
    }
}

/// Writes the descriptors in the order of the configuration.
fn write_body(
    wrapped: &Vec<WrappedItem>,
    targets: &Vec<usize>,
    config: &Config,
    Ghost(crates): Ghost<Seq<Crate>>,
    Ghost(found): Ghost<Seq<(int, int)>>,
) -> (body: String)
    requires
        collected(*config, crates, found, wrapped@, targets@),
    ensures
        body@ == concat_all(
            descriptors(
                *config,
                crates,
                ordered(*config, crates, found, config.entries().len()),
            ),
        ),
{
    let mut body = String::new();
    let mut k: usize = 0;
    proof {
        assert(descriptors(*config, crates, ordered(*config, crates, found, 0)) =~= Seq::<
            Seq<char>,
        >::empty());
    }
    while k < config.len()
        invariant
            k <= config.entries().len(),
            collected(*config, crates, found, wrapped@, targets@),
            body@ == concat_all(
                descriptors(*config, crates, ordered(*config, crates, found, k as nat)),
            ),
        decreases config.entries().len() - k,
    {
        write_target(
            wrapped,
            targets,
            config,
            k,
            &mut body,
            Ghost(crates),
            Ghost(found),
            Ghost(ordered(*config, crates, found, k as nat)),
        );
        k = k + 1;
    }
    body
}

/// Writes the payload for the types of `crates` that `config` names. Fails
/// when one of them cannot be resolved against its document, with the reason
/// for the first such type.
pub fn generate_macros(crates: &[Crate], config: Config) -> (r: Result<String, ResolveError>)
    ensures
        match r {
            Ok(text) => failure(config, crates@, crates@.len()) is None && text@ == payload(
                config,
                crates@,
            ),
            Err(e) => failure(config, crates@, crates@.len()) == Some(e),
        },
{
    let mut wrapped: Vec<WrappedItem> = Vec::new();
    let mut targets: Vec<usize> = Vec::new();
    let mut d: usize = 0;
    while d < crates.len()
        invariant
            d <= crates@.len(),
            failure(config, crates@, d as nat) is None,
            collected(config, crates@, candidates(config, crates@, d as nat), wrapped@, targets@),
        decreases crates@.len() - d,
    {
        match collect_document(
            crates,
            &config,
            d,
            &mut wrapped,
            &mut targets,
            Ghost(candidates(config, crates@, d as nat)),
        ) {
            Ok(_) => {},
            Err(e) => {
                proof {
                    lemma_failure_stays(config, crates@, (d + 1) as nat, crates@.len());
                }
                return Err(e);
            },
        }
        d = d + 1;
    }
    let body = write_body(
        &wrapped,
        &targets,
        &config,
        Ghost(crates@),
        Ghost(candidates(config, crates@, crates@.len())),
    );
    let mut out = config.imports().clone();
    out.append("\n impl_lua_newtypes!([");
    out.append(join_strings(config.external_types(), ",").as_str());
    out.append("][\n");
    out.append(primitive_bindings());
    out.append(body.as_str());
    out.append("]);");
    proof {
        assert(out@ =~= payload(config, crates@));
    }
    Ok(out)
}

} // verus!
