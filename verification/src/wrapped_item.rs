//! A type to wrap, resolved against its document: its implementation
//! blocks, the block that holds its own methods, and every member of every
//! block, found by name.
//!
//! A member is the pair of its block and its own item. The resolved type
//! keeps each as a position in the document's item list.

use vstd::prelude::*;
use vstd::string::*;
use indexmap::IndexMap;
use crate::config::{Newtype, WrapperType, WRAPPER_PREFIX};
use crate::document::{lemma_item_position, Crate, Document, Id, Impl, Item, ItemEnum};
use crate::name_index::{
    distinct_keys, index_entries, index_get, index_insert, index_new, key_index, lemma_key_index,
};
use crate::text::{
    concat_all, join, join_strings, lemma_concat_all_push, prefix_each_line, prefix_lines, repeat,
    repeat_str, texts,
};

verus! {

/// Why a type could not be resolved against its document.
#[derive(Clone, Copy, Debug, PartialEq, Eq, Structural)]
pub enum ResolveError {
    /// The item is neither a struct nor an enum.
    NotStructOrEnum,
    /// The item has no name.
    UnnamedItem,
    /// The identifier of an implementation block resolves to no item.
    UnresolvedImpl,
    /// The identifier of an implementation block resolves to an item of
    /// another kind.
    ExpectedImpl,
    /// The identifier of a member resolves to no item.
    UnresolvedMember,
    /// A member has no name.
    UnnamedMember,
    /// The document records no path for the item.
    MissingPath,
}

/// Whether `item` is called `name`.
pub open spec fn is_named(item: Item, name: Seq<char>) -> bool {
    item.name matches Some(n) && n@ == name
}

/// The first `n` members of `block`, each paired with the block, in order.
/// Fails at the first identifier that resolves to nothing or to an item
/// without a name.
pub open spec fn block_members(doc: Document, block: Impl, n: nat) -> Result<
    Seq<(Impl, Item)>,
    ResolveError,
>
    decreases n,
{
    if n == 0 || n > block.items@.len() {
        Ok(Seq::empty())
    } else {
        match block_members(doc, block, (n - 1) as nat) {
            Err(e) => Err(e),
            Ok(done) => {
                let id = block.items@[n - 1].0@;
                if !doc.resolves(id) {
                    Err(ResolveError::UnresolvedMember)
                } else if doc.item(id).name is None {
                    Err(ResolveError::UnnamedMember)
                } else {
                    Ok(done.push((block, doc.item(id))))
                }
            },
        }
    }
}

/// The members of the blocks behind the first `n` identifiers of `impls`, in
/// the order of the blocks and, within a block, of its members. Fails at the
/// first identifier that does not resolve to a block, or at the first member
/// of a block that fails.
pub open spec fn members(doc: Document, impls: Seq<Id>, n: nat) -> Result<
    Seq<(Impl, Item)>,
    ResolveError,
>
    decreases n,
{
    if n == 0 || n > impls.len() {
        Ok(Seq::empty())
    } else {
        match members(doc, impls, (n - 1) as nat) {
            Err(e) => Err(e),
            Ok(done) => {
                let id = impls[n - 1].0@;
                if !doc.resolves(id) {
                    Err(ResolveError::UnresolvedImpl)
                } else {
                    match doc.item(id).inner {
                        ItemEnum::Impl(block) => match block_members(
                            doc,
                            block,
                            block.items@.len(),
                        ) {
                            Ok(found) => Ok(done + found),
                            Err(e) => Err(e),
                        },
                        _ => Err(ResolveError::ExpectedImpl),
                    }
                }
            },
        }
    }
}

/// The last block without a trait among the blocks behind the first `n`
/// identifiers of `impls`: the block of the type's own methods.
pub open spec fn self_block(doc: Document, impls: Seq<Id>, n: nat) -> Option<Impl>
    decreases n,
{
    if n == 0 || n > impls.len() {
        None
    } else {
        match doc.item(impls[n - 1].0@).inner {
            ItemEnum::Impl(block) => if block.trait_ is None {
                Some(block)
            } else {
                self_block(doc, impls, (n - 1) as nat)
            },
            _ => self_block(doc, impls, (n - 1) as nat),
        }
    }
}

/// Those of `pairs` whose member is called `name`, in order.
pub open spec fn named(pairs: Seq<(Impl, Item)>, name: Seq<char>) -> Seq<(Impl, Item)>
    decreases pairs.len(),
{
    if pairs.len() == 0 {
        Seq::empty()
    } else {
        let rest = named(pairs.drop_last(), name);
        if is_named(pairs.last().1, name) {
            rest.push(pairs.last())
        } else {
            rest
        }
    }
}

/// Why `item` cannot be resolved against `doc`, if it cannot.
pub open spec fn resolution_error(doc: Document, item: Item) -> Option<ResolveError> {
    match item.inner.impls() {
        None => Some(ResolveError::NotStructOrEnum),
        Some(impls) => if item.name is None {
            Some(ResolveError::UnnamedItem)
        } else {
            match members(doc, impls, impls.len()) {
                Err(e) => Some(e),
                Ok(_) => if doc.path(item.id.0@) is None {
                    Some(ResolveError::MissingPath)
                } else {
                    None
                },
            }
        },
    }
}

/// Every member of every block of `item`, as `members` lists them.
pub open spec fn all_members(doc: Document, item: Item) -> Seq<(Impl, Item)>
    recommends
        resolution_error(doc, item) is None,
{
    members(doc, item.inner.impls()->0, item.inner.impls()->0.len())->Ok_0
}

/// The block of `item`'s own methods, if it has one.
pub open spec fn own_block(doc: Document, item: Item) -> Option<Impl>
    recommends
        resolution_error(doc, item) is None,
{
    self_block(doc, item.inner.impls()->0, item.inner.impls()->0.len())
}

/// Every identifier of `block` resolves to a named item of `doc`.
pub open spec fn block_resolves(doc: Document, block: Impl) -> bool {
    forall|k: int|
        0 <= k < block.items@.len() ==> doc.resolves((#[trigger] block.items@[k]).0@) && doc.item(
            block.items@[k].0@,
        ).name is Some
}

/// `pair` is a block whose members resolve and a named item that resolves
/// by its own identifier.
pub open spec fn is_member(doc: Document, pair: (Impl, Item)) -> bool {
    &&& block_resolves(doc, pair.0)
    &&& pair.1.name is Some
    &&& doc.resolves(pair.1.id.0@)
}

/// The block and the member at the positions `at` of `source`.
pub open spec fn located(source: Crate, at: (usize, usize)) -> (Impl, Item) {
    (source.items()[at.0 as int].inner->Impl_0, source.items()[at.1 as int])
}

/// `positions` are the places in `source` of `pairs`, one for one.
pub open spec fn placed(
    source: Crate,
    positions: Seq<(usize, usize)>,
    pairs: Seq<(Impl, Item)>,
) -> bool {
    &&& positions.len() == pairs.len()
    &&& forall|k: int|
        0 <= k < positions.len() ==> {
            &&& (#[trigger] positions[k]).0 < source.items().len()
            &&& positions[k].1 < source.items().len()
            &&& source.items()[positions[k].0 as int].inner is Impl
            &&& located(source, positions[k]) == pairs[k]
        }
}

/// The name index `entries` and the lists `groups` hold `pairs` by member
/// name: each name that occurs has one slot, and the list in that slot holds
/// the places of the pairs of that name, in order.
pub open spec fn grouped(
    entries: Seq<(Seq<char>, usize)>,
    groups: Seq<Vec<(usize, usize)>>,
    source: Crate,
    pairs: Seq<(Impl, Item)>,
) -> bool {
    &&& entries.len() == groups.len()
    &&& distinct_keys(entries)
    &&& forall|i: int| 0 <= i < entries.len() ==> (#[trigger] entries[i]).1 == i
    &&& forall|i: int|
        0 <= i < groups.len() ==> placed(
            source,
            (#[trigger] groups[i])@,
            named(pairs, entries[i].0),
        )
    &&& forall|name: Seq<char>|
        key_index(entries, name) >= entries.len() ==> (#[trigger] named(pairs, name)).len() == 0
}

/// A failure among the first `n` members is the failure of any longer prefix.
pub proof fn lemma_block_members_fails(doc: Document, block: Impl, n: nat, m: nat)
    requires
        n <= m <= block.items@.len(),
        block_members(doc, block, n) is Err,
    ensures
        block_members(doc, block, m) == block_members(doc, block, n),
    decreases m,
{
    if n < m {
        lemma_block_members_fails(doc, block, n, (m - 1) as nat);
    }
}

/// A failure among the first `n` blocks is the failure of any longer prefix.
pub proof fn lemma_members_fails(doc: Document, impls: Seq<Id>, n: nat, m: nat)
    requires
        n <= m <= impls.len(),
        members(doc, impls, n) is Err,
    ensures
        members(doc, impls, m) == members(doc, impls, n),
    decreases m,
{
    if n < m {
        lemma_members_fails(doc, impls, n, (m - 1) as nat);
    }
}

/// The members that `block_members` lists are named items that the first
/// `n` identifiers of `block` resolve to, paired with `block`.
pub proof fn lemma_block_members_found(doc: Document, block: Impl, n: nat)
    requires
        n <= block.items@.len(),
        block_members(doc, block, n) is Ok,
    ensures
        forall|k: int|
            0 <= k < n ==> doc.resolves((#[trigger] block.items@[k]).0@) && doc.item(
                block.items@[k].0@,
            ).name is Some,
        block_members(doc, block, n)->Ok_0.len() == n,
        forall|k: int|
            0 <= k < n ==> #[trigger] block_members(doc, block, n)->Ok_0[k] == (
                block,
                doc.item(block.items@[k].0@),
            ),
    decreases n,
{
    if n > 0 {
        lemma_block_members_found(doc, block, (n - 1) as nat);
    }
}

/// Whether every item of `doc` resolves by its own identifier.
pub open spec fn self_resolving(doc: Document) -> bool {
    forall|id: Seq<char>| #[trigger] doc.resolves(id) ==> doc.resolves(doc.item(id).id.0@)
}

/// The pairs that `members` lists are members of `doc`.
pub proof fn lemma_members_found(doc: Document, impls: Seq<Id>, n: nat)
    requires
        n <= impls.len(),
        members(doc, impls, n) is Ok,
        self_resolving(doc),
    ensures
        forall|k: int|
            0 <= k < members(doc, impls, n)->Ok_0.len() ==> is_member(
                doc,
                #[trigger] members(doc, impls, n)->Ok_0[k],
            ),
    decreases n,
{
    if n > 0 {
        lemma_members_found(doc, impls, (n - 1) as nat);
        let block = doc.item(impls[n - 1].0@).inner->Impl_0;
        lemma_block_members_found(doc, block, block.items@.len());
        let done = members(doc, impls, (n - 1) as nat)->Ok_0;
        let found = block_members(doc, block, block.items@.len())->Ok_0;
        assert forall|k: int| 0 <= k < (done + found).len() implies is_member(
            doc,
            #[trigger] (done + found)[k],
        ) by {
            if k >= done.len() {
                let j = k - done.len();
                assert((done + found)[k] == found[j]);
                assert(doc.resolves(block.items@[j].0@));
            }
        }
    }
}

/// The block of a type's own methods is a block without a trait whose
/// members resolve.
pub proof fn lemma_self_block_found(doc: Document, impls: Seq<Id>, n: nat)
    requires
        n <= impls.len(),
        members(doc, impls, n) is Ok,
    ensures
        self_block(doc, impls, n) matches Some(block) ==> block_resolves(doc, block)
            && block.trait_ is None,
    decreases n,
{
    if n > 0 {
        lemma_self_block_found(doc, impls, (n - 1) as nat);
        let block = doc.item(impls[n - 1].0@).inner->Impl_0;
        lemma_block_members_found(doc, block, block.items@.len());
    }
}

/// What `named` lists for `pairs` with one more pair.
pub proof fn lemma_named_push(pairs: Seq<(Impl, Item)>, pair: (Impl, Item), name: Seq<char>)
    ensures
        named(pairs.push(pair), name) == if is_named(pair.1, name) {
            named(pairs, name).push(pair)
        } else {
            named(pairs, name)
        },
{
    assert(pairs.push(pair).drop_last() =~= pairs);
}

/// Every pair that `named` lists is one of `pairs`.
pub proof fn lemma_named_members(doc: Document, pairs: Seq<(Impl, Item)>, name: Seq<char>)
    requires
        forall|k: int| 0 <= k < pairs.len() ==> is_member(doc, #[trigger] pairs[k]),
    ensures
        forall|k: int|
            0 <= k < named(pairs, name).len() ==> is_member(doc, #[trigger] named(pairs, name)[k]),
    decreases pairs.len(),
{
    if pairs.len() > 0 {
        assert forall|k: int| 0 <= k < pairs.drop_last().len() implies is_member(
            doc,
            #[trigger] pairs.drop_last()[k],
        ) by {
            assert(pairs.drop_last()[k] == pairs[k]);
        }
        lemma_named_members(doc, pairs.drop_last(), name);
        let rest = named(pairs.drop_last(), name);
        assert forall|k: int| 0 <= k < named(pairs, name).len() implies is_member(
            doc,
            #[trigger] named(pairs, name)[k],
        ) by {
            if k < rest.len() {
                assert(named(pairs, name)[k] == rest[k]);
            } else {
                assert(named(pairs, name)[k] == pairs[pairs.len() - 1]);
            }
        }
    }
}

/// In the view of a document every item resolves by its own identifier.
pub proof fn lemma_self_resolving(source: Crate)
    ensures
        self_resolving(source@),
{
    assert forall|id: Seq<char>| #[trigger] source@.resolves(id) implies source@.resolves(
        source@.item(id).id.0@,
    ) by {
        lemma_item_position(source.items(), id);
    }
}

/// Files the member at the positions `at` under its name.
fn add_member(
    index: &mut IndexMap<String, usize>,
    groups: &mut Vec<Vec<(usize, usize)>>,
    source: &Crate,
    name: &String,
    at: (usize, usize),
    Ghost(pairs): Ghost<Seq<(Impl, Item)>>,
)
    requires
        grouped(index_entries(*old(index)), old(groups)@, *source, pairs),
        at.0 < source.items().len(),
        at.1 < source.items().len(),
        source.items()[at.0 as int].inner is Impl,
        source.items()[at.1 as int].name == Some(*name),
    ensures
        grouped(
            index_entries(*final(index)),
            final(groups)@,
            *source,
            pairs.push(located(*source, at)),
        ),
{
    let ghost entries = index_entries(*index);
    let ghost before = groups@;
    let ghost pair = located(*source, at);
    let ghost more = pairs.push(pair);
    proof {
        lemma_key_index(entries, name@);
        assert forall|n: Seq<char>| true implies #[trigger] named(more, n) == if n == name@ {
            named(pairs, n).push(pair)
        } else {
            named(pairs, n)
        } by {
            lemma_named_push(pairs, pair, n);
        }
    }
    match index_get(index, name.as_str()) {
        Some(slot) => {
            let ghost old_group = groups@[slot as int]@;
            groups[slot].push(at);
            proof {
                let found = key_index(entries, name@);
                assert(entries[found].1 == found);
                assert forall|i: int| 0 <= i < groups@.len() implies placed(
                    *source,
                    (#[trigger] groups@[i])@,
                    named(more, entries[i].0),
                ) by {
                    assert(placed(*source, before[i]@, named(pairs, entries[i].0)));
                    if i != found {
                        assert(entries[i].0 != entries[found].0);
                        assert(groups@[i] == before[i]);
                    } else {
                        assert(groups@[i]@ == old_group.push(at));
                    }
                }
                assert forall|n: Seq<char>| key_index(entries, n) >= entries.len() implies (
                #[trigger] named(more, n)).len() == 0 by {
                    assert(named(pairs, n).len() == 0);
                }
            }
        },
        None => {
            let slot = groups.len();
            index_insert(index, name.clone(), slot);
            let mut group: Vec<(usize, usize)> = Vec::new();
            group.push(at);
            groups.push(group);
            proof {
                let now = index_entries(*index);
                assert(now == entries.push((name@, slot)));
                assert(named(pairs, name@).len() == 0);
                assert(named(more, name@) =~= seq![pair]);
                assert forall|i: int, j: int| 0 <= i < j < now.len() implies (#[trigger] now[i]).0
                    != (#[trigger] now[j]).0 by {
                    if j == now.len() - 1 {
                        assert(entries[i].0 != name@);
                    } else {
                        assert(entries[i].0 != entries[j].0);
                    }
                }
                assert forall|i: int| 0 <= i < groups@.len() implies placed(
                    *source,
                    (#[trigger] groups@[i])@,
                    named(more, now[i].0),
                ) by {
                    if i < slot {
                        assert(groups@[i] == before[i]);
                        assert(placed(*source, before[i]@, named(pairs, entries[i].0)));
                        assert(entries[i].0 != name@);
                    }
                }
                assert forall|n: Seq<char>| key_index(now, n) >= now.len() implies (
                #[trigger] named(more, n)).len() == 0 by {
                    lemma_key_index(now, n);
                    lemma_key_index(entries, n);
                    if n == name@ {
                        assert(now[slot as int].0 == n);
                    }
                    if key_index(entries, n) < entries.len() {
                        let k = key_index(entries, n);
                        assert(now[k].0 == n);
                    }
                    assert(named(pairs, n).len() == 0);
                }
            }
        },
    }
}

/// `text` as a docstring at depth `tabs`: each of its lines on a line of its
/// own, behind `tabs` tabs and three slashes.
pub open spec fn docstring(text: Seq<char>, tabs: nat) -> Seq<char> {
    prefix_lines(text, repeat("\t"@, tabs) + "///"@)
}

/// The text of a docstring that may be absent.
pub open spec fn docs_text(docs: Option<String>) -> Seq<char> {
    match docs {
        Some(d) => d@,
        None => Seq::empty(),
    }
}

/// The path under which `item` is written: the one that `entry` gives, or
/// else the segments that `doc` records for it, joined by `::`.
pub open spec fn full_path(doc: Document, item: Item, entry: Newtype) -> Seq<char>
    recommends
        doc.path(item.id.0@) is Some,
{
    if entry.import_path@.len() == 0 {
        join(texts(doc.path(item.id.0@)->0), "::"@)
    } else {
        entry.import_path@
    }
}

/// The docstring of `item` as a wrapped type: the one that `entry` gives, or
/// else the item's own.
pub open spec fn type_docstring(item: Item, entry: Newtype) -> Seq<char> {
    docstring(
        match entry.doc {
            Some(d) => d@,
            None => docs_text(item.docs),
        },
        1,
    )
}

/// The docstring of the member that `id` resolves to.
pub open spec fn method_docstring(doc: Document, id: Seq<char>) -> Seq<char>
    recommends
        doc.resolves(id),
{
    docstring(docs_text(doc.item(id).docs), 3)
}

/// Each hand-written binding as it stands in a descriptor.
pub open spec fn manual_bindings(lines: Seq<String>) -> Seq<Seq<char>> {
    Seq::new(lines.len(), |i: int| "\n\t\t\t"@ + lines[i]@ + ";"@)
}

/// The hand-written bindings of `entry`, one to a line.
pub open spec fn impl_block_body(entry: Newtype) -> Seq<char> {
    concat_all(manual_bindings(entry.lua_methods@))
}

/// `at` is the place in `source` of `block`, if there is one.
pub open spec fn block_placed(source: Crate, at: Option<usize>, block: Option<Impl>) -> bool {
    match at {
        Some(at) => at < source.items().len() && source.items()[at as int].inner is Impl && block
            == Some(source.items()[at as int].inner->Impl_0),
        None => block is None,
    }
}

/// A type to wrap, with what was found for it in its document.
#[derive(Debug)]
pub struct WrappedItem<'a> {
    pub(crate) wrapper_type: WrapperType,
    pub(crate) wrapper_name: String,
    pub(crate) wrapped_type: &'a String,
    pub(crate) path_components: &'a Vec<String>,
    pub(crate) source: &'a Crate,
    pub(crate) config: &'a Newtype,
    pub(crate) item: &'a Item,
    /// The slot in `impl_groups` of each member name.
    pub(crate) impl_items: IndexMap<String, usize>,
    /// The places of the members of all blocks, by name.
    pub(crate) impl_groups: Vec<Vec<(usize, usize)>>,
    /// The place of the block of the type's own methods.
    pub(crate) self_impl: Option<usize>,
}

impl<'a> WrappedItem<'a> {
    /// The item resolves against its document, and the fields hold what the
    /// resolution gives.
    #[verifier::type_invariant]
    pub open(crate) spec fn wf(&self) -> bool {
        &&& resolution_error(self.source@, *self.item) is None
        &&& self.item.name == Some(*self.wrapped_type)
        &&& self.wrapper_name@ == WRAPPER_PREFIX@ + self.wrapped_type@
        &&& self.wrapper_type == self.config.wrapper_type
        &&& self.source@.path(self.item.id.0@) == Some(self.path_components@)
        &&& block_placed(*self.source, self.self_impl, own_block(self.source@, *self.item))
        &&& grouped(
            index_entries(self.impl_items),
            self.impl_groups@,
            *self.source,
            all_members(self.source@, *self.item),
        )
    }

    /// The document that the item belongs to.
    pub open(crate) spec fn source(&self) -> Crate {
        *self.source
    }

    /// The item to wrap.
    pub open(crate) spec fn item(&self) -> Item {
        *self.item
    }

    /// The configured target that the item is wrapped for.
    pub open(crate) spec fn entry(&self) -> Newtype {
        *self.config
    }

    /// Resolves `item` against `source`, to be wrapped as `config` says.
    #[verifier::loop_isolation(false)]
    pub fn new(source: &'a Crate, item: &'a Item, config: &'a Newtype) -> (r: Result<
        WrappedItem<'a>,
        ResolveError,
    >)
        ensures
            match r {
                Ok(w) => resolution_error(source@, *item) is None && w.source() == *source
                    && w.item() == *item && w.entry() == *config,
                Err(e) => resolution_error(source@, *item) == Some(e),
            },
    {
        let impls = match &item.inner {
            ItemEnum::Struct { impls } => impls,
            ItemEnum::Enum { impls } => impls,
            _ => {
                return Err(ResolveError::NotStructOrEnum);
            },
        };
        let wrapped_type = match &item.name {
            Some(name) => name,
            None => {
                return Err(ResolveError::UnnamedItem);
            },
        };
        let mut self_impl: Option<usize> = None;
        let mut impl_items = index_new();
        let mut impl_groups: Vec<Vec<(usize, usize)>> = Vec::new();
        let ghost mut pairs: Seq<(Impl, Item)> = Seq::empty();
        let ghost doc = source@;
        let mut i: usize = 0;
        while i < impls.len()
            invariant
                i <= impls.len(),
                members(doc, impls@, i as nat) == Ok::<Seq<(Impl, Item)>, ResolveError>(pairs),
                block_placed(*source, self_impl, self_block(doc, impls@, i as nat)),
                grouped(index_entries(impl_items), impl_groups@, *source, pairs),
            decreases impls.len() - i,
        {
            let at = match source.position(&impls[i]) {
                Some(at) => at,
                None => {
                    proof {
                        lemma_members_fails(doc, impls@, (i + 1) as nat, impls@.len());
                    }
                    return Err(ResolveError::UnresolvedImpl);
                },
            };
            let block = match &source.index[at].inner {
                ItemEnum::Impl(block) => block,
                _ => {
                    proof {
                        lemma_members_fails(doc, impls@, (i + 1) as nat, impls@.len());
                    }
                    return Err(ResolveError::ExpectedImpl);
                },
            };
            if block.trait_.is_none() {
                self_impl = Some(at);
            }
            let ghost before = pairs;
            let ghost mut found: Seq<(Impl, Item)> = Seq::empty();
            let mut j: usize = 0;
            while j < block.items.len()
                invariant
                    j <= block.items.len(),
                    block_members(doc, *block, j as nat) == Ok::<Seq<(Impl, Item)>, ResolveError>(
                        found,
                    ),
                    pairs == before + found,
                    grouped(index_entries(impl_items), impl_groups@, *source, pairs),
                decreases block.items.len() - j,
            {
                let member = match source.position(&block.items[j]) {
                    Some(member) => member,
                    None => {
                        proof {
                            lemma_block_members_fails(
                                doc,
                                *block,
                                (j + 1) as nat,
                                block.items@.len(),
                            );
                            lemma_members_fails(doc, impls@, (i + 1) as nat, impls@.len());
                        }
                        return Err(ResolveError::UnresolvedMember);
                    },
                };
                let name = match &source.index[member].name {
                    Some(name) => name,
                    None => {
                        proof {
                            lemma_block_members_fails(
                                doc,
                                *block,
                                (j + 1) as nat,
                                block.items@.len(),
                            );
                            lemma_members_fails(doc, impls@, (i + 1) as nat, impls@.len());
                        }
                        return Err(ResolveError::UnnamedMember);
                    },
                };
                add_member(
                    &mut impl_items,
                    &mut impl_groups,
                    source,
                    name,
                    (at, member),
                    Ghost(pairs),
                );
                proof {
                    found = found.push(located(*source, (at, member)));
                    pairs = pairs.push(located(*source, (at, member)));
                    assert(pairs =~= before + found);
                }
                j = j + 1;
            }
            i = i + 1;
        }
        let path_components = match source.get_path(&item.id) {
            Some(path) => path,
            None => {
                return Err(ResolveError::MissingPath);
            },
        };
        let mut wrapper_name = String::from_str(WRAPPER_PREFIX);
        wrapper_name.append(wrapped_type.as_str());
        Ok(
            WrappedItem {
                wrapper_type: config.wrapper_type,
                wrapper_name,
                wrapped_type,
                path_components,
                source,
                config,
                item,
                impl_items,
                impl_groups,
                self_impl,
            },
        )
    }

    /// The name of the wrapper.
    pub fn wrapper_name(&self) -> (r: &String)
        ensures
            r@ == WRAPPER_PREFIX@ + self.item().name->0@,
    {
        proof {
            use_type_invariant(self);
        }
        &self.wrapper_name
    }

    /// The name of the wrapped type.
    pub fn wrapped_type(&self) -> (r: &'a String)
        ensures
            self.item().name == Some(*r),
    {
        proof {
            use_type_invariant(self);
        }
        self.wrapped_type
    }

    /// How the wrapper is classified.
    pub fn wrapper_type(&self) -> (r: WrapperType)
        ensures
            r == self.entry().wrapper_type,
    {
        proof {
            use_type_invariant(self);
        }
        self.wrapper_type
    }

    /// The position of the block of the type's own methods, if it has one.
    pub fn self_impl(&self) -> (r: Option<usize>)
        ensures
            block_placed(self.source(), r, own_block(self.source()@, self.item())),
            own_block(self.source()@, self.item()) matches Some(block) ==> block_resolves(
                self.source()@,
                block,
            ) && block.trait_ is None,
    {
        proof {
            use_type_invariant(self);
            let impls = self.item.inner.impls()->0;
            lemma_self_block_found(self.source@, impls, impls.len());
        }
        self.self_impl
    }

    /// The positions of the members called `name`, over all blocks, in the
    /// order in which they were found; `None` when there is none.
    pub fn members_named(&self, name: &str) -> (r: Option<&Vec<(usize, usize)>>)
        ensures
            match r {
                Some(found) => placed(
                    self.source(),
                    found@,
                    named(all_members(self.source()@, self.item()), name@),
                ),
                None => named(all_members(self.source()@, self.item()), name@).len() == 0,
            },
            forall|k: int|
                0 <= k < named(all_members(self.source()@, self.item()), name@).len()
                    ==> is_member(
                    self.source()@,
                    #[trigger] named(all_members(self.source()@, self.item()), name@)[k],
                ),
    {
        proof {
            use_type_invariant(self);
            let impls = self.item.inner.impls()->0;
            lemma_self_resolving(*self.source);
            lemma_members_found(self.source@, impls, impls.len());
            lemma_named_members(self.source@, all_members(self.source@, *self.item), name@);
            lemma_key_index(index_entries(self.impl_items), name@);
        }
        match index_get(&self.impl_items, name) {
            Some(slot) => Some(&self.impl_groups[slot]),
            None => None,
        }
    }

    /// `s` as a docstring at depth `tabs`: each of its lines on a line of its
    /// own, behind `tabs` tabs and three slashes.
    pub fn docstringify(s: String, tabs: usize) -> (r: String)
        ensures
            r@ == docstring(s@, tabs as nat),
    {
        let mut prefix = repeat_str("\t", tabs);
        prefix.append("///");
        prefix_each_line(s.as_str(), prefix.as_str())
    }

    /// The path under which the wrapped type is written.
    pub fn get_full_path(&self) -> (r: String)
        ensures
            r@ == full_path(self.source()@, self.item(), self.entry()),
    {
        proof {
            use_type_invariant(self);
            assert(self.path_components.deep_view() =~= texts(self.path_components@));
        }
        if self.config.import_path.as_str().is_empty() {
            join_strings(self.path_components, "::")
        } else {
            self.config.import_path.clone()
        }
    }

    /// The docstring of the wrapped type.
    pub fn get_type_docstring(&self) -> (r: String)
        ensures
            r@ == type_docstring(self.item(), self.entry()),
    {
        let text = match &self.config.doc {
            Some(d) => d.clone(),
            None => match &self.item.docs {
                Some(d) => d.clone(),
                None => String::new(),
            },
        };
        Self::docstringify(text, 1)
    }

    /// The docstring of the member that `id` resolves to.
    pub fn get_method_docstring(&self, id: &Id) -> (r: String)
        requires
            self.source()@.resolves(id.0@),
        ensures
            r@ == method_docstring(self.source()@, id.0@),
    {
        let text = match self.source.get(id) {
            Some(member) => match &member.docs {
                Some(d) => d.clone(),
                None => String::new(),
            },
            None => String::new(),
        };
        Self::docstringify(text, 3)
    }

    /// The hand-written bindings of the wrapped type, one to a line.
    pub fn get_impl_block_body(&self) -> (r: String)
        ensures
            r@ == impl_block_body(self.entry()),
    {
        let lines = &self.config.lua_methods;
        let mut out = String::new();
        let mut i: usize = 0;
        while i < lines.len()
            invariant
                i <= lines.len(),
                out@ == concat_all(manual_bindings(lines@).take(i as int)),
            decreases lines.len() - i,
        {
            proof {
                let all = manual_bindings(lines@);
                assert(all.take(i + 1) =~= all.take(i as int).push(all[i as int]));
                lemma_concat_all_push(all.take(i as int), all[i as int]);
            }
            out.append("\n\t\t\t");
            out.append(lines[i].as_str());
            out.append(";");
            i = i + 1;
        }
        proof {
            let all = manual_bindings(lines@);
            assert(all.take(i as int) =~= all);
        }
        out
    }
}

} // verus!
