//! The type graph of one analysed crate: its items, their implementation
//! blocks and members, and the type references that signatures are made of.
//! An identifier is resolved within the document that holds it, to the first
//! item that carries it.

use vstd::prelude::*;
use vstd::string::*;
use indexmap::IndexMap;
use crate::name_index::{
    entry_has_key, index_contains_key, index_entries, index_get, index_insert, index_new,
    key_index, lemma_key_index, slot_of,
};
use crate::search::{first_index, lemma_first_index, lemma_first_index_is};

verus! {

/// The identifier of an item within its document.
#[derive(Debug)]
pub struct Id(pub String);

/// A reference to a type, as it occurs in a signature.
#[derive(Debug)]
pub enum Type {
    /// A struct, enum or trait, by name.
    ResolvedPath { name: String },
    /// A type parameter; `Self` is one.
    Generic(String),
    /// A built-in type, by its spelling.
    Primitive(String),
    /// `(A, B, ...)`
    Tuple(Vec<Type>),
    /// `[T]`
    Slice(Box<Type>),
    /// `[T; len]`
    Array { type_: Box<Type>, len: String },
    /// `&'lifetime mut T`
    BorrowedRef { lifetime: Option<String>, mutable: bool, type_: Box<Type> },
    /// Any other shape, which cannot be rendered; `dump` describes it.
    Other { dump: String },
}

/// The parameters and the result of a function.
#[derive(Debug)]
pub struct FnDecl {
    pub inputs: Vec<(String, Type)>,
    pub output: Option<Type>,
}

/// A free or associated function.
#[derive(Debug)]
pub struct Function {
    pub decl: FnDecl,
}

/// A method; `dump` describes it in diagnostics.
#[derive(Debug)]
pub struct Method {
    pub decl: FnDecl,
    pub dump: String,
}

/// An implementation block; `for_dump` describes `for_` in diagnostics.
#[derive(Debug)]
pub struct Impl {
    pub trait_: Option<Type>,
    pub for_: Type,
    pub for_dump: String,
    pub items: Vec<Id>,
}

/// What an item is.
#[derive(Debug)]
pub enum ItemEnum {
    Struct { impls: Vec<Id> },
    Enum { impls: Vec<Id> },
    Function(Function),
    Method(Method),
    Typedef(Type),
    Impl(Impl),
    Other,
}

/// One item of a document.
#[derive(Debug)]
pub struct Item {
    pub id: Id,
    pub crate_id: u32,
    pub name: Option<String>,
    pub docs: Option<String>,
    pub inner: ItemEnum,
}

/// The canonical path of an item.
#[derive(Debug)]
pub struct ItemSummary {
    pub id: Id,
    pub path: Vec<String>,
}

/// One document: the items of a crate, the paths of its items, and the
/// numbers of the crates that are external to it.
#[derive(Debug)]
pub struct Crate {
    pub(crate) index: Vec<Item>,
    pub(crate) paths: Vec<ItemSummary>,
    pub(crate) external_crates: Vec<u32>,
    /// The position in `index` of the first item with each identifier.
    pub(crate) positions: IndexMap<String, usize>,
}

/// `entries` gives, for every identifier, the position of the first of
/// `items` that carries it, and nothing for an identifier that none carries.
pub open spec fn indexes(entries: Seq<(Seq<char>, usize)>, items: Seq<Item>) -> bool {
    forall|id: Seq<char>| #[trigger]
        slot_of(entries, id) == if item_position(items, id) < items.len() {
            Some(item_position(items, id) as usize)
        } else {
            None
        }
}

/// The condition of carrying the identifier `id`, on items.
pub open spec fn item_has_id(id: Seq<char>) -> spec_fn(Item) -> bool {
    |it: Item| it.id.0@ == id
}

/// The condition of carrying the identifier `id`, on path summaries.
pub open spec fn summary_has_id(id: Seq<char>) -> spec_fn(ItemSummary) -> bool {
    |p: ItemSummary| p.id.0@ == id
}

/// The position of the first item of `index` with identifier `id`, or
/// `index.len()` when none has it.
pub open spec fn item_position(index: Seq<Item>, id: Seq<char>) -> int {
    first_index(index, item_has_id(id))
}

/// The position of the first summary of `paths` with identifier `id`, or
/// `paths.len()` when none has it.
pub open spec fn path_position(paths: Seq<ItemSummary>, id: Seq<char>) -> int {
    first_index(paths, summary_has_id(id))
}

/// No identifier occurs twice in `index`.
pub open spec fn distinct_ids(index: Seq<Item>) -> bool {
    forall|i: int, j: int|
        0 <= i < j < index.len() ==> (#[trigger] index[i]).id.0@ != (#[trigger] index[j]).id.0@
}

impl ItemEnum {
    /// The implementation blocks of a struct or an enum.
    pub open spec fn impls(self) -> Option<Seq<Id>> {
        match self {
            ItemEnum::Struct { impls } => Some(impls@),
            ItemEnum::Enum { impls } => Some(impls@),
            _ => None,
        }
    }

    /// The signature of a function or a method.
    pub open spec fn decl(self) -> Option<FnDecl> {
        match self {
            ItemEnum::Function(f) => Some(f.decl),
            ItemEnum::Method(m) => Some(m.decl),
            _ => None,
        }
    }
}

/// What a document says, apart from the order of its lists: the item behind
/// each identifier, the path of each identifier, and the numbers of the
/// external crates.
pub struct Document {
    pub items: Map<Seq<char>, Item>,
    pub paths: Map<Seq<char>, Seq<String>>,
    pub external: Set<u32>,
}

impl Document {
    /// Whether some item carries `id`.
    pub open spec fn resolves(self, id: Seq<char>) -> bool {
        self.items.contains_key(id)
    }

    /// The item that `id` resolves to.
    pub open spec fn item(self, id: Seq<char>) -> Item
        recommends
            self.resolves(id),
    {
        self.items[id]
    }

    /// The path recorded for `id`, if there is one.
    pub open spec fn path(self, id: Seq<char>) -> Option<Seq<String>> {
        if self.paths.contains_key(id) {
            Some(self.paths[id])
        } else {
            None
        }
    }

    /// Whether `crate_id` is the number of an external crate.
    pub open spec fn is_external(self, crate_id: u32) -> bool {
        self.external.contains(crate_id)
    }
}

impl View for Crate {
    type V = Document;

    /// An identifier stands for the first item, and for the first path, that
    /// carries it.
    open spec fn view(&self) -> Document {
        Document {
            items: Map::new(
                |id: Seq<char>| item_position(self.items(), id) < self.items().len(),
                |id: Seq<char>| self.items()[item_position(self.items(), id)],
            ),
            paths: Map::new(
                |id: Seq<char>| path_position(self.summaries(), id) < self.summaries().len(),
                |id: Seq<char>| self.summaries()[path_position(self.summaries(), id)].path@,
            ),
            external: Set::new(|crate_id: u32| self.externals().contains(crate_id)),
        }
    }
}

/// What the first `n + 1` items say of an identifier, from what the first
/// `n` say.
proof fn lemma_position_step(items: Seq<Item>, n: int, id: Seq<char>)
    requires
        0 <= n < items.len(),
    ensures
        item_position(items.take(n + 1), id) == if item_position(items.take(n), id) < n {
            item_position(items.take(n), id)
        } else if items[n].id.0@ == id {
            n
        } else {
            n + 1
        },
{
    let shorter = items.take(n);
    let longer = items.take(n + 1);
    lemma_first_index(shorter, item_has_id(id));
    let at = item_position(shorter, id);
    assert forall|k: int| 0 <= k < at implies !item_has_id(id)(#[trigger] longer[k]) by {
        assert(longer[k] == shorter[k]);
    }
    if at < n {
        assert(longer[at] == shorter[at]);
        lemma_first_index_is(longer, item_has_id(id), at);
    } else if items[n].id.0@ == id {
        assert(longer[n] == items[n]);
        lemma_first_index_is(longer, item_has_id(id), n);
    } else {
        assert(longer[n] == items[n]);
        lemma_first_index_is(longer, item_has_id(id), n + 1);
    }
}

impl Crate {
    /// The index of positions agrees with the items.
    #[verifier::type_invariant]
    pub open(crate) spec fn wf(&self) -> bool {
        indexes(index_entries(self.positions), self.index@)
    }

    /// The items, in the order of the document.
    pub open(crate) spec fn items(&self) -> Seq<Item> {
        self.index@
    }

    /// The paths that the document records.
    pub open(crate) spec fn summaries(&self) -> Seq<ItemSummary> {
        self.paths@
    }

    /// The numbers of the external crates.
    pub open(crate) spec fn externals(&self) -> Seq<u32> {
        self.external_crates@
    }

    /// A document of the given items, paths and external crates.
    pub fn new(index: Vec<Item>, paths: Vec<ItemSummary>, external_crates: Vec<u32>) -> (r: Crate)
        ensures
            r.items() == index@,
            r.summaries() == paths@,
            r.externals() == external_crates@,
    {
        let mut positions = index_new();
        let mut i: usize = 0;
        proof {
            assert(index@.take(0) =~= Seq::<Item>::empty());
        }
        while i < index.len()
            invariant
                i <= index.len(),
                indexes(index_entries(positions), index@.take(i as int)),
            decreases index.len() - i,
        {
            let ghost entries = index_entries(positions);
            let ghost id = index@[i as int].id.0@;
            let ghost added = slot_of(entries, id) is None;
            if !index_contains_key(&positions, index[i].id.0.as_str()) {
                index_insert(&mut positions, index[i].id.0.clone(), i);
            }
            proof {
                let now = index_entries(positions);
                lemma_key_index(entries, id);
                assert(slot_of(entries, id) == if item_position(index@.take(i as int), id) < i {
                    Some(item_position(index@.take(i as int), id) as usize)
                } else {
                    None
                });
                assert forall|other: Seq<char>| #[trigger]
                    slot_of(now, other) == if item_position(index@.take(i + 1), other) < i + 1 {
                        Some(item_position(index@.take(i + 1), other) as usize)
                    } else {
                        None
                    } by {
                    lemma_position_step(index@, i as int, other);
                    lemma_first_index(index@.take(i as int), item_has_id(other));
                    assert(slot_of(entries, other) == if item_position(
                        index@.take(i as int),
                        other,
                    ) < i {
                        Some(item_position(index@.take(i as int), other) as usize)
                    } else {
                        None
                    });
                    if added {
                        lemma_key_index(entries, other);
                        let at = key_index(entries, other);
                        assert forall|k: int| 0 <= k < at implies !entry_has_key(other)(
                            #[trigger] now[k],
                        ) by {
                            assert(now[k] == entries[k]);
                        }
                        if at < entries.len() {
                            assert(now[at] == entries[at]);
                            lemma_first_index_is(now, entry_has_key(other), at);
                        } else if other == id {
                            lemma_first_index_is(now, entry_has_key(other), at);
                        } else {
                            lemma_first_index_is(now, entry_has_key(other), at + 1);
                        }
                    }
                }
            }
            i = i + 1;
        }
        proof {
            assert(index@.take(i as int) =~= index@);
        }
        Crate { index, paths, external_crates, positions }
    }

    /// The items, in the order of the document.
    pub fn index(&self) -> (r: &Vec<Item>)
        ensures
            r@ == self.items(),
    {
        &self.index
    }

    /// The paths that the document records.
    pub fn paths(&self) -> (r: &Vec<ItemSummary>)
        ensures
            r@ == self.summaries(),
    {
        &self.paths
    }

    /// The numbers of the external crates.
    pub fn external_crates(&self) -> (r: &Vec<u32>)
        ensures
            r@ == self.externals(),
    {
        &self.external_crates
    }

    /// Finds the position of the item that `id` resolves to.
    pub fn position(&self, id: &Id) -> (r: Option<usize>)
        ensures
            match r {
                Some(at) => at == item_position(self.items(), id.0@) && at < self.items().len()
                    && self@.resolves(id.0@) && self.items()[at as int] == self@.item(id.0@),
                None => !self@.resolves(id.0@),
            },
    {
        proof {
            use_type_invariant(self);
            lemma_item_position(self.index@, id.0@);
            assert(item_position(self.index@, id.0@) <= self.index.len());
            assert(slot_of(index_entries(self.positions), id.0@) == if item_position(
                self.index@,
                id.0@,
            ) < self.index@.len() {
                Some(item_position(self.index@, id.0@) as usize)
            } else {
                None
            });
        }
        index_get(&self.positions, id.0.as_str())
    }

    /// Resolves `id` to its item.
    pub fn get(&self, id: &Id) -> (r: Option<&Item>)
        ensures
            match r {
                Some(it) => self@.resolves(id.0@) && *it == self@.item(id.0@),
                None => !self@.resolves(id.0@),
            },
    {
        match self.position(id) {
            Some(at) => Some(&self.index[at]),
            None => None,
        }
    }

    /// Looks up the path recorded for `id`.
    pub fn get_path(&self, id: &Id) -> (r: Option<&Vec<String>>)
        ensures
            match r {
                Some(p) => self@.path(id.0@) == Some(p@),
                None => self@.path(id.0@) is None,
            },
    {
        let mut i: usize = 0;
        while i < self.paths.len()
            invariant
                i <= self.paths.len(),
                forall|k: int| 0 <= k < i ==> (#[trigger] self.paths[k]).id.0@ != id.0@,
            decreases self.paths.len() - i,
        {
            if self.paths[i].id.0 == id.0 {
                proof {
                    lemma_first_index_is(self.paths@, summary_has_id(id.0@), i as int);
                }
                return Some(&self.paths[i].path);
            }
            i = i + 1;
        }
        proof {
            lemma_first_index_is(self.paths@, summary_has_id(id.0@), i as int);
        }
        None
    }

    /// Tests whether `crate_id` is the number of an external crate.
    pub fn external(&self, crate_id: u32) -> (r: bool)
        ensures
            r == self@.is_external(crate_id),
    {
        let mut i: usize = 0;
        while i < self.external_crates.len()
            invariant
                i <= self.external_crates.len(),
                forall|k: int| 0 <= k < i ==> self.external_crates[k] != crate_id,
            decreases self.external_crates.len() - i,
        {
            if self.external_crates[i] == crate_id {
                return true;
            }
            i = i + 1;
        }
        false
    }
}

/// An identifier that resolves lies at a position inside the item list, and
/// the item there carries it.
pub proof fn lemma_item_position(index: Seq<Item>, id: Seq<char>)
    ensures
        0 <= item_position(index, id) <= index.len(),
        item_position(index, id) < index.len() ==> index[item_position(index, id)].id.0@ == id,
{
    lemma_first_index(index, item_has_id(id));
}

/// The item at a position of a document resolves by its own identifier.
pub proof fn lemma_item_resolves(source: Crate, at: int)
    requires
        0 <= at < source.items().len(),
    ensures
        source@.resolves(source.items()[at].id.0@),
{
    lemma_first_index(source.items(), item_has_id(source.items()[at].id.0@));
}

/// Two documents say the same when they hold the same items, in whatever
/// order, the same paths and the same external crates, and no identifier
/// occurs twice among the items of either.
pub proof fn lemma_reordered_documents_agree(a: Crate, b: Crate)
    requires
        a.items().to_set() == b.items().to_set(),
        distinct_ids(a.items()),
        distinct_ids(b.items()),
        a.summaries() == b.summaries(),
        a.externals() == b.externals(),
    ensures
        a@ == b@,
{
    assert forall|id: Seq<char>| #[trigger]
        a@.items.contains_key(id) == b@.items.contains_key(id) && (a@.items.contains_key(id)
            ==> a@.items[id] == b@.items[id]) by {
        lemma_item_position(a.items(), id);
        lemma_item_position(b.items(), id);
        lemma_first_index(a.items(), item_has_id(id));
        lemma_first_index(b.items(), item_has_id(id));
        let at_a = item_position(a.items(), id);
        let at_b = item_position(b.items(), id);
        if at_a < a.items().len() {
            let it = a.items()[at_a];
            assert(a.items().to_set().contains(it));
            assert(b.items().to_set().contains(it));
            let j = choose|j: int| 0 <= j < b.items().len() && b.items()[j] == it;
            assert(item_has_id(id)(b.items()[j]));
            assert(at_b <= j);
            if at_b < j {
                assert(b.items()[at_b].id.0@ == b.items()[j].id.0@);
            }
        }
        if at_b < b.items().len() {
            let it = b.items()[at_b];
            assert(b.items().to_set().contains(it));
            assert(a.items().to_set().contains(it));
            let j = choose|j: int| 0 <= j < a.items().len() && a.items()[j] == it;
            assert(item_has_id(id)(a.items()[j]));
            assert(at_a <= j);
        }
    }
    assert(a@.items =~= b@.items);
    assert(a@.paths =~= b@.paths);
    assert(a@.external =~= b@.external);
}

} // verus!
