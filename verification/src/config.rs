//! The configuration: which types to expose and how, in the order in which
//! they were declared, with the global settings of a run.

use vstd::prelude::*;
use vstd::string::*;
use indexmap::IndexMap;
use crate::document::{Crate, Document, Item, ItemEnum};
use crate::name_index::{
    distinct_keys, index_contains_key, index_entries, index_get, index_get_index_of, index_insert,
    index_new, key_index, lemma_key_index,
};
use crate::search::{first_index, lemma_first_index_is};

verus! {

/// What is written before a type's name to name its wrapper.
pub const WRAPPER_PREFIX: &'static str = "Lua";

/// The tag of the code base that a type's bindings come from.
#[derive(Clone, Debug)]
pub struct Source(pub String);

impl Default for Source {
    fn default() -> (r: Self)
        ensures
            r.0@ == "bevy"@,
    {
        Source(String::from_str("bevy"))
    }
}

/// How values of a wrapped type are built and changed from the script side.
#[derive(Clone, Copy, Debug, PartialEq, Eq, Structural)]
pub enum WrapperType {
    /// The type can be assigned through reflection.
    Reflect,
    /// The type has no reflection support; the wrapper holds it directly.
    NonReflect,
    /// The type is a primitive.
    Primitive,
}

impl WrapperType {
    /// The word that stands for this classification in a descriptor.
    pub open spec fn spelling(self) -> Seq<char> {
        match self {
            WrapperType::Reflect => "Reflect"@,
            WrapperType::NonReflect => "NonReflect"@,
            WrapperType::Primitive => "Primitive"@,
        }
    }

    /// The word that stands for this classification in a descriptor.
    pub fn to_string(&self) -> (r: String)
        ensures
            r@ == self.spelling(),
    {
        match self {
            WrapperType::Reflect => String::from_str("Reflect"),
            WrapperType::NonReflect => String::from_str("NonReflect"),
            WrapperType::Primitive => String::from_str("Primitive"),
        }
    }
}

impl Default for WrapperType {
    fn default() -> (r: Self)
        ensures
            r == WrapperType::Reflect,
    {
        WrapperType::Reflect
    }
}

/// One configured target: a type to expose and how to expose it.
#[derive(Clone, Debug)]
pub struct Newtype {
    /// The name of the type.
    pub type_: String,
    /// A docstring that replaces the type's own.
    pub doc: Option<String>,
    pub source: Source,
    pub wrapper_type: WrapperType,
    /// Hand-written bindings, copied into the descriptor as they are.
    pub lua_methods: Vec<String>,
    /// Derive flags, copied into the descriptor as they are.
    pub derive_flags: Vec<String>,
    /// The path to write for the type; empty to use the document's.
    pub import_path: String,
}

impl Newtype {
    /// A target with the given name and every other setting at its default.
    pub fn new(type_: String) -> (r: Newtype)
        ensures
            r.type_ == type_,
            r.doc is None,
            r.source.0@ == "bevy"@,
            r.wrapper_type == WrapperType::Reflect,
            r.lua_methods@.len() == 0,
            r.derive_flags@.len() == 0,
            r.import_path@.len() == 0,
    {
        Newtype {
            type_,
            doc: None,
            source: Source::default(),
            wrapper_type: WrapperType::default(),
            lua_methods: Vec::new(),
            derive_flags: Vec::new(),
            import_path: String::new(),
        }
    }

    /// Whether `item` can be wrapped: it is a struct or an enum, and it is
    /// defined in `source` rather than in a crate external to it.
    pub open spec fn matches(&self, item: Item, source: Document) -> bool {
        item.inner.impls() is Some && !source.is_external(item.crate_id)
    }

    /// Tests whether `item` can be wrapped.
    pub fn matches_result(&self, item: &Item, source: &Crate) -> (r: bool)
        ensures
            r == self.matches(*item, source@),
    {
        match &item.inner {
            ItemEnum::Struct { .. } => {},
            ItemEnum::Enum { .. } => {},
            _ => {
                return false;
            },
        }
        !source.external(item.crate_id)
    }
}

/// The condition of being the target named `name`, on configured targets.
pub open spec fn entry_named(name: Seq<char>) -> spec_fn(Newtype) -> bool {
    |e: Newtype| e.type_@ == name
}

/// `entries` after `e` was declared: a target of the same name is replaced
/// where it stands, a new name goes to the end.
pub open spec fn declare(entries: Seq<Newtype>, e: Newtype) -> Seq<Newtype> {
    let at = first_index(entries, entry_named(e.type_@));
    if at < entries.len() {
        entries.update(at, e)
    } else {
        entries.push(e)
    }
}

/// The targets that a list of declarations amounts to.
pub open spec fn declared(list: Seq<Newtype>) -> Seq<Newtype>
    decreases list.len(),
{
    if list.len() == 0 {
        Seq::empty()
    } else {
        declare(declared(list.drop_last()), list.last())
    }
}

/// No name occurs twice in `entries`.
pub open spec fn distinct_names(entries: Seq<Newtype>) -> bool {
    forall|i: int, j: int|
        0 <= i < j < entries.len() ==> (#[trigger] entries[i]).type_@ != (
        #[trigger] entries[j]).type_@
}

/// The names in `names`, as a set.
pub open spec fn name_set(names: Seq<String>) -> Set<Seq<char>> {
    Set::new(|n: Seq<char>| exists|i: int| 0 <= i < names.len() && (#[trigger] names[i])@ == n)
}

/// The configuration of a run.
#[derive(Debug)]
pub struct Config {
    /// The position of each target in `types_`, by name.
    pub(crate) types: IndexMap<String, usize>,
    /// The targets, in declaration order.
    pub(crate) types_: Vec<Newtype>,
    pub(crate) imports: String,
    pub(crate) external_types: Vec<String>,
    pub(crate) primitives: Vec<String>,
}

impl Config {
    /// The name index lists the targets in their order, each with its
    /// position, and no name occurs twice.
    #[verifier::type_invariant]
    pub closed spec fn wf(&self) -> bool {
        &&& index_entries(self.types).len() == self.types_.len()
        &&& forall|i: int|
            0 <= i < self.types_.len() ==> #[trigger] index_entries(self.types)[i] == (
                self.types_[i].type_@,
                i as usize,
            )
        &&& distinct_keys(index_entries(self.types))
    }

    /// The targets, in declaration order.
    pub closed spec fn entries(&self) -> Seq<Newtype> {
        self.types_@
    }

    /// The import preamble.
    pub closed spec fn preamble(&self) -> Seq<char> {
        self.imports@
    }

    /// The names of the types that are declared elsewhere.
    pub closed spec fn external_names(&self) -> Seq<Seq<char>> {
        self.external_types.deep_view()
    }

    /// The names of the accepted primitives.
    pub closed spec fn primitive_names(&self) -> Set<Seq<char>> {
        name_set(self.primitives@)
    }

    /// The position of the target named `name`, or the number of targets when
    /// there is none.
    pub open spec fn target_index(&self, name: Seq<char>) -> int {
        first_index(self.entries(), entry_named(name))
    }

    /// Whether `name` is a configured target.
    pub open spec fn is_target(&self, name: Seq<char>) -> bool {
        self.target_index(name) < self.entries().len()
    }

    /// Whether `name` is an accepted primitive.
    pub open spec fn is_primitive(&self, name: Seq<char>) -> bool {
        self.primitive_names().contains(name)
    }

    /// In a well-formed configuration no two targets share a name.
    pub proof fn lemma_distinct_names(&self)
        requires
            self.wf(),
        ensures
            distinct_names(self.entries()),
    {
        let ix = index_entries(self.types);
        assert forall|i: int, j: int| 0 <= i < j < self.entries().len() implies (
        #[trigger] self.entries()[i]).type_@ != (#[trigger] self.entries()[j]).type_@ by {
            assert(ix[i].0 != ix[j].0);
        }
    }

    proof fn lemma_index_agrees(&self, name: Seq<char>)
        requires
            self.wf(),
        ensures
            key_index(index_entries(self.types), name) == self.target_index(name),
    {
        let ix = index_entries(self.types);
        lemma_key_index(ix, name);
        let at = key_index(ix, name);
        assert forall|k: int| 0 <= k < at implies !entry_named(name)(#[trigger] self.types_@[k]) by {
            assert(ix[k].0 != name);
        }
        if at < ix.len() {
            assert(ix[at].0 == name);
        }
        lemma_first_index_is(self.types_@, entry_named(name), at);
    }

    /// Builds a configuration from the declarations in `types`, taken in
    /// order.
    pub fn new(
        types: Vec<Newtype>,
        imports: String,
        external_types: Vec<String>,
        primitives: Vec<String>,
    ) -> (c: Config)
        ensures
            c.wf(),
            c.entries() == declared(types@),
            distinct_names(c.entries()),
            c.preamble() == imports@,
            c.external_names() == external_types.deep_view(),
            c.primitive_names() == name_set(primitives@),
    {
        let mut index = index_new();
        let mut slots: Vec<Newtype> = Vec::new();
        let ghost all = types@;
        proof {
            assert(all.take(0) =~= Seq::<Newtype>::empty());
        }
        for e in it: types
            invariant
                it.seq() == all,
                index_entries(index).len() == slots.len(),
                forall|i: int|
                    0 <= i < slots.len() ==> #[trigger] index_entries(index)[i] == (
                        slots[i].type_@,
                        i as usize,
                    ),
                distinct_keys(index_entries(index)),
                slots@ == declared(all.take(it.index() as int)),
        {
            let ghost ix = index_entries(index);
            let ghost before = slots@;
            let ghost name = e.type_@;
            proof {
                assert(all.take(it.index() + 1).drop_last() =~= all.take(it.index() as int));
                lemma_key_index(ix, name);
                let at = key_index(ix, name);
                assert forall|k: int| 0 <= k < at implies !entry_named(name)(
                    #[trigger] before[k],
                ) by {
                    assert(ix[k].0 != name);
                }
                lemma_first_index_is(before, entry_named(name), at);
            }
            match index_get(&index, e.type_.as_str()) {
                Some(at) => {
                    slots.set(at, e);
                },
                None => {
                    let at = slots.len();
                    index_insert(&mut index, e.type_.clone(), at);
                    slots.push(e);
                    proof {
                        let now = index_entries(index);
                        assert forall|i: int, j: int| 0 <= i < j < now.len() implies (
                        #[trigger] now[i]).0 != (#[trigger] now[j]).0 by {
                            if j == now.len() - 1 {
                                assert(ix[i].0 != name);
                            } else {
                                assert(ix[i].0 != ix[j].0);
                            }
                        }
                    }
                },
            }
        }
        proof {
            assert(all.take(all.len() as int) =~= all);
        }
        let c = Config { types: index, types_: slots, imports, external_types, primitives };
        proof {
            c.lemma_distinct_names();
        }
        c
    }

    /// The number of targets.
    pub fn len(&self) -> (n: usize)
        ensures
            n == self.entries().len(),
    {
        self.types_.len()
    }

    /// The target at position `at` of the declaration order.
    pub fn entry(&self, at: usize) -> (e: &Newtype)
        requires
            at < self.entries().len(),
        ensures
            *e == self.entries()[at as int],
    {
        &self.types_[at]
    }

    /// Tests whether `name` is a configured target.
    pub fn contains_type(&self, name: &str) -> (r: bool)
        ensures
            r == self.is_target(name@),
    {
        proof {
            use_type_invariant(self);
            self.lemma_index_agrees(name@);
        }
        index_contains_key(&self.types, name)
    }

    /// The position of the target named `name` in the declaration order.
    pub fn get_index_of(&self, name: &str) -> (r: Option<usize>)
        ensures
            match r {
                Some(at) => self.is_target(name@) && at == self.target_index(name@),
                None => !self.is_target(name@),
            },
    {
        proof {
            use_type_invariant(self);
            self.lemma_index_agrees(name@);
        }
        index_get_index_of(&self.types, name)
    }

    /// The target named `name`.
    pub fn get(&self, name: &str) -> (r: Option<&Newtype>)
        ensures
            match r {
                Some(e) => self.is_target(name@) && *e == self.entries()[self.target_index(name@)]
                    && e.type_@ == name@,
                None => !self.is_target(name@),
            },
    {
        proof {
            use_type_invariant(self);
            self.lemma_index_agrees(name@);
            lemma_key_index(index_entries(self.types), name@);
        }
        match index_get(&self.types, name) {
            Some(at) => Some(&self.types_[at]),
            None => None,
        }
    }

    /// Tests whether `name` is an accepted primitive.
    pub fn contains_primitive(&self, name: &str) -> (r: bool)
        ensures
            r == self.is_primitive(name@),
    {
        let mut i: usize = 0;
        while i < self.primitives.len()
            invariant
                i <= self.primitives.len(),
                forall|k: int| 0 <= k < i ==> (#[trigger] self.primitives[k])@ != name@,
            decreases self.primitives.len() - i,
        {
            if *self.primitives[i].as_str() == *name {
                return true;
            }
            i = i + 1;
        }
        false
    }

    /// The import preamble.
    pub fn imports(&self) -> (r: &String)
        ensures
            r@ == self.preamble(),
    {
        &self.imports
    }

    /// The names of the types that are declared elsewhere.
    pub fn external_types(&self) -> (r: &Vec<String>)
        ensures
            r.deep_view() == self.external_names(),
    {
        &self.external_types
    }

    /// The names of the accepted primitives.
    pub fn primitives(&self) -> (r: &Vec<String>)
        ensures
            name_set(r@) == self.primitive_names(),
    {
        &self.primitives
    }
}

} // verus!
