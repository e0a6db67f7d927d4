use newtype_bindgen::{
    Crate, FnDecl, Function, Id, Impl, Item, ItemEnum, ItemSummary, Method, Newtype, ResolveError,
    Type, WrappedItem,
};

fn id(s: &str) -> Id {
    Id(s.to_string())
}

fn item(i: &str, name: Option<&str>, inner: ItemEnum) -> Item {
    Item { id: id(i), crate_id: 0, name: name.map(|n| n.to_string()), docs: None, inner }
}

fn method(i: &str, name: &str) -> Item {
    let decl = FnDecl { inputs: Vec::new(), output: None };
    item(i, Some(name), ItemEnum::Method(Method { decl, dump: String::new() }))
}

fn block(i: &str, trait_: Option<&str>, items: &[&str]) -> Item {
    let inner = Impl {
        trait_: trait_.map(|t| Type::ResolvedPath { name: t.to_string() }),
        for_: Type::ResolvedPath { name: "Foo".to_string() },
        for_dump: String::new(),
        items: items.iter().map(|s| id(s)).collect(),
    };
    item(i, None, ItemEnum::Impl(inner))
}

fn foo(impls: &[&str]) -> Item {
    item("foo", Some("Foo"), ItemEnum::Struct { impls: impls.iter().map(|s| id(s)).collect() })
}

fn document(index: Vec<Item>) -> Crate {
    Crate::new(
        index,
        vec![ItemSummary { id: id("foo"), path: vec!["my".to_string(), "Foo".to_string()] }],
        vec![1, 2],
    )
}

fn error_of(doc: &Crate, at: usize) -> Option<ResolveError> {
    let entry = Newtype::new("Foo".to_string());
    WrappedItem::new(doc, &doc.index()[at], &entry).err()
}

#[test]
fn document_lookups() {
    let doc = document(vec![foo(&[]), method("m", "first"), method("m", "second")]);
    assert_eq!(doc.position(&id("foo")), Some(0));
    assert_eq!(doc.position(&id("m")), Some(1));
    assert_eq!(doc.position(&id("x")), None);
    assert_eq!(doc.get(&id("m")).and_then(|i| i.name.clone()), Some("first".to_string()));
    assert!(doc.get(&id("")).is_none());
    assert_eq!(doc.index().len(), 3);
    assert_eq!(doc.paths().len(), 1);
    assert_eq!(doc.external_crates(), &vec![1, 2]);
    assert_eq!(doc.get_path(&id("foo")), Some(&vec!["my".to_string(), "Foo".to_string()]));
    assert_eq!(doc.get_path(&id("m")), None);
    assert!(doc.external(1));
    assert!(doc.external(2));
    assert!(!doc.external(0));
}

#[test]
fn matching_needs_a_local_struct_or_enum() {
    let doc = document(Vec::new());
    let entry = Newtype::new("Foo".to_string());
    let mut s = foo(&[]);
    assert!(entry.matches_result(&s, &doc));
    s.crate_id = 2;
    assert!(!entry.matches_result(&s, &doc));
    let e = item("e", Some("Foo"), ItemEnum::Enum { impls: Vec::new() });
    assert!(entry.matches_result(&e, &doc));
    let decl = FnDecl { inputs: Vec::new(), output: None };
    let f = item("f", Some("Foo"), ItemEnum::Function(Function { decl }));
    assert!(!entry.matches_result(&f, &doc));
    assert!(!entry.matches_result(&method("m", "Foo"), &doc));
    assert!(!entry.matches_result(&block("b", None, &[]), &doc));
    assert!(!entry.matches_result(&item("o", Some("Foo"), ItemEnum::Other), &doc));
    let alias = item("t", Some("Foo"), ItemEnum::Typedef(Type::Primitive("u8".to_string())));
    assert!(!entry.matches_result(&alias, &doc));
}

#[test]
fn members_are_found_by_name_over_all_blocks() {
    let doc = document(vec![
        foo(&["own", "add_f32", "add_foo", "neg"]),
        block("own", None, &["new", "len"]),
        block("add_f32", Some("Add"), &["add1"]),
        block("add_foo", Some("Add"), &["add2"]),
        block("neg", Some("Neg"), &["neg1"]),
        method("new", "new"),
        method("len", "len"),
        method("add1", "add"),
        method("add2", "add"),
        method("neg1", "neg"),
    ]);
    let entry = Newtype::new("Foo".to_string());
    let w = WrappedItem::new(&doc, &doc.index()[0], &entry).unwrap();
    assert_eq!(w.wrapper_name(), "LuaFoo");
    assert_eq!(w.wrapped_type(), "Foo");
    assert_eq!(w.self_impl(), Some(1));
    assert_eq!(w.members_named("add"), Some(&vec![(2, 7), (3, 8)]));
    assert_eq!(w.members_named("neg"), Some(&vec![(4, 9)]));
    assert_eq!(w.members_named("new"), Some(&vec![(1, 5)]));
    assert_eq!(w.members_named("len"), Some(&vec![(1, 6)]));
    assert_eq!(w.members_named("sub"), None);
    assert_eq!(w.members_named(""), None);
}

#[test]
fn last_block_without_trait_is_the_own_block() {
    let doc = document(vec![
        foo(&["a", "t", "b"]),
        block("a", None, &["x"]),
        block("t", Some("Clone"), &[]),
        block("b", None, &["y"]),
        method("x", "x"),
        method("y", "y"),
    ]);
    let entry = Newtype::new("Foo".to_string());
    let w = WrappedItem::new(&doc, &doc.index()[0], &entry).unwrap();
    assert_eq!(w.self_impl(), Some(3));
    assert_eq!(w.members_named("x"), Some(&vec![(1, 4)]));
    let none = document(vec![foo(&["t"]), block("t", Some("Clone"), &[])]);
    let w = WrappedItem::new(&none, &none.index()[0], &entry).unwrap();
    assert_eq!(w.self_impl(), None);
}

#[test]
fn each_resolution_error() {
    let not_struct = document(vec![method("foo", "Foo")]);
    assert_eq!(error_of(&not_struct, 0), Some(ResolveError::NotStructOrEnum));

    let unnamed = document(vec![item("foo", None, ItemEnum::Struct { impls: Vec::new() })]);
    assert_eq!(error_of(&unnamed, 0), Some(ResolveError::UnnamedItem));

    let dangling = document(vec![foo(&["gone"])]);
    assert_eq!(error_of(&dangling, 0), Some(ResolveError::UnresolvedImpl));

    let no_block = document(vec![foo(&["m"]), method("m", "m")]);
    assert_eq!(error_of(&no_block, 0), Some(ResolveError::ExpectedImpl));

    let no_member = document(vec![foo(&["b"]), block("b", None, &["gone"])]);
    assert_eq!(error_of(&no_member, 0), Some(ResolveError::UnresolvedMember));

    let nameless = document(vec![foo(&["b"]), block("b", None, &["c"]), block("c", None, &[])]);
    assert_eq!(error_of(&nameless, 0), Some(ResolveError::UnnamedMember));

    let pathless = Crate::new(vec![foo(&[])], Vec::new(), Vec::new());
    assert_eq!(error_of(&pathless, 0), Some(ResolveError::MissingPath));

    let fine = document(vec![foo(&[])]);
    assert_eq!(error_of(&fine, 0), None);
}

#[test]
fn first_fault_in_traversal_order_is_reported() {
    // the second block is dangling, but the first block's member fails first
    let doc = document(vec![foo(&["b", "gone"]), block("b", None, &["missing"])]);
    assert_eq!(error_of(&doc, 0), Some(ResolveError::UnresolvedMember));
    // a dangling block before a block with a bad member
    let doc = document(vec![foo(&["gone", "b"]), block("b", None, &["missing"])]);
    assert_eq!(error_of(&doc, 0), Some(ResolveError::UnresolvedImpl));
    // block faults come before the missing path
    let doc = Crate::new(vec![foo(&["gone"])], Vec::new(), Vec::new());
    assert_eq!(error_of(&doc, 0), Some(ResolveError::UnresolvedImpl));
}

#[test]
fn getters_of_a_wrapped_item() {
    let mut main = foo(&[]);
    main.docs = Some("own docs\nsecond line".to_string());
    let mut m = method("m", "m");
    m.docs = Some("about m".to_string());
    let doc = document(vec![main, m, method("n", "n")]);
    let mut entry = Newtype::new("Foo".to_string());
    {
        let w = WrappedItem::new(&doc, &doc.index()[0], &entry).unwrap();
        assert_eq!(w.get_full_path(), "my::Foo");
        assert_eq!(w.get_type_docstring(), "\n\t///own docs\n\t///second line");
        assert_eq!(w.get_method_docstring(&id("m")), "\n\t\t\t///about m");
        assert_eq!(w.get_method_docstring(&id("n")), "");
        assert_eq!(w.get_impl_block_body(), "");
    }
    entry.doc = Some("override".to_string());
    entry.import_path = "other::path::Foo".to_string();
    entry.lua_methods = vec!["a => b".to_string(), "c".to_string()];
    let w = WrappedItem::new(&doc, &doc.index()[0], &entry).unwrap();
    assert_eq!(w.get_full_path(), "other::path::Foo");
    assert_eq!(w.get_type_docstring(), "\n\t///override");
    assert_eq!(w.get_impl_block_body(), "\n\t\t\ta => b;\n\t\t\tc;");
    assert_eq!(WrappedItem::docstringify("a\r\nb\n\nc".to_string(), 2), "\n\t\t///a\n\t\t///b\n\t\t///\n\t\t///c");
    assert_eq!(WrappedItem::docstringify(String::new(), 2), "");
    assert_eq!(WrappedItem::docstringify("x".to_string(), 0), "\n///x");
}
