use newtype_bindgen::{
    Config, Crate, Failure, FnDecl, Id, Impl, Item, ItemEnum, ItemSummary, Method, Newtype, Type,
    WrappedItem,
};

fn id(s: &str) -> Id {
    Id(s.to_string())
}

fn path(s: &str) -> Type {
    Type::ResolvedPath { name: s.to_string() }
}

fn this() -> Type {
    Type::Generic("Self".to_string())
}

fn item(i: &str, name: Option<&str>, inner: ItemEnum) -> Item {
    Item { id: id(i), crate_id: 0, name: name.map(|n| n.to_string()), docs: None, inner }
}

fn method(i: &str, name: &str, inputs: Vec<Type>, output: Option<Type>) -> Item {
    let inputs = inputs.into_iter().map(|t| ("a".to_string(), t)).collect();
    let decl = FnDecl { inputs, output };
    item(i, Some(name), ItemEnum::Method(Method { decl, dump: format!("Method({name})") }))
}

fn block(i: &str, trait_: Option<&str>, for_: Type, items: &[&str]) -> Item {
    let for_dump = format!("{for_:?}");
    let inner = Impl {
        trait_: trait_.map(|t| path(t)),
        for_,
        for_dump,
        items: items.iter().map(|s| id(s)).collect(),
    };
    item(i, None, ItemEnum::Impl(inner))
}

fn document(impls: &[&str], mut rest: Vec<Item>) -> Crate {
    let mut index = vec![item(
        "foo",
        Some("Foo"),
        ItemEnum::Struct { impls: impls.iter().map(|s| id(s)).collect() },
    )];
    index.append(&mut rest);
    Crate::new(
        index,
        vec![ItemSummary { id: id("foo"), path: vec!["my".to_string(), "Foo".to_string()] }],
        Vec::new(),
    )
}

fn config() -> Config {
    Config::new(
        vec![Newtype::new("Foo".to_string())],
        String::new(),
        Vec::new(),
        vec!["f32".to_string()],
    )
}

fn failure(member: &str, reason: &str) -> Failure {
    Failure {
        wrapped_type: "Foo".to_string(),
        member: member.to_string(),
        reason: reason.to_string(),
    }
}

#[test]
fn nothing_fails_in_a_type_that_binds_fully() {
    let doc = document(
        &["own", "add"],
        vec![
            block("own", None, path("Foo"), &["get"]),
            block("add", Some("Add"), path("Foo"), &["add1", "out"]),
            method("get", "get", vec![this(), path("f32")], Some(this())),
            method("add1", "add", vec![this(), this()], None),
            item("out", Some("Output"), ItemEnum::Typedef(this())),
        ],
    );
    let entry = Newtype::new("Foo".to_string());
    let w = WrappedItem::new(&doc, &doc.index()[0], &entry).unwrap();
    assert_eq!(w.failures(&config()), Vec::new());
}

#[test]
fn each_member_that_cannot_be_bound_is_listed() {
    let doc = document(
        &["own", "add", "rem", "sub"],
        vec![
            block("own", None, path("Foo"), &["bad_arg", "fine", "bad_ret"]),
            block("add", Some("Add"), path("Foo"), &["add1"]),
            block("rem", Some("Rem"), path("Mat4"), &["rem1"]),
            block("sub", Some("Sub"), path("Foo"), &["sub1", "out"]),
            method("bad_arg", "bad_arg", vec![this(), path("Mat4")], Some(path("Quat"))),
            method("fine", "fine", vec![this()], None),
            method("bad_ret", "bad_ret", vec![], Some(path("Quat"))),
            method("add1", "add", vec![this(), this()], None),
            method("rem1", "rem", vec![this(), this()], None),
            method("sub1", "sub", vec![this(), this()], None),
            item("out", Some("Output"), ItemEnum::Typedef(this())),
        ],
    );
    let entry = Newtype::new("Foo".to_string());
    let w = WrappedItem::new(&doc, &doc.index()[0], &entry).unwrap();
    let c = config();
    let list = w.failures(&c);
    assert_eq!(
        list,
        vec![
            failure("add", "// Error: unsupported type in `Method(add)`"),
            failure(
                "rem",
                "\n//\t\t\t Error: unsupported lhs operator `ResolvedPath { name: \"Mat4\" }` in `Rem`"
            ),
            failure("bad_arg", "Unsupported argument `Mat4` in type: `Some(\"Foo\")`."),
            failure("bad_ret", "Unsupported return type `Quat` in type: `Some(\"Foo\")`."),
        ]
    );
    // every note stands in the clause body, and what binds is written as usual
    let text = w.get_derive_flags_body(&c);
    for f in &list {
        assert!(text.contains(&f.reason), "{}", f.reason);
    }
    assert!(text.contains("self Sub LuaFoo -> LuaFoo"));
    assert!(text.contains("\n\t\t\tfine(self)  "));
}
