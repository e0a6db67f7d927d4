use newtype_bindgen::diagnostics::{
    unsupported_argument_message, unsupported_lhs_message, unsupported_member_message,
    unsupported_operator_message, unsupported_return_message,
};
use newtype_bindgen::{
    Config, Crate, FnDecl, Function, Id, Impl, Item, ItemEnum, ItemSummary, Method, Newtype, Type,
    WrappedItem, WrapperType,
};

fn id(s: &str) -> Id {
    Id(s.to_string())
}

fn path(s: &str) -> Type {
    Type::ResolvedPath { name: s.to_string() }
}

fn this() -> Type {
    Type::Generic("Self".to_string())
}

fn item(i: &str, name: Option<&str>, inner: ItemEnum) -> Item {
    Item { id: id(i), crate_id: 0, name: name.map(|n| n.to_string()), docs: None, inner }
}

fn decl(inputs: Vec<Type>, output: Option<Type>) -> FnDecl {
    let inputs = inputs.into_iter().enumerate().map(|(i, t)| (format!("a{i}"), t)).collect();
    FnDecl { inputs, output }
}

fn method(i: &str, name: &str, inputs: Vec<Type>, output: Option<Type>) -> Item {
    let dump = format!("Method({name})");
    item(i, Some(name), ItemEnum::Method(Method { decl: decl(inputs, output), dump }))
}

fn output(i: &str, t: Type) -> Item {
    item(i, Some("Output"), ItemEnum::Typedef(t))
}

fn block(i: &str, trait_: Option<&str>, for_: Type, items: &[&str]) -> Item {
    let for_dump = format!("{for_:?}");
    let inner = Impl {
        trait_: trait_.map(|t| path(t)),
        for_,
        for_dump,
        items: items.iter().map(|s| id(s)).collect(),
    };
    item(i, None, ItemEnum::Impl(inner))
}

fn foo(impls: &[&str]) -> Item {
    item("foo", Some("Foo"), ItemEnum::Struct { impls: impls.iter().map(|s| id(s)).collect() })
}

fn document(index: Vec<Item>) -> Crate {
    Crate::new(
        index,
        vec![ItemSummary { id: id("foo"), path: vec!["my".to_string(), "Foo".to_string()] }],
        Vec::new(),
    )
}

fn config() -> Config {
    Config::new(
        vec![Newtype::new("Foo".to_string()), Newtype::new("Bar".to_string())],
        String::new(),
        Vec::new(),
        vec!["f32".to_string(), "usize".to_string(), "char".to_string()],
    )
}

fn body(doc: &Crate, entry: &Newtype, config: &Config) -> String {
    WrappedItem::new(doc, &doc.index()[0], entry).unwrap().get_derive_flags_body(config)
}

const EMPTY_OPS: &str = "UnaryOps(\n\t\t\t\n\t\t\t) \n\t\t+ BinOps(\n\t\t\t\n\t\t\t)";

#[test]
fn type_without_blocks() {
    let doc = document(vec![foo(&[])]);
    assert_eq!(body(&doc, &Newtype::new("Foo".to_string()), &config()), EMPTY_OPS);
}

#[test]
fn method_without_arguments_or_result() {
    let doc = document(vec![
        foo(&["own"]),
        block("own", None, path("Foo"), &["bar"]),
        method("bar", "bar", vec![], None),
    ]);
    let text = body(&doc, &Newtype::new("Foo".to_string()), &config());
    assert!(text.contains("bar() "));
    assert_eq!(
        text,
        format!("{EMPTY_OPS} \n\t\t+ AutoMethods(\n\t\t\t\n\t\t\tbar()  \n\t\t)")
    );
}

#[test]
fn own_block_without_methods_still_opens_the_clause() {
    let doc = document(vec![foo(&["own"]), block("own", None, path("Foo"), &[])]);
    assert_eq!(
        body(&doc, &Newtype::new("Foo".to_string()), &config()),
        format!("{EMPTY_OPS} \n\t\t+ AutoMethods(\n\t\t\n\t\t)")
    );
}

#[test]
fn methods_with_arguments_and_results() {
    let mut scale = method(
        "scale",
        "scale",
        vec![
            Type::BorrowedRef { lifetime: None, mutable: false, type_: Box::new(this()) },
            path("f32"),
            path("Bar"),
        ],
        Some(this()),
    );
    scale.docs = Some("Scales.\nTwice.".to_string());
    let count = Function { decl: decl(vec![], Some(Type::Primitive("usize".to_string()))) };
    let doc = document(vec![
        foo(&["own"]),
        block("own", None, path("Foo"), &["scale", "skip", "count"]),
        scale,
        output("skip", path("f32")),
        item("count", Some("count"), ItemEnum::Function(count)),
    ]);
    let text = body(&doc, &Newtype::new("Foo".to_string()), &config());
    let scale = "\t\n\t\t\t///Scales.\n\t\t\t///Twice.\n\t\t\tscale(&self,f32,LuaBar) -> LuaFoo ";
    let count = "\t\n\t\t\tcount() -> usize ";
    assert_eq!(
        text,
        format!("{EMPTY_OPS} \n\t\t+ AutoMethods(\n\t\t{scale},\n\t\t{count}\n\t\t)")
    );
}

#[test]
fn unsupported_argument_becomes_a_comment() {
    let mut baz = method("baz", "baz", vec![this(), path("Unknown")], None);
    baz.docs = Some("Does baz".to_string());
    let doc = document(vec![
        foo(&["own"]),
        block("own", None, path("Foo"), &["baz", "ok"]),
        baz,
        method("ok", "ok", vec![this()], None),
    ]);
    let text = body(&doc, &Newtype::new("Foo".to_string()), &config());
    assert!(text.contains("Unsupported argument"));
    assert!(text.contains("`Unknown`"));
    let commented = "\n//\t\n//\t\t\t///Does baz\n//\t\t\tbaz()  \n//\t\t\tError: Unsupported argument `Unknown` in type: `Some(\"Foo\")`.";
    let ok = "\t\n\t\t\tok(self)  ";
    assert_eq!(
        text,
        format!("{EMPTY_OPS} \n\t\t+ AutoMethods(\n\t\t{commented},\n\t\t{ok}\n\t\t)")
    );
}

#[test]
fn argument_that_renders_but_is_not_accepted() {
    // `char` is an accepted primitive of the configuration but no script value
    let doc = document(vec![
        foo(&["own"]),
        block("own", None, path("Foo"), &["put"]),
        method("put", "put", vec![this(), path("char"), path("Unknown")], None),
    ]);
    let text = body(&doc, &Newtype::new("Foo".to_string()), &config());
    assert!(text.contains("Error: Unsupported argument `char` in type: `Some(\"Foo\")`."));
    assert!(text.contains("\n//\t\t\tput()  "));
    // a mutable borrow of a wrapper is rendered but not accepted
    let doc = document(vec![
        foo(&["own"]),
        block("own", None, path("Foo"), &["put"]),
        method(
            "put",
            "put",
            vec![Type::BorrowedRef { lifetime: None, mutable: true, type_: Box::new(this()) }],
            None,
        ),
    ]);
    let text = body(&doc, &Newtype::new("Foo".to_string()), &config());
    assert!(text.contains("Error: Unsupported argument `&mut self` in type: `Some(\"Foo\")`."));
}

#[test]
fn unsupported_result_becomes_a_comment() {
    let doc = document(vec![
        foo(&["own"]),
        block("own", None, path("Foo"), &["get"]),
        method("get", "get", vec![this(), path("f32")], Some(path("Mat4"))),
    ]);
    let text = body(&doc, &Newtype::new("Foo".to_string()), &config());
    let commented = "\n//\t\n//\t\t\tget(self,f32) ->  \n//\t\t\tError: Unsupported return type `Mat4` in type: `Some(\"Foo\")`.";
    assert_eq!(text, format!("{EMPTY_OPS} \n\t\t+ AutoMethods(\n\t\t{commented}\n\t\t)"));
    // `self` is no result
    let doc = document(vec![
        foo(&["own"]),
        block("own", None, path("Foo"), &["get"]),
        method("get", "get", vec![], Some(Type::Other { dump: "Odd".to_string() })),
    ]);
    let text = body(&doc, &Newtype::new("Foo".to_string()), &config());
    assert!(text.contains("Error: Unsupported return type `Odd` in type: `Some(\"Foo\")`."));
}

#[test]
fn the_owner_is_written_as_debug_text() {
    let named = item(
        "foo",
        Some("Fo\"o"),
        ItemEnum::Struct { impls: vec![id("own")] },
    );
    let doc = document(vec![
        named,
        block("own", None, path("Foo"), &["m"]),
        method("m", "m", vec![path("Unknown")], None),
    ]);
    let text = body(&doc, &Newtype::new("Foo".to_string()), &config());
    assert!(text.contains("in type: `Some(\"Fo\\\"o\")`."));
}

#[test]
fn unary_operator_clauses() {
    let doc = document(vec![
        foo(&["n1", "n2"]),
        block("n1", Some("Neg"), path("Foo"), &["neg1"]),
        block("n2", Some("Neg"), path("Other"), &["neg2"]),
        method("neg1", "neg", vec![this()], None),
        method("neg2", "neg", vec![this()], None),
    ]);
    assert_eq!(
        body(&doc, &Newtype::new("Foo".to_string()), &config()),
        "UnaryOps(\n\t\t\tNeg self,\n\t\t\tNeg self\n\t\t\t) \n\t\t+ BinOps(\n\t\t\t\n\t\t\t)"
    );
}

#[test]
fn one_add_block_for_the_type_and_one_for_an_unrelated_type() {
    let doc = document(vec![
        foo(&["mine", "theirs"]),
        block("mine", Some("Add"), path("Foo"), &["add1", "out1"]),
        block("theirs", Some("Add"), path("Unrelated"), &["add2", "out2"]),
        method("add1", "add", vec![this(), path("f32")], Some(path("Whatever"))),
        output("out1", this()),
        method("add2", "add", vec![this(), path("Foo")], None),
        output("out2", path("Foo")),
    ]);
    let text = body(&doc, &Newtype::new("Foo".to_string()), &config());
    let good = "self Add f32 -> LuaFoo";
    let bad = "\n//\t\t\t Error: unsupported lhs operator `ResolvedPath { name: \"Unrelated\" }` in `Add`";
    assert_eq!(
        text,
        format!("UnaryOps(\n\t\t\t\n\t\t\t) \n\t\t+ BinOps(\n\t\t\t{good},\n\t\t\t{bad}\n\t\t\t)")
    );
    assert_eq!(text.matches(" Add ").count(), 1);
    assert_eq!(text.matches("Error: unsupported lhs operator").count(), 1);
}

#[test]
fn operators_come_in_their_fixed_order() {
    let doc = document(vec![
        foo(&["r", "m", "s"]),
        block("r", Some("Rem"), path("Foo"), &["rem", "out"]),
        block("m", Some("Mul"), path("f32"), &["mul", "out"]),
        block("s", Some("Sub"), path("Foo"), &["sub", "out"]),
        method("rem", "rem", vec![this(), this()], None),
        method("mul", "mul", vec![this(), path("Foo")], None),
        method("sub", "sub", vec![this(), path("Bar")], None),
        output("out", path("Foo")),
    ]);
    let text = body(&doc, &Newtype::new("Foo".to_string()), &config());
    let sub = "self Sub LuaBar -> LuaFoo";
    let mul = "f32 Mul self -> LuaFoo";
    let rem = "self Rem LuaFoo -> LuaFoo";
    assert_eq!(
        text,
        format!("UnaryOps(\n\t\t\t\n\t\t\t) \n\t\t+ BinOps(\n\t\t\t{sub},\n\t\t\t{mul},\n\t\t\t{rem}\n\t\t\t)")
    );
}

#[test]
fn operator_for_another_configured_target() {
    let doc = document(vec![
        foo(&["d"]),
        block("d", Some("Div"), path("Bar"), &["div", "out"]),
        method("div", "div", vec![this(), path("Foo")], None),
        output("out", this()),
    ]);
    let text = body(&doc, &Newtype::new("Foo".to_string()), &config());
    assert!(text.contains("BinOps(\n\t\t\tLuaBar Div self -> LuaBar\n\t\t\t)"));
}

#[test]
fn operator_clauses_that_degrade() {
    // an operand that is unknown
    let doc = document(vec![
        foo(&["a"]),
        block("a", Some("Add"), path("Foo"), &["add", "out"]),
        method("add", "add", vec![this(), path("Mat4")], None),
        output("out", this()),
    ]);
    let text = body(&doc, &Newtype::new("Foo".to_string()), &config());
    assert!(text.contains("BinOps(\n\t\t\t// Error: unsupported type in `Method(add)`\n\t\t\t)"));
    // no `Output` type
    let doc = document(vec![
        foo(&["a"]),
        block("a", Some("Add"), path("Foo"), &["add", "other"]),
        method("add", "add", vec![this(), this()], None),
        item("other", Some("Other"), ItemEnum::Typedef(this())),
    ]);
    let text = body(&doc, &Newtype::new("Foo".to_string()), &config());
    assert!(text.contains("BinOps(\n\t\t\t// Error: unsupported type in `Method(add)`\n\t\t\t)"));
    // an `Output` type that is unknown
    let doc = document(vec![
        foo(&["a"]),
        block("a", Some("Add"), path("Foo"), &["add", "out"]),
        method("add", "add", vec![this(), this()], None),
        output("out", path("Mat4")),
    ]);
    let text = body(&doc, &Newtype::new("Foo".to_string()), &config());
    assert!(text.contains("BinOps(\n\t\t\t// Error: unsupported type in `Method(add)`\n\t\t\t)"));
    // a member that is no method
    let doc = document(vec![
        foo(&["a"]),
        block("a", Some("Add"), path("Foo"), &["add"]),
        item("add", Some("add"), ItemEnum::Typedef(this())),
    ]);
    let text = body(&doc, &Newtype::new("Foo".to_string()), &config());
    assert!(text.contains("BinOps(\n\t\t\t// Error: unsupported member in `Add`\n\t\t\t)"));
    // a type that cannot be rendered on the left
    let doc = document(vec![
        foo(&["a"]),
        block("a", Some("Add"), Type::Other { dump: "Odd".to_string() }, &["add"]),
        method("add", "add", vec![this(), this()], None),
    ]);
    let text = body(&doc, &Newtype::new("Foo".to_string()), &config());
    assert!(text.contains("Error: unsupported lhs operator `Other { dump: \"Odd\" }` in `Add`"));
}

#[test]
fn first_output_alias_is_the_result() {
    let doc = document(vec![
        foo(&["a"]),
        block("a", Some("Add"), path("Foo"), &["add", "o1", "o2"]),
        method("add", "add", vec![this(), this()], None),
        output("o1", path("f32")),
        output("o2", path("Bar")),
    ]);
    let text = body(&doc, &Newtype::new("Foo".to_string()), &config());
    assert!(text.contains("self Add LuaFoo -> f32"));
}

#[test]
fn derive_flags_come_first() {
    let doc = document(vec![foo(&[])]);
    let mut entry = Newtype::new("Foo".to_string());
    entry.derive_flags = vec!["Clone".to_string(), "Debug".to_string()];
    assert_eq!(
        body(&doc, &entry, &config()),
        format!("Clone\n\t\t+ Debug\n\t\t+ {EMPTY_OPS}")
    );
    entry.derive_flags = vec![String::new()];
    assert_eq!(body(&doc, &entry, &config()), EMPTY_OPS);
}

#[test]
fn descriptor_of_a_type() {
    let mut main = foo(&[]);
    main.docs = Some("A foo.".to_string());
    let doc = document(vec![main]);
    let mut entry = Newtype::new("Foo".to_string());
    let c = config();
    {
        let w = WrappedItem::new(&doc, &doc.index()[0], &entry).unwrap();
        assert_eq!(
            w.descriptor(&c),
            format!("{{\n    \n\t///A foo.\n    my::Foo : Reflect:\n        {EMPTY_OPS} \n}},\n")
        );
    }
    entry.wrapper_type = WrapperType::NonReflect;
    entry.lua_methods = vec!["\"x\" => y".to_string()];
    let w = WrappedItem::new(&doc, &doc.index()[0], &entry).unwrap();
    assert_eq!(
        w.descriptor(&c),
        format!(
            "{{\n    \n\t///A foo.\n    my::Foo : NonReflect(Foo):\n        {EMPTY_OPS} \n\timpl {{\n\n\t\t\t\"x\" => y;}}\n}},\n"
        )
    );
}

#[test]
fn wording_of_the_notes() {
    assert_eq!(
        unsupported_argument_message("T", "Some(\"Foo\")"),
        "Unsupported argument `T` in type: `Some(\"Foo\")`."
    );
    assert_eq!(
        unsupported_return_message("T", "None"),
        "Unsupported return type `T` in type: `None`."
    );
    assert_eq!(unsupported_operator_message("M"), "// Error: unsupported type in `M`");
    assert_eq!(unsupported_member_message("Add"), "// Error: unsupported member in `Add`");
    assert_eq!(
        unsupported_lhs_message("L", "Add"),
        "\n//\t\t\t Error: unsupported lhs operator `L` in `Add`"
    );
}
