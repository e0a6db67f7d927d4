use newtype_bindgen::catalog::{primitive_bindings, PRIMITIVE_BINDINGS};
use newtype_bindgen::{
    generate_macros, Config, Crate, FnDecl, Id, Impl, Item, ItemEnum, ItemSummary, Method, Newtype,
    ResolveError, Type,
};

fn id(s: &str) -> Id {
    Id(s.to_string())
}

fn structure(name: &str, impls: &[&str]) -> Item {
    Item {
        id: id(name),
        crate_id: 0,
        name: Some(name.to_string()),
        docs: None,
        inner: ItemEnum::Struct { impls: impls.iter().map(|s| id(s)).collect() },
    }
}

fn summary(name: &str) -> ItemSummary {
    ItemSummary { id: id(name), path: vec!["lib".to_string(), name.to_string()] }
}

fn items(names: &[&str]) -> Vec<Item> {
    names.iter().map(|n| structure(n, &[])).collect()
}

fn paths(names: &[&str]) -> Vec<ItemSummary> {
    names.iter().map(|n| summary(n)).collect()
}

fn document(names: &[&str]) -> Crate {
    Crate::new(items(names), paths(names), vec![7])
}

fn config(names: &[&str]) -> Config {
    Config::new(
        names.iter().map(|n| Newtype::new(n.to_string())).collect(),
        "use things::*;".to_string(),
        vec!["Ext1".to_string(), "Ext2".to_string()],
        vec!["f32".to_string()],
    )
}

const OPS: &str = "UnaryOps(\n\t\t\t\n\t\t\t) \n\t\t+ BinOps(\n\t\t\t\n\t\t\t)";

fn plain(name: &str) -> String {
    format!("{{\n    \n    lib::{name} : Reflect:\n        {OPS} \n}},\n")
}

fn payload(bodies: &[String]) -> String {
    format!(
        "use things::*;\n impl_lua_newtypes!([Ext1,Ext2][\n{}{}]);",
        PRIMITIVE_BINDINGS,
        bodies.concat()
    )
}

#[test]
fn catalog_of_primitives() {
    assert_eq!(primitive_bindings(), PRIMITIVE_BINDINGS);
    assert!(PRIMITIVE_BINDINGS.starts_with("\n    {\n            usize : Primitive\n            impl {\n"));
    assert!(PRIMITIVE_BINDINGS.ends_with("            }\n    },\n    "));
    assert_eq!(PRIMITIVE_BINDINGS.matches(" : Primitive\n").count(), 15);
    for name in [
        "usize", "isize", "i128", "i64", "i32", "i16", "i8", "u128", "u64", "u32", "u16", "u8",
        "f32", "f64", "alloc::string::String",
    ] {
        assert!(PRIMITIVE_BINDINGS.contains(&format!("    {{\n            {name} : Primitive\n")));
    }
    assert!(PRIMITIVE_BINDINGS.contains("\"to\" => |r,_| r.get(|s,_| Value::Integer(s.downcast_ref::<u8>().unwrap().to_i64().unwrap()));"));
    assert!(PRIMITIVE_BINDINGS.contains("Error::RuntimeError(\"Value not compatibile with f32\".to_owned())"));
    assert_eq!(PRIMITIVE_BINDINGS.len(), 6437);
}

#[test]
fn target_absent_from_every_document() {
    let docs = vec![document(&["A", "B"]), document(&[])];
    assert_eq!(generate_macros(&docs, config(&["Missing"])), Ok(payload(&[])));
    assert_eq!(generate_macros(&[], config(&["Missing"])), Ok(payload(&[])));
    assert_eq!(generate_macros(&docs, config(&[])), Ok(payload(&[])));
}

#[test]
fn descriptors_follow_the_configuration() {
    let docs = vec![document(&["A", "B", "C", "D"])];
    let out = generate_macros(&docs, config(&["C", "A", "D"])).unwrap();
    assert_eq!(out, payload(&[plain("C"), plain("A"), plain("D")]));
}

#[test]
fn reordering_a_document_changes_nothing() {
    let forward = vec![document(&["A", "B", "C", "D"])];
    let backward = vec![document(&["D", "C", "B", "A"])];
    let mixed = vec![document(&["B", "D", "A", "C"])];
    let expected = payload(&[plain("B"), plain("D"), plain("A")]);
    assert_eq!(generate_macros(&forward, config(&["B", "D", "A"])), Ok(expected.clone()));
    assert_eq!(generate_macros(&backward, config(&["B", "D", "A"])), Ok(expected.clone()));
    assert_eq!(generate_macros(&mixed, config(&["B", "D", "A"])), Ok(expected));
}

#[test]
fn several_documents() {
    let docs = vec![document(&["A", "B"]), document(&["C", "A"])];
    let out = generate_macros(&docs, config(&["C", "A"])).unwrap();
    // both items called `A` are wrapped, in the order of the documents
    assert_eq!(out, payload(&[plain("C"), plain("A"), plain("A")]));
}

#[test]
fn identifiers_resolve_within_their_document() {
    let first = Crate::new(vec![structure("A", &["block"])], paths(&["A"]), vec![7]);
    let block = Item {
        id: id("block"),
        crate_id: 0,
        name: None,
        docs: None,
        inner: ItemEnum::Impl(Impl {
            trait_: None,
            for_: Type::ResolvedPath { name: "A".to_string() },
            for_dump: String::new(),
            items: Vec::new(),
        }),
    };
    let second = Crate::new(vec![block], Vec::new(), vec![7]);
    let docs = vec![first, second];
    assert_eq!(generate_macros(&docs, config(&["A"])), Err(ResolveError::UnresolvedImpl));
}

#[test]
fn items_that_are_not_eligible_are_passed_over() {
    let mut index = items(&["A", "B", "C"]);
    // external
    index[0].crate_id = 7;
    // not a struct or an enum
    index[1].inner = ItemEnum::Method(Method {
        decl: FnDecl { inputs: Vec::new(), output: None },
        dump: String::new(),
    });
    // no name
    index[2].name = None;
    let docs = vec![Crate::new(index, paths(&["A", "B", "C"]), vec![7])];
    assert_eq!(generate_macros(&docs, config(&["A", "B", "C"])), Ok(payload(&[])));
}

#[test]
fn a_type_that_cannot_be_resolved_fails_the_run() {
    let broken = || vec![structure("A", &[]), structure("B", &["gone"])];
    let docs = vec![Crate::new(broken(), paths(&["A", "B"]), vec![7])];
    assert_eq!(generate_macros(&docs, config(&["A", "B"])), Err(ResolveError::UnresolvedImpl));
    // the same document is fine while `B` is no target
    assert_eq!(generate_macros(&docs, config(&["A"])), Ok(payload(&[plain("A")])));
    let doc = Crate::new(broken(), paths(&["B"]), vec![7]);
    // the fault of the first eligible item in the order of the document
    assert_eq!(generate_macros(&[doc], config(&["B", "A"])), Err(ResolveError::MissingPath));
}

#[test]
fn enums_are_wrapped_too() {
    let mut index = items(&["E"]);
    index[0].inner = ItemEnum::Enum { impls: Vec::new() };
    let doc = Crate::new(index, paths(&["E"]), vec![7]);
    assert_eq!(generate_macros(&[doc], config(&["E"])), Ok(payload(&[plain("E")])));
}
