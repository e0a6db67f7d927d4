use newtype_bindgen::{Config, Newtype, Source, WrapperType, WRAPPER_PREFIX};

fn target(name: &str) -> Newtype {
    Newtype::new(name.to_string())
}

fn config_of(names: &[&str]) -> Config {
    Config::new(names.iter().map(|n| target(n)).collect(), String::new(), Vec::new(), Vec::new())
}

#[test]
fn defaults_of_a_target() {
    let t = target("Vec3");
    assert_eq!(t.type_, "Vec3");
    assert_eq!(t.doc, None);
    assert_eq!(t.source.0, "bevy");
    assert_eq!(t.wrapper_type, WrapperType::Reflect);
    assert!(t.lua_methods.is_empty());
    assert!(t.derive_flags.is_empty());
    assert_eq!(t.import_path, "");
    assert_eq!(Source::default().0, "bevy");
    assert_eq!(WrapperType::default(), WrapperType::Reflect);
    assert_eq!(WRAPPER_PREFIX, "Lua");
}

#[test]
fn wrapper_type_spellings() {
    assert_eq!(WrapperType::Reflect.to_string(), "Reflect");
    assert_eq!(WrapperType::NonReflect.to_string(), "NonReflect");
    assert_eq!(WrapperType::Primitive.to_string(), "Primitive");
}

#[test]
fn targets_keep_declaration_order() {
    let c = config_of(&["Zeta", "Alpha", "Mid"]);
    assert_eq!(c.len(), 3);
    assert_eq!(c.get_index_of("Zeta"), Some(0));
    assert_eq!(c.get_index_of("Alpha"), Some(1));
    assert_eq!(c.get_index_of("Mid"), Some(2));
    assert_eq!(c.get_index_of("Other"), None);
    assert_eq!(c.entry(1).type_, "Alpha");
    assert!(c.contains_type("Mid"));
    assert!(!c.contains_type("mid"));
    assert!(!c.contains_type(""));
    assert_eq!(c.get("Alpha").map(|e| e.type_.as_str()), Some("Alpha"));
    assert!(c.get("Beta").is_none());
}

#[test]
fn empty_configuration() {
    let c = config_of(&[]);
    assert_eq!(c.len(), 0);
    assert!(!c.contains_type("Vec3"));
    assert_eq!(c.get_index_of("Vec3"), None);
    assert!(!c.contains_primitive("f32"));
}

#[test]
fn later_declaration_of_a_name_replaces_the_earlier_in_place() {
    let mut again = target("A");
    again.doc = Some("second".to_string());
    again.wrapper_type = WrapperType::NonReflect;
    let c = Config::new(
        vec![target("A"), target("B"), again, target("C")],
        String::new(),
        Vec::new(),
        Vec::new(),
    );
    assert_eq!(c.len(), 3);
    assert_eq!(c.get_index_of("A"), Some(0));
    assert_eq!(c.get_index_of("B"), Some(1));
    assert_eq!(c.get_index_of("C"), Some(2));
    let a = c.get("A").unwrap();
    assert_eq!(a.doc.as_deref(), Some("second"));
    assert_eq!(a.wrapper_type, WrapperType::NonReflect);
    assert_eq!(c.entry(0).doc.as_deref(), Some("second"));
}

#[test]
fn global_settings_are_kept() {
    let c = Config::new(
        vec![target("A")],
        "use a::b;".to_string(),
        vec!["X".to_string(), "Y".to_string()],
        vec!["f32".to_string(), "usize".to_string()],
    );
    assert_eq!(c.imports(), "use a::b;");
    assert_eq!(c.external_types(), &vec!["X".to_string(), "Y".to_string()]);
    assert!(c.contains_primitive("f32"));
    assert!(c.contains_primitive("usize"));
    assert!(!c.contains_primitive("u8"));
    assert!(!c.contains_primitive("A"));
}
