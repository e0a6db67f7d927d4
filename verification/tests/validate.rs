use newtype_bindgen::{is_valid_lua_fn_arg, is_valid_lua_fn_return_typ, Config, Newtype};

const ARGUMENT_PRIMITIVES: [&str; 19] = [
    "bool", "StdString", "Box<str>", "CString", "BString", "i8", "u8", "i16", "u16", "i32", "u32",
    "i64", "u64", "i128", "u128", "isize", "usize", "f32", "f64",
];

const RETURN_ONLY: [&str; 3] = ["&str", "&CStr", "&BStr"];

fn config() -> Config {
    Config::new(
        vec![Newtype::new("Vec3".to_string()), Newtype::new("Quat".to_string())],
        String::new(),
        Vec::new(),
        ARGUMENT_PRIMITIVES.iter().map(|s| s.to_string()).collect(),
    )
}

#[test]
fn listed_primitives_are_valid() {
    let c = config();
    let none = Config::new(Vec::new(), String::new(), Vec::new(), Vec::new());
    for p in ARGUMENT_PRIMITIVES {
        assert!(is_valid_lua_fn_arg(p, &c), "{p}");
        assert!(is_valid_lua_fn_return_typ(p, &c), "{p}");
        assert!(is_valid_lua_fn_arg(p, &none), "{p}");
        assert!(is_valid_lua_fn_return_typ(p, &none), "{p}");
    }
    for p in RETURN_ONLY {
        assert!(!is_valid_lua_fn_arg(p, &c), "{p}");
        assert!(is_valid_lua_fn_return_typ(p, &c), "{p}");
    }
}

#[test]
fn unknown_names_are_invalid() {
    let c = config();
    for s in ["Mat4", "String", "char", "", "&u8", "&mut u8", "(u8,u8)", "[u8]", "Lua", "LuaMat4", "luaVec3", "Vec3", "Self", "&mut self", "& self", "u8 "] {
        assert!(!is_valid_lua_fn_arg(s, &c), "{s}");
        assert!(!is_valid_lua_fn_return_typ(s, &c), "{s}");
    }
}

#[test]
fn wrappers_of_targets_are_valid() {
    let c = config();
    for s in ["LuaVec3", "LuaQuat"] {
        assert!(is_valid_lua_fn_arg(s, &c));
        assert!(is_valid_lua_fn_return_typ(s, &c));
    }
    assert!(!is_valid_lua_fn_arg("LuaVec", &c));
    assert!(!is_valid_lua_fn_arg("LuaVec33", &c));
    assert!(!is_valid_lua_fn_arg("&LuaVec3", &c));
}

#[test]
fn self_is_valid_as_an_argument_only() {
    let c = config();
    assert!(is_valid_lua_fn_arg("self", &c));
    assert!(is_valid_lua_fn_arg("&self", &c));
    assert!(!is_valid_lua_fn_return_typ("self", &c));
    assert!(!is_valid_lua_fn_return_typ("&self", &c));
}

#[test]
fn wrapper_prefix_is_counted_in_characters() {
    let c = Config::new(
        vec![Newtype::new("Größe".to_string())],
        String::new(),
        Vec::new(),
        Vec::new(),
    );
    assert!(is_valid_lua_fn_arg("LuaGröße", &c));
    assert!(!is_valid_lua_fn_arg("LüaGröße", &c));
    assert!(!is_valid_lua_fn_arg("é", &c));
}
