use newtype_bindgen::injection::{inject_crate, inject_extern_crates};

#[test]
fn private_declarations_are_added() {
    assert_eq!(
        inject_extern_crates("fn main() {}".to_string()),
        "fn main() {}#[allow(unused_extern_crates)] extern crate bevy_reflect;#[allow(unused_extern_crates)] extern crate bevy_mod_scripting_core;"
    );
    assert_eq!(
        inject_extern_crates(String::new()),
        "#[allow(unused_extern_crates)] extern crate bevy_reflect;#[allow(unused_extern_crates)] extern crate bevy_mod_scripting_core;"
    );
}

#[test]
fn a_declared_crate_is_left_alone() {
    let text = "extern crate bevy_reflect;\npub extern crate bevy_mod_scripting_core;\n";
    assert_eq!(inject_extern_crates(text.to_string()), text);
    let text = "extern crate bevy_reflect;\n";
    assert_eq!(
        inject_extern_crates(text.to_string()),
        format!("{text}#[allow(unused_extern_crates)] extern crate bevy_mod_scripting_core;")
    );
}

#[test]
fn a_reexported_crate_is_declared_in_public() {
    let text = "pub use bevy_reflect::Reflect;\n";
    assert_eq!(
        inject_extern_crates(text.to_string()),
        format!("{text}#[allow(unused_extern_crates)] pub extern crate bevy_reflect;#[allow(unused_extern_crates)] extern crate bevy_mod_scripting_core;")
    );
}

#[test]
fn one_crate_at_a_time() {
    assert_eq!(inject_crate("mod a;".to_string(), "x"), "mod a;#[allow(unused_extern_crates)] extern crate x;");
    assert_eq!(inject_crate("pub use x;".to_string(), "x"), "pub use x;#[allow(unused_extern_crates)] pub extern crate x;");
    assert_eq!(inject_crate("pub use xy;".to_string(), "x"), "pub use xy;#[allow(unused_extern_crates)] pub extern crate x;");
    assert_eq!(inject_crate("extern crate xy;".to_string(), "x"), "extern crate xy;");
    assert_eq!(inject_crate("extern  crate x;".to_string(), "x"), "extern  crate x;#[allow(unused_extern_crates)] extern crate x;");
}
