//! The declarations that the root file of an analysed crate is given before
//! it is compiled: one `extern crate` for each crate that the bindings refer
//! to, unless the file declares it itself.

use vstd::prelude::*;
use vstd::string::*;
use crate::text::occurs_in;

verus! {

/// `str::contains` with a string as the pattern: whether the pattern occurs
/// in the text.
#[verifier::external_body]
fn contains(text: &str, pattern: &str) -> (r: bool)
    ensures
        r == occurs_in(text@, pattern@),
{
    text.contains(pattern)
}

/// `text` with the declaration of the crate `name`: unchanged where the text
/// declares the crate already; else with a public declaration at its end
/// where the text re-exports the crate, and with a private one where it does
/// not.
pub open spec fn with_crate(text: Seq<char>, name: Seq<char>) -> Seq<char> {
    if occurs_in(text, "extern crate "@ + name) {
        text
    } else if occurs_in(text, "pub use "@ + name) {
        text + "#[allow(unused_extern_crates)] pub extern crate "@ + name + ";"@
    } else {
        text + "#[allow(unused_extern_crates)] extern crate "@ + name + ";"@
    }
}

/// `text` with the declarations of the crates that the bindings refer to.
pub open spec fn with_extern_crates(text: Seq<char>) -> Seq<char> {
    with_crate(with_crate(text, "bevy_reflect"@), "bevy_mod_scripting_core"@)
}

/// Adds the declaration of the crate `name` to `text` where it is missing.
pub fn inject_crate(text: String, name: &str) -> (r: String)
    ensures
        r@ == with_crate(text@, name@),
{
    let mut declaration = String::from_str("extern crate ");
    declaration.append(name);
    if contains(text.as_str(), declaration.as_str()) {
        return text;
    }
    let mut reexport = String::from_str("pub use ");
    reexport.append(name);
    let mut out = text;
    if contains(out.as_str(), reexport.as_str()) {
        out.append("#[allow(unused_extern_crates)] pub extern crate ");
    } else {
        out.append("#[allow(unused_extern_crates)] extern crate ");
    }
    out.append(name);
    out.append(";");
    out
}

/// Adds the declarations of the crates that the bindings refer to.
pub fn inject_extern_crates(text: String) -> (r: String)
    ensures
        r@ == with_extern_crates(text@),
{
    inject_crate(inject_crate(text, "bevy_reflect"), "bevy_mod_scripting_core")
}

} // verus!
