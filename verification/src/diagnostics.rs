//! The wording of the notes that stand in for what could not be bound.

use vstd::prelude::*;
use vstd::string::*;

verus! {

/// The text that debug formatting gives for an optional name: `None`, or
/// `Some(..)` around the name in quotes, with its special characters
/// escaped.
pub uninterp spec fn debug_name_text(name: Option<Seq<char>>) -> Seq<char>;

/// `format!` with `{:?}` on an `Option<String>`: the result is the debug text
/// of the name.
#[verifier::external_body]
pub(crate) fn debug_name(name: &Option<String>) -> (r: String)
    ensures
        r@ == debug_name_text(name.deep_view()),
{
    format!("{:?}", name)
}

/// The note on a parameter of type `typ` that cannot be bound, in a member
/// of the type that `owner` describes.
pub open spec fn unsupported_argument(typ: Seq<char>, owner: Seq<char>) -> Seq<char> {
    "Unsupported argument `"@ + typ + "` in type: `"@ + owner + "`."@
}

/// The note on a result of type `typ` that cannot be bound, in a member of
/// the type that `owner` describes.
pub open spec fn unsupported_return(typ: Seq<char>, owner: Seq<char>) -> Seq<char> {
    "Unsupported return type `"@ + typ + "` in type: `"@ + owner + "`."@
}

/// The note on an operator whose operands or result cannot be bound;
/// `member` describes the operator's method.
pub open spec fn unsupported_operator(member: Seq<char>) -> Seq<char> {
    "// Error: unsupported type in `"@ + member + "`"@
}

/// The note on an operator member that is no method.
pub open spec fn unsupported_member(rep: Seq<char>) -> Seq<char> {
    "// Error: unsupported member in `"@ + rep + "`"@
}

/// The note on an operator implemented for a type that is neither a
/// configured target nor an accepted primitive; `lhs` describes that type
/// and `rep` names the operator.
pub open spec fn unsupported_lhs(lhs: Seq<char>, rep: Seq<char>) -> Seq<char> {
    "\n//\t\t\t Error: unsupported lhs operator `"@ + lhs + "` in `"@ + rep + "`"@
}

/// Words the note on a parameter that cannot be bound.
pub fn unsupported_argument_message(typ: &str, owner: &str) -> (r: String)
    ensures
        r@ == unsupported_argument(typ@, owner@),
{
    let mut out = String::from_str("Unsupported argument `");
    out.append(typ);
    out.append("` in type: `");
    out.append(owner);
    out.append("`.");
    out
}

/// Words the note on a result that cannot be bound.
pub fn unsupported_return_message(typ: &str, owner: &str) -> (r: String)
    ensures
        r@ == unsupported_return(typ@, owner@),
{
    let mut out = String::from_str("Unsupported return type `");
    out.append(typ);
    out.append("` in type: `");
    out.append(owner);
    out.append("`.");
    out
}

/// Words the note on an operator whose operands or result cannot be bound.
pub fn unsupported_operator_message(member: &str) -> (r: String)
    ensures
        r@ == unsupported_operator(member@),
{
    let mut out = String::from_str("// Error: unsupported type in `");
    out.append(member);
    out.append("`");
    out
}

/// Words the note on an operator member that is no method.
pub fn unsupported_member_message(rep: &str) -> (r: String)
    ensures
        r@ == unsupported_member(rep@),
{
    let mut out = String::from_str("// Error: unsupported member in `");
    out.append(rep);
    out.append("`");
    out
}

/// Words the note on an operator implemented for a type that cannot be
/// bound.
pub fn unsupported_lhs_message(lhs: &str, rep: &str) -> (r: String)
    ensures
        r@ == unsupported_lhs(lhs@, rep@),
{
    let mut out = String::from_str("\n//\t\t\t Error: unsupported lhs operator `");
    out.append(lhs);
    out.append("` in `");
    out.append(rep);
    out.append("`");
    out
}

} // verus!
