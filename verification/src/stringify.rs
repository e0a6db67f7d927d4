//! Rendering of type references as text. The shape of a reference (tuple,
//! slice, array, borrow) is written here; what a named type becomes is
//! decided by the transform that the caller supplies.

use vstd::prelude::*;
use vstd::string::*;
use crate::document::Type;
use crate::text::{join, join_strings};

verus! {

/// A result of rendering, as characters.
pub open spec fn view_result(r: Result<String, String>) -> Result<Seq<char>, Seq<char>> {
    match r {
        Ok(s) => Ok(s@),
        Err(e) => Err(e@),
    }
}

/// Decides what the name of a type becomes in rendered text, or rejects it
/// with a reason.
pub trait BaseTransform {
    /// What each name becomes.
    spec fn meaning(&self) -> spec_fn(Seq<char>) -> Result<Seq<char>, Seq<char>>;

    /// Computes what `base` becomes.
    fn transform(&self, base: &String) -> (r: Result<String, String>)
        ensures
            view_result(r) == (self.meaning())(base@),
    ;
}

/// What each name becomes when it is left as it is.
pub open spec fn identity_transform() -> spec_fn(Seq<char>) -> Result<Seq<char>, Seq<char>> {
    |base: Seq<char>| Ok(base)
}

/// The transform that leaves every name as it is.
pub struct Identity;

impl BaseTransform for Identity {
    open spec fn meaning(&self) -> spec_fn(Seq<char>) -> Result<Seq<char>, Seq<char>> {
        identity_transform()
    }

    fn transform(&self, base: &String) -> (r: Result<String, String>) {
        Ok(base.clone())
    }
}

/// What is written for the lifetime of a borrow.
pub open spec fn lifetime_text(lifetime: Option<String>) -> Seq<char> {
    match lifetime {
        Some(l) => "'"@ + l@ + " "@,
        None => Seq::empty(),
    }
}

/// What is written for the mutability of a borrow.
pub open spec fn mutability_text(mutable: bool) -> Seq<char> {
    if mutable {
        "mut "@
    } else {
        Seq::empty()
    }
}

/// The text of `t` under the transform `f`: names go through `f`, primitives
/// stand as they are, and tuples, slices, arrays and borrows are written
/// around the text of their parts. A rejected name or an unsupported shape
/// anywhere inside fails the whole, with the reason of the first such part.
pub open spec fn rendered(
    t: Type,
    f: spec_fn(Seq<char>) -> Result<Seq<char>, Seq<char>>,
) -> Result<Seq<char>, Seq<char>>
    decreases t,
{
    match t {
        Type::ResolvedPath { name } => f(name@),
        Type::Generic(name) => f(name@),
        Type::Primitive(spelling) => Ok(spelling@),
        Type::Tuple(parts) => match rendered_all(parts@, f, parts@.len()) {
            Ok(texts) => Ok("("@ + join(texts, ","@) + ")"@),
            Err(e) => Err(e),
        },
        Type::Slice(inner) => match rendered(*inner, f) {
            Ok(text) => Ok("["@ + text + "]"@),
            Err(e) => Err(e),
        },
        Type::Array { type_, len } => match rendered(*type_, f) {
            Ok(text) => Ok("["@ + text + ";"@ + len@ + "]"@),
            Err(e) => Err(e),
        },
        Type::BorrowedRef { lifetime, mutable, type_ } => match rendered(*type_, f) {
            Ok(text) => Ok("&"@ + lifetime_text(lifetime) + mutability_text(mutable) + text),
            Err(e) => Err(e),
        },
        Type::Other { dump } => Err(dump@),
    }
}

/// The texts of the first `n` of `types`, or the reason of the first that
/// fails.
pub open spec fn rendered_all(
    types: Seq<Type>,
    f: spec_fn(Seq<char>) -> Result<Seq<char>, Seq<char>>,
    n: nat,
) -> Result<Seq<Seq<char>>, Seq<char>>
    decreases types, n,
{
    if n == 0 || n > types.len() {
        Ok(Seq::empty())
    } else {
        match rendered_all(types, f, (n - 1) as nat) {
            Err(e) => Err(e),
            Ok(done) => match rendered(types[n - 1], f) {
                Ok(text) => Ok(done.push(text)),
                Err(e) => Err(e),
            },
        }
    }
}

/// A failure among the first `n` types is the failure of any longer prefix.
pub proof fn lemma_rendered_all_fails(
    types: Seq<Type>,
    f: spec_fn(Seq<char>) -> Result<Seq<char>, Seq<char>>,
    n: nat,
    m: nat,
)
    requires
        n <= m <= types.len(),
        rendered_all(types, f, n) is Err,
    ensures
        rendered_all(types, f, m) == rendered_all(types, f, n),
    decreases m,
{
    if n < m {
        lemma_rendered_all_fails(types, f, n, (m - 1) as nat);
    }
}

/// Nested shapes keep their syntax: a mutable borrow, with a lifetime, of an
/// array of pairs is written as the ampersand, the lifetime, `mut`, and in
/// square brackets the pair in round brackets, a semicolon and the length.
pub proof fn lemma_borrowed_array_of_pairs(
    f: spec_fn(Seq<char>) -> Result<Seq<char>, Seq<char>>,
    lifetime: String,
    parts: Vec<Type>,
    len: String,
)
    requires
        parts@.len() == 2,
        rendered(parts@[0], f) is Ok,
        rendered(parts@[1], f) is Ok,
    ensures
        rendered(
            Type::BorrowedRef {
                lifetime: Some(lifetime),
                mutable: true,
                type_: Box::new(Type::Array { type_: Box::new(Type::Tuple(parts)), len }),
            },
            f,
        ) == Ok::<Seq<char>, Seq<char>>(
            "&"@ + ("'"@ + lifetime@ + " "@) + "mut "@ + ("["@ + ("("@ + (rendered(
                parts@[0],
                f,
            )->Ok_0 + ","@ + rendered(parts@[1], f)->Ok_0) + ")"@) + ";"@ + len@ + "]"@),
        ),
{
    let first = rendered(parts@[0], f)->Ok_0;
    let second = rendered(parts@[1], f)->Ok_0;
    let none = Seq::<Seq<char>>::empty();
    assert(rendered_all(parts@, f, 0) == Ok::<Seq<Seq<char>>, Seq<char>>(none));
    assert(rendered_all(parts@, f, 1) == Ok::<Seq<Seq<char>>, Seq<char>>(none.push(first)));
    assert(rendered_all(parts@, f, 2) == Ok::<Seq<Seq<char>>, Seq<char>>(
        none.push(first).push(second),
    ));
    let both = none.push(first).push(second);
    assert(both.drop_last() =~= none.push(first));
    assert(join(both.drop_last(), ","@) == first);
    assert(join(both, ","@) == first + ","@ + second);
    let pair = Type::Tuple(parts);
    assert(rendered(pair, f) == Ok::<Seq<char>, Seq<char>>("("@ + (first + ","@ + second) + ")"@));
    let array = Type::Array { type_: Box::new(pair), len };
    assert(rendered(array, f) == Ok::<Seq<char>, Seq<char>>(
        "["@ + ("("@ + (first + ","@ + second) + ")"@) + ";"@ + len@ + "]"@,
    ));
}

/// Renders `t` as text, passing each named type through `f`.
pub fn type_to_string<F: BaseTransform>(t: &Type, f: &F) -> (r: Result<String, String>)
    ensures
        view_result(r) == rendered(*t, f.meaning()),
    decreases t,
{
    match t {
        Type::ResolvedPath { name } => f.transform(name),
        Type::Generic(name) => f.transform(name),
        Type::Primitive(spelling) => Ok(spelling.clone()),
        Type::Tuple(parts) => {
            let mut texts: Vec<String> = Vec::new();
            let mut i: usize = 0;
            proof {
                assert(texts.deep_view() =~= Seq::<Seq<char>>::empty());
            }
            while i < parts.len()
                invariant
                    i <= parts.len(),
                    *t == (Type::Tuple(*parts)),
                    rendered_all(parts@, f.meaning(), i as nat) == Ok::<Seq<Seq<char>>, Seq<char>>(
                        texts.deep_view(),
                    ),
                decreases parts.len() - i,
            {
                let ghost before = texts.deep_view();
                match type_to_string(&parts[i], f) {
                    Ok(text) => {
                        texts.push(text);
                        proof {
                            assert(texts.deep_view() =~= before.push(text@));
                        }
                    },
                    Err(e) => {
                        proof {
                            lemma_rendered_all_fails(
                                parts@,
                                f.meaning(),
                                (i + 1) as nat,
                                parts@.len(),
                            );
                        }
                        return Err(e);
                    },
                }
                i = i + 1;
            }
            let mut out = String::from_str("(");
            out.append(join_strings(&texts, ",").as_str());
            out.append(")");
            Ok(out)
        },
        Type::Slice(inner) => {
            match type_to_string(inner, f) {
                Ok(text) => {
                    let mut out = String::from_str("[");
                    out.append(text.as_str());
                    out.append("]");
                    Ok(out)
                },
                Err(e) => Err(e),
            }
        },
        Type::Array { type_, len } => {
            match type_to_string(type_, f) {
                Ok(text) => {
                    let mut out = String::from_str("[");
                    out.append(text.as_str());
                    out.append(";");
                    out.append(len.as_str());
                    out.append("]");
                    Ok(out)
                },
                Err(e) => Err(e),
            }
        },
        Type::BorrowedRef { lifetime, mutable, type_ } => {
            match type_to_string(type_, f) {
                Ok(text) => {
                    let mut out = String::from_str("&");
                    match lifetime {
                        Some(l) => {
                            out.append("'");
                            out.append(l.as_str());
                            out.append(" ");
                        },
                        None => {},
                    }
                    if *mutable {
                        out.append("mut ");
                    }
                    out.append(text.as_str());
                    proof {
                        assert(out@ =~= "&"@ + lifetime_text(*lifetime) + mutability_text(*mutable)
                            + text@);
                    }
                    Ok(out)
                },
                Err(e) => Err(e),
            }
        },
        Type::Other { dump } => Err(dump.clone()),
    }
}

} // verus!
