use newtype_bindgen::argument::{AutoMethodPolicy, OperatorPolicy};
use newtype_bindgen::stringify::{BaseTransform, Identity};
use newtype_bindgen::{type_to_string, Config, Newtype, Type};

fn prim(s: &str) -> Type {
    Type::Primitive(s.to_string())
}

fn path(s: &str) -> Type {
    Type::ResolvedPath { name: s.to_string() }
}

fn config() -> Config {
    Config::new(
        vec![Newtype::new("Vec3".to_string()), Newtype::new("Quat".to_string())],
        String::new(),
        Vec::new(),
        vec!["f32".to_string(), "usize".to_string()],
    )
}

#[test]
fn nested_shapes_keep_their_syntax() {
    let t = Type::BorrowedRef {
        lifetime: Some("a".to_string()),
        mutable: true,
        type_: Box::new(Type::Array {
            type_: Box::new(Type::Tuple(vec![prim("u8"), prim("u16")])),
            len: "4".to_string(),
        }),
    };
    assert_eq!(type_to_string(&t, &Identity), Ok("&'a mut [(u8,u16);4]".to_string()));
}

#[test]
fn simple_shapes() {
    assert_eq!(type_to_string(&prim("f32"), &Identity), Ok("f32".to_string()));
    assert_eq!(type_to_string(&path("Vec3"), &Identity), Ok("Vec3".to_string()));
    assert_eq!(
        type_to_string(&Type::Generic("Self".to_string()), &Identity),
        Ok("Self".to_string())
    );
    assert_eq!(type_to_string(&Type::Tuple(vec![]), &Identity), Ok("()".to_string()));
    assert_eq!(type_to_string(&Type::Tuple(vec![prim("u8")]), &Identity), Ok("(u8)".to_string()));
    assert_eq!(type_to_string(&Type::Slice(Box::new(prim("u8"))), &Identity), Ok("[u8]".to_string()));
    let shared = Type::BorrowedRef { lifetime: None, mutable: false, type_: Box::new(prim("str")) };
    assert_eq!(type_to_string(&shared, &Identity), Ok("&str".to_string()));
    let unique = Type::BorrowedRef { lifetime: None, mutable: true, type_: Box::new(path("Vec3")) };
    assert_eq!(type_to_string(&unique, &Identity), Ok("&mut Vec3".to_string()));
    let named = Type::BorrowedRef {
        lifetime: Some("static".to_string()),
        mutable: false,
        type_: Box::new(prim("str")),
    };
    assert_eq!(type_to_string(&named, &Identity), Ok("&'static str".to_string()));
}

#[test]
fn unsupported_shape_fails_with_its_dump() {
    let other = Type::Other { dump: "FunctionPointer(..)".to_string() };
    assert_eq!(type_to_string(&other, &Identity), Err("FunctionPointer(..)".to_string()));
    let nested = Type::Tuple(vec![
        prim("u8"),
        Type::Slice(Box::new(Type::Other { dump: "first".to_string() })),
        Type::Other { dump: "second".to_string() },
    ]);
    assert_eq!(type_to_string(&nested, &Identity), Err("first".to_string()));
}

#[test]
fn names_go_through_the_transform() {
    let c = config();
    let wrapped = "Vec3".to_string();
    let first = AutoMethodPolicy { wrapped_type: &wrapped, config: &c, is_first_arg: true };
    let later = AutoMethodPolicy { wrapped_type: &wrapped, config: &c, is_first_arg: false };
    let this = Type::Generic("Self".to_string());
    assert_eq!(type_to_string(&this, &first), Ok("self".to_string()));
    assert_eq!(type_to_string(&this, &later), Ok("LuaVec3".to_string()));
    let by_ref = Type::BorrowedRef { lifetime: None, mutable: false, type_: Box::new(this) };
    assert_eq!(type_to_string(&by_ref, &first), Ok("&self".to_string()));
    assert_eq!(type_to_string(&path("Quat"), &later), Ok("LuaQuat".to_string()));
    assert_eq!(type_to_string(&path("f32"), &later), Ok("f32".to_string()));
    assert_eq!(type_to_string(&path("Mat4"), &later), Err("Mat4".to_string()));
    let pair = Type::Tuple(vec![path("Quat"), path("Mat4"), path("Nope")]);
    assert_eq!(type_to_string(&pair, &later), Err("Mat4".to_string()));
    // a primitive spelling never reaches the transform
    assert_eq!(type_to_string(&prim("u64"), &later), Ok("u64".to_string()));
}

#[test]
fn auto_method_policy_cases() {
    let c = config();
    let wrapped = "Vec3".to_string();
    let unknown = "Thing".to_string();
    let first = AutoMethodPolicy { wrapped_type: &wrapped, config: &c, is_first_arg: true };
    let later = AutoMethodPolicy { wrapped_type: &wrapped, config: &c, is_first_arg: false };
    assert_eq!(first.transform(&"Self".to_string()), Ok("self".to_string()));
    assert_eq!(later.transform(&"Self".to_string()), Ok("LuaVec3".to_string()));
    assert_eq!(first.transform(&"Vec3".to_string()), Ok("LuaVec3".to_string()));
    assert_eq!(first.transform(&"usize".to_string()), Ok("usize".to_string()));
    assert_eq!(first.transform(&"u8".to_string()), Err("u8".to_string()));
    // `Self` of a type that is no target and no primitive
    let odd = AutoMethodPolicy { wrapped_type: &unknown, config: &c, is_first_arg: false };
    assert_eq!(odd.transform(&"Self".to_string()), Err("Thing".to_string()));
}

#[test]
fn operator_policy_cases() {
    let c = config();
    let wrapped = "Vec3".to_string();
    let scalar = "f32".to_string();
    let policy = |self_type: &String, is_first_arg: bool, is_return_type: bool, base: &str| {
        OperatorPolicy {
            self_type,
            wrapped_type: &wrapped,
            config: &c,
            is_first_arg,
            is_return_type,
        }
        .transform(&base.to_string())
    };
    // the wrapped type on the left
    assert_eq!(policy(&wrapped, true, false, "Self"), Ok("self".to_string()));
    assert_eq!(policy(&wrapped, false, false, "Self"), Ok("LuaVec3".to_string()));
    assert_eq!(policy(&wrapped, false, true, "Self"), Ok("LuaVec3".to_string()));
    assert_eq!(policy(&wrapped, false, false, "f32"), Ok("f32".to_string()));
    assert_eq!(policy(&wrapped, false, false, "Quat"), Ok("LuaQuat".to_string()));
    assert_eq!(policy(&wrapped, false, false, "Mat4"), Err("Mat4".to_string()));
    // another type on the left
    assert_eq!(policy(&scalar, true, false, "Self"), Ok("f32".to_string()));
    assert_eq!(policy(&scalar, false, false, "Vec3"), Ok("self".to_string()));
    assert_eq!(policy(&scalar, false, false, "Mat4"), Ok("self".to_string()));
    assert_eq!(policy(&scalar, false, true, "Vec3"), Ok("LuaVec3".to_string()));
    assert_eq!(policy(&scalar, false, true, "Self"), Ok("f32".to_string()));
    assert_eq!(policy(&scalar, true, false, "Vec3"), Ok("LuaVec3".to_string()));
    assert_eq!(policy(&scalar, true, false, "Mat4"), Err("Mat4".to_string()));
}
