//! The bindings of the built-in numeric and string primitives. They are
//! written by hand and stand before the descriptors of the configured types in
//! every payload.

use vstd::prelude::*;

verus! {

/// The descriptor blocks of the built-in primitives.
pub const PRIMITIVE_BINDINGS: &'static str = "
    {
            usize : Primitive
            impl {
            \"to\" => |r,_| r.get(|s,_| Value::Integer(s.downcast_ref::<usize>().unwrap().to_i64().unwrap()));
            \"from\" =>   |r,c,v : Value| r.get_mut(|s,_| Ok(s.apply(&c.coerce_integer(v)?.ok_or_else(||Error::RuntimeError(\"Not an integer\".to_owned()))?.to_usize().ok_or_else(||Error::RuntimeError(\"Value not compatibile with usize\".to_owned()))?)));
            }
    },
    {
            isize : Primitive
            impl {
            \"to\" => |r,_| r.get(|s,_| Value::Integer(s.downcast_ref::<isize>().unwrap().to_i64().unwrap()));
            \"from\" =>   |r,c,v : Value| r.get_mut(|s,_| Ok(s.apply(&c.coerce_integer(v)?.ok_or_else(||Error::RuntimeError(\"Not an integer\".to_owned()))?.to_isize().ok_or_else(||Error::RuntimeError(\"Value not compatibile with isize\".to_owned()))?)));
            }
    },
    {
            i128 : Primitive
            impl {
            \"to\" => |r,_| r.get(|s,_| Value::Integer(s.downcast_ref::<i128>().unwrap().to_i64().unwrap()));
            \"from\" =>   |r,c,v : Value| r.get_mut(|s,_| Ok(s.apply(&c.coerce_integer(v)?.ok_or_else(||Error::RuntimeError(\"Not an integer\".to_owned()))?.to_i128().ok_or_else(||Error::RuntimeError(\"Value not compatibile with i128\".to_owned()))?)));
            }
    },
    {
            i64 : Primitive
            impl {
            \"to\" => |r,_| r.get(|s,_| Value::Integer(s.downcast_ref::<i64>().unwrap().to_i64().unwrap()));
            \"from\" =>   |r,c,v : Value| r.get_mut(|s,_| Ok(s.apply(&c.coerce_integer(v)?.ok_or_else(||Error::RuntimeError(\"Not an integer\".to_owned()))?.to_i64().ok_or_else(||Error::RuntimeError(\"Value not compatibile with i64\".to_owned()))?)));
            }
    },
    {
            i32 : Primitive
            impl {
            \"to\" => |r,_| r.get(|s,_| Value::Integer(s.downcast_ref::<i32>().unwrap().to_i64().unwrap()));
            \"from\" =>   |r,c,v : Value| r.get_mut(|s,_| Ok(s.apply(&c.coerce_integer(v)?.ok_or_else(||Error::RuntimeError(\"Not an integer\".to_owned()))?.to_i32().ok_or_else(||Error::RuntimeError(\"Value not compatibile with i32\".to_owned()))?)));
            }
    },
    {
            i16 : Primitive
            impl {
            \"to\" => |r,_| r.get(|s,_| Value::Integer(s.downcast_ref::<i16>().unwrap().to_i64().unwrap()));
            \"from\" =>   |r,c,v : Value| r.get_mut(|s,_| Ok(s.apply(&c.coerce_integer(v)?.ok_or_else(||Error::RuntimeError(\"Not an integer\".to_owned()))?.to_i16().ok_or_else(||Error::RuntimeError(\"Value not compatibile with i16\".to_owned()))?)));
            }
    },
    {
            i8 : Primitive
            impl {
            \"to\" => |r,_| r.get(|s,_| Value::Integer(s.downcast_ref::<i8>().unwrap().to_i64().unwrap()));
            \"from\" =>   |r,c,v : Value| r.get_mut(|s,_| Ok(s.apply(&c.coerce_integer(v)?.ok_or_else(||Error::RuntimeError(\"Not an integer\".to_owned()))?.to_i8().ok_or_else(||Error::RuntimeError(\"Value not compatibile with i8\".to_owned()))?)));
            }
    },
    {
            u128 : Primitive
            impl {
            \"to\" => |r,_| r.get(|s,_| Value::Integer(s.downcast_ref::<u128>().unwrap().to_i64().unwrap()));
            \"from\" =>   |r,c,v : Value| r.get_mut(|s,_| Ok(s.apply(&c.coerce_integer(v)?.ok_or_else(||Error::RuntimeError(\"Not an integer\".to_owned()))?.to_u128().ok_or_else(||Error::RuntimeError(\"Value not compatibile with u128\".to_owned()))?)));
            }
    },
    {
            u64 : Primitive
            impl {
            \"to\" => |r,_| r.get(|s,_| Value::Integer(s.downcast_ref::<u64>().unwrap().to_i64().unwrap()));
            \"from\" =>   |r,c,v : Value| r.get_mut(|s,_| Ok(s.apply(&c.coerce_integer(v)?.ok_or_else(||Error::RuntimeError(\"Not an integer\".to_owned()))?.to_u64().ok_or_else(||Error::RuntimeError(\"Value not compatibile with u64\".to_owned()))?)));
            }
    },
    {
            u32 : Primitive
            impl {
            \"to\" => |r,_| r.get(|s,_| Value::Integer(s.downcast_ref::<u32>().unwrap().to_i64().unwrap()));
            \"from\" =>   |r,c,v : Value| r.get_mut(|s,_| Ok(s.apply(&c.coerce_integer(v)?.ok_or_else(||Error::RuntimeError(\"Not an integer\".to_owned()))?.to_u32().ok_or_else(||Error::RuntimeError(\"Value not compatibile with u32\".to_owned()))?)));
            }
    },
    {
            u16 : Primitive
            impl {
            \"to\" => |r,_| r.get(|s,_| Value::Integer(s.downcast_ref::<u16>().unwrap().to_i64().unwrap()));
            \"from\" =>   |r,c,v : Value| r.get_mut(|s,_| Ok(s.apply(&c.coerce_integer(v)?.ok_or_else(||Error::RuntimeError(\"Not an integer\".to_owned()))?.to_u16().ok_or_else(||Error::RuntimeError(\"Value not compatibile with u16\".to_owned()))?)));
            }
    },
    {
            u8 : Primitive
            impl {
            \"to\" => |r,_| r.get(|s,_| Value::Integer(s.downcast_ref::<u8>().unwrap().to_i64().unwrap()));
            \"from\" =>   |r,c,v : Value| r.get_mut(|s,_| Ok(s.apply(&c.coerce_integer(v)?.ok_or_else(||Error::RuntimeError(\"Not an integer\".to_owned()))?.to_u8().ok_or_else(||Error::RuntimeError(\"Value not compatibile with u8\".to_owned()))?)));
            }
    },
    {
            f32 : Primitive
            impl {
            \"to\" => |r,_| r.get(|s,_| Value::Number(s.downcast_ref::<f32>().unwrap().to_f64().unwrap()));
            \"from\" =>   |r,c,v : Value| r.get_mut(|s,_| Ok(s.apply(&c.coerce_number(v)?.ok_or_else(||Error::RuntimeError(\"Not a number\".to_owned()))?.to_f32().ok_or_else(||Error::RuntimeError(\"Value not compatibile with f32\".to_owned()))?)));
            }
    },
    {
            f64 : Primitive
            impl {
            \"to\" => |r,_| r.get(|s,_| Value::Number(s.downcast_ref::<f64>().unwrap().to_f64().unwrap()));
            \"from\" =>   |r,c,v : Value| r.get_mut(|s,_| Ok(s.apply(&c.coerce_number(v)?.ok_or_else(||Error::RuntimeError(\"Not a number\".to_owned()))?.to_f64().ok_or_else(||Error::RuntimeError(\"Value not compatibile with f64\".to_owned()))?)));
            }
    },
    {
            alloc::string::String : Primitive
            impl {
            \"to\" => |r,c| r.get(|s,_| Value::String(c.create_string(s.downcast_ref::<String>().unwrap()).unwrap()));
            \"from\" =>   |r,c,v : Value| c.coerce_string(v)?.ok_or_else(||Error::RuntimeError(\"Not a string\".to_owned())).and_then(|string| r.get_mut(|s,_| Ok(s.apply(&string.to_str()?.to_owned()))));                             //      
            }
    },
    ";

/// The descriptor blocks of the built-in primitives.
pub fn primitive_bindings() -> (r: &'static str)
    ensures
        r@ == PRIMITIVE_BINDINGS@,
{
    PRIMITIVE_BINDINGS
}

} // verus!
