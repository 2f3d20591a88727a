//! The fixed table of host-implemented builtin functions, and what each
//! one computes.  The `print` builtin only renders its argument here; the
//! evaluator records the rendered line and the driver performs the output.

use crate::ast::Ident;
use crate::object::{
    clone_object, spec_display, view_object, view_objects, BuiltinKind, Object, SpecObject,
};
use vstd::prelude::*;

verus! {

broadcast use vstd::std_specs::vec::group_vec_axioms;

/// The builtin table: `print`, `len`, `head`, `tail` and `cons`, each with
/// its name, arity and kind.
pub open spec fn spec_builtins() -> Seq<(Seq<char>, SpecObject)> {
    seq![
        ("print"@, SpecObject::Builtin("print"@, 1, BuiltinKind::Print)),
        ("len"@, SpecObject::Builtin("len"@, 1, BuiltinKind::Len)),
        ("head"@, SpecObject::Builtin("head"@, 1, BuiltinKind::Head)),
        ("tail"@, SpecObject::Builtin("tail"@, 1, BuiltinKind::Tail)),
        ("cons"@, SpecObject::Builtin("cons"@, 2, BuiltinKind::Cons)),
    ]
}

/// The provider of the builtin table.
pub struct BuiltinFunctions;

impl BuiltinFunctions {
    /// Makes the provider.
    pub fn new() -> BuiltinFunctions {
        BuiltinFunctions {  }
    }

    /// The builtins, in the order they are installed into a fresh
    /// environment.
    pub fn get_builtins(&self) -> (r: Vec<(Ident, Object)>)
        ensures
            r@.len() == spec_builtins().len(),
            forall|i: int|
                0 <= i < r@.len() ==> (#[trigger] r@[i]).0@ == spec_builtins()[i].0 && r@[i].1@
                    == spec_builtins()[i].1,
    {
        let mut v: Vec<(Ident, Object)> = Vec::new();
        v.push(add_builtin("print", 1, BuiltinKind::Print));
        v.push(add_builtin("len", 1, BuiltinKind::Len));
        v.push(add_builtin("head", 1, BuiltinKind::Head));
        v.push(add_builtin("tail", 1, BuiltinKind::Tail));
        v.push(add_builtin("cons", 2, BuiltinKind::Cons));
        v
    }
}

/// Builds one entry of the builtin table.
fn add_builtin(name: &str, param_num: usize, kind: BuiltinKind) -> (r: (Ident, Object))
    ensures
        r.0@ == name@,
        r.1@ == SpecObject::Builtin(name@, param_num as int, kind),
{
    let name_string = name.to_owned();
    (Ident(name.to_owned()), Object::Builtin(name_string, param_num, kind))
}

/// What `print` computes: the display form of its argument, beside the
/// `null` it evaluates to.
pub open spec fn spec_bprint(args: Seq<SpecObject>) -> Result<(SpecObject, Seq<char>), Seq<char>> {
    if args.len() >= 1 {
        Ok((SpecObject::Null, spec_display(args[0])))
    } else {
        Err("invalid arguments for print"@)
    }
}

/// Renders the argument of `print`; the caller performs the output.
pub fn bprint_fn(args: Vec<Object>) -> (r: Result<(Object, String), String>)
    ensures
        match r {
            Ok(p) => spec_bprint(view_objects(args)) == Ok::<_, Seq<char>>((p.0@, p.1@)),
            Err(m) => spec_bprint(view_objects(args)) == Err::<(SpecObject, Seq<char>), _>(m@),
        },
{
    if args.len() >= 1 {
        let line = args[0].display_string();
        Ok((Object::Null, line))
    } else {
        Err(String::from_str("invalid arguments for print"))
    }
}

/// What `len` computes: the byte length of a string, or the element count
/// of an array.
pub open spec fn spec_blen(args: Seq<SpecObject>) -> Result<SpecObject, Seq<char>> {
    if args.len() >= 1 {
        match args[0] {
            SpecObject::Str(s) => {
                let n = vstd::utf8::encode_utf8(s).len() as usize;
                if n <= i64::MAX {
                    Ok(SpecObject::Integer(n as i64))
                } else {
                    Err("invalid arguments for len"@)
                }
            },
            SpecObject::Array(v) => if v.len() <= i64::MAX {
                Ok(SpecObject::Integer(v.len() as i64))
            } else {
                Err("invalid arguments for len"@)
            },
            _ => Err("invalid arguments for len"@),
        }
    } else {
        Err("invalid arguments for len"@)
    }
}

/// The `len` builtin.
pub fn blen_fn(args: Vec<Object>) -> (r: Result<Object, String>)
    ensures
        match r {
            Ok(o) => spec_blen(view_objects(args)) == Ok::<_, Seq<char>>(o@),
            Err(m) => spec_blen(view_objects(args)) == Err::<SpecObject, _>(m@),
        },
{
    if args.len() >= 1 {
        match &args[0] {
            Object::Str(s) => {
                let n = s.as_str().len();
                if n as u64 <= i64::MAX as u64 {
                    Ok(Object::Integer(n as i64))
                } else {
                    Err(String::from_str("invalid arguments for len"))
                }
            },
            Object::Array(v) => {
                proof {
                    assert(view_objects(args).len() == args@.len());
                    assert(view_objects(args)[0] == view_object(args@[0]));
                    assert(view_object(args@[0]) == SpecObject::Array(view_objects(*v)));
                    assert(view_objects(*v).len() == v@.len());
                }
                let n = v.len();
                if n as u64 <= i64::MAX as u64 {
                    Ok(Object::Integer(n as i64))
                } else {
                    Err(String::from_str("invalid arguments for len"))
                }
            },
            _ => Err(String::from_str("invalid arguments for len")),
        }
    } else {
        Err(String::from_str("invalid arguments for len"))
    }
}

/// What `head` computes: the first element of a non-empty array.
pub open spec fn spec_bhead(args: Seq<SpecObject>) -> Result<SpecObject, Seq<char>> {
    if args.len() >= 1 {
        match args[0] {
            SpecObject::Array(v) => if v.len() == 0 {
                Err("empty array"@)
            } else {
                Ok(v[0])
            },
            _ => Err("invalid arguments for head"@),
        }
    } else {
        Err("invalid arguments for head"@)
    }
}

/// The `head` builtin.
pub fn bhead_fn(args: Vec<Object>) -> (r: Result<Object, String>)
    ensures
        match r {
            Ok(o) => spec_bhead(view_objects(args)) == Ok::<_, Seq<char>>(o@),
            Err(m) => spec_bhead(view_objects(args)) == Err::<SpecObject, _>(m@),
        },
{
    if args.len() >= 1 {
        match &args[0] {
            Object::Array(v) => if v.len() == 0 {
                Err(String::from_str("empty array"))
            } else {
                let r = clone_object(&v[0]);
                proof {
                    assert(view_objects(args)[0] == view_object(args@[0]));
                    assert(view_object(args@[0]) == SpecObject::Array(view_objects(*v)));
                    assert(view_objects(*v)[0] == view_object(v@[0]));
                    assert(r@ == view_object(v@[0]));
                }
                Ok(r)
            },
            _ => Err(String::from_str("invalid arguments for head")),
        }
    } else {
        Err(String::from_str("invalid arguments for head"))
    }
}

/// What `tail` computes: a non-empty array without its first element.
pub open spec fn spec_btail(args: Seq<SpecObject>) -> Result<SpecObject, Seq<char>> {
    if args.len() >= 1 {
        match args[0] {
            SpecObject::Array(v) => if v.len() == 0 {
                Err("empty array"@)
            } else {
                Ok(SpecObject::Array(v.drop_first()))
            },
            _ => Err("invalid arguments for tail"@),
        }
    } else {
        Err("invalid arguments for tail"@)
    }
}

/// The `tail` builtin.
pub fn btail_fn(args: Vec<Object>) -> (r: Result<Object, String>)
    ensures
        match r {
            Ok(o) => spec_btail(view_objects(args)) == Ok::<_, Seq<char>>(o@),
            Err(m) => spec_btail(view_objects(args)) == Err::<SpecObject, _>(m@),
        },
{
    if args.len() >= 1 {
        match &args[0] {
            Object::Array(v) => {
                if v.len() == 0 {
                    Err(String::from_str("empty array"))
                } else {
                    let mut rest: Vec<Object> = Vec::new();
                    let mut i: usize = 1;
                    while i < v.len()
                        invariant
                            1 <= i <= v.len(),
                            rest.len() == i - 1,
                            forall|j: int| 0 <= j < i - 1 ==> view_object(rest[j]) == view_object(
                                v[j + 1],
                            ),
                        decreases v.len() - i,
                    {
                        rest.push(clone_object(&v[i]));
                        i = i + 1;
                    }
                    proof {
                        assert(view_objects(rest) =~= view_objects(*v).drop_first());
                    }
                    Ok(Object::Array(rest))
                }
            },
            _ => Err(String::from_str("invalid arguments for tail")),
        }
    } else {
        Err(String::from_str("invalid arguments for tail"))
    }
}

/// What `cons` computes: a new array with the first argument prepended to
/// the second.
pub open spec fn spec_bcons(args: Seq<SpecObject>) -> Result<SpecObject, Seq<char>> {
    if args.len() >= 2 {
        match args[1] {
            SpecObject::Array(v) => Ok(SpecObject::Array(seq![args[0]] + v)),
            _ => Err("invalid arguments for cons"@),
        }
    } else {
        Err("invalid arguments for cons"@)
    }
}

/// The `cons` builtin.
pub fn bcons_fn(args: Vec<Object>) -> (r: Result<Object, String>)
    ensures
        match r {
            Ok(o) => spec_bcons(view_objects(args)) == Ok::<_, Seq<char>>(o@),
            Err(m) => spec_bcons(view_objects(args)) == Err::<SpecObject, _>(m@),
        },
{
    if args.len() >= 2 {
        match &args[1] {
            Object::Array(v) => {
                let mut out: Vec<Object> = Vec::new();
                out.push(clone_object(&args[0]));
                let mut i: usize = 0;
                while i < v.len()
                    invariant
                        i <= v.len(),
                        out.len() == i + 1,
                        view_object(out[0]) == view_objects(args)[0],
                        forall|j: int| 1 <= j < i + 1 ==> view_object(out[j]) == view_object(
                            v[j - 1],
                        ),
                    decreases v.len() - i,
                {
                    out.push(clone_object(&v[i]));
                    i = i + 1;
                }
                proof {
                    assert(view_objects(out) =~= seq![view_objects(args)[0]] + view_objects(*v));
                }
                Ok(Object::Array(out))
            },
            _ => Err(String::from_str("invalid arguments for cons")),
        }
    } else {
        Err(String::from_str("invalid arguments for cons"))
    }
}

} // verus!
