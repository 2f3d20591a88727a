//! Runtime values and their mathematical model.

use crate::ast::{
    clone_params, clone_program, params_eq, program_eq, view_params, view_program, Ident, Literal,
    Program, SpecLiteral, SpecStmt,
};
use crate::lexer::eq_str;
use vstd::prelude::*;
use vstd::string::StringExecFns;

verus! {

broadcast use vstd::std_specs::vec::group_vec_axioms;

/// One of the host-implemented builtin functions.
#[derive(Debug, Clone, Copy, PartialEq, Eq, Structural)]
pub enum BuiltinKind {
    Print,
    Len,
    Head,
    Tail,
    Cons,
}

/// A runtime value.  A function value carries its parameter names, its
/// body, and the handle of the environment it was defined in; a hash
/// holds its entries in insertion order, keyed by primitive literals.
/// `ReturnValue` is an internal marker that carries a value up through
/// block boundaries; `Error` is an in-band evaluation error.
#[derive(Debug, PartialEq)]
pub enum Object {
    Integer(i64),
    Boolean(bool),
    Str(String),
    Array(Vec<Object>),
    Hash(Vec<(Literal, Object)>),
    Function(Vec<Ident>, Program, usize),
    Builtin(String, usize, BuiltinKind),
    Null,
    ReturnValue(Box<Object>),
    Error(String),
}

/// The model of a runtime value.
pub enum SpecObject {
    Integer(i64),
    Boolean(bool),
    Str(Seq<char>),
    Array(Seq<SpecObject>),
    Hash(Seq<(SpecLiteral, SpecObject)>),
    Function(Seq<Seq<char>>, Seq<SpecStmt>, int),
    Builtin(Seq<char>, int, BuiltinKind),
    Null,
    ReturnValue(Box<SpecObject>),
    Error(Seq<char>),
}

/// The model of a value.
pub open spec fn view_object(o: Object) -> SpecObject
    decreases o,
{
    match o {
        Object::Integer(i) => SpecObject::Integer(i),
        Object::Boolean(b) => SpecObject::Boolean(b),
        Object::Str(s) => SpecObject::Str(s@),
        Object::Array(v) => SpecObject::Array(view_objects(v)),
        Object::Hash(ps) => SpecObject::Hash(view_hash_entries(ps)),
        Object::Function(params, body, env) => SpecObject::Function(
            view_params(params),
            view_program(body),
            env as int,
        ),
        Object::Builtin(name, arity, kind) => SpecObject::Builtin(name@, arity as int, kind),
        Object::Null => SpecObject::Null,
        Object::ReturnValue(b) => SpecObject::ReturnValue(Box::new(view_object(*b))),
        Object::Error(m) => SpecObject::Error(m@),
    }
}

/// The model of a value vector.
pub open spec fn view_objects(v: Vec<Object>) -> Seq<SpecObject>
    decreases v,
{
    Seq::new(
        v.len() as nat,
        |i: int|
            if 0 <= i < v.len() {
                view_object(v[i])
            } else {
                vstd::pervasive::arbitrary()
            },
    )
}

/// The model of a hash's entry vector.
pub open spec fn view_hash_entries(v: Vec<(Literal, Object)>) -> Seq<(SpecLiteral, SpecObject)>
    decreases v,
{
    Seq::new(
        v.len() as nat,
        |i: int|
            if 0 <= i < v.len() {
                (v[i].0@, view_object(v[i].1))
            } else {
                vstd::pervasive::arbitrary()
            },
    )
}

impl View for Object {
    type V = SpecObject;

    open spec fn view(&self) -> SpecObject {
        view_object(*self)
    }
}

/// A return marker's payload; any other value is itself.
pub open spec fn spec_returned(o: SpecObject) -> SpecObject {
    match o {
        SpecObject::ReturnValue(b) => *b,
        _ => o,
    }
}

impl Object {
    /// Whether this value is the internal return marker.
    pub fn is_returned(&self) -> (r: bool)
        ensures
            r == (self@ is ReturnValue),
    {
        matches!(*self, Object::ReturnValue(_))
    }

    /// Unwraps the internal return marker, if present.
    pub fn returned(self) -> (r: Object)
        ensures
            r@ == spec_returned(self@),
    {
        match self {
            Object::ReturnValue(o) => *o,
            o => o,
        }
    }
}

/// Clones a value; the copy has the same model.
pub fn clone_object(o: &Object) -> (r: Object)
    ensures
        r@ == o@,
    decreases *o,
{
    match o {
        Object::Integer(i) => Object::Integer(*i),
        Object::Boolean(b) => Object::Boolean(*b),
        Object::Str(s) => Object::Str(s.clone()),
        Object::Array(v) => Object::Array(clone_objects(v)),
        Object::Hash(ps) => Object::Hash(clone_hash_entries(ps)),
        Object::Function(params, body, env) => Object::Function(
            clone_params(params),
            clone_program(body),
            *env,
        ),
        Object::Builtin(name, arity, kind) => Object::Builtin(name.clone(), *arity, *kind),
        Object::Null => Object::Null,
        Object::ReturnValue(b) => Object::ReturnValue(Box::new(clone_object(b))),
        Object::Error(m) => Object::Error(m.clone()),
    }
}

/// Clones a value vector; the copy has the same model.
pub fn clone_objects(v: &Vec<Object>) -> (r: Vec<Object>)
    ensures
        view_objects(r) == view_objects(*v),
    decreases *v,
{
    let mut r: Vec<Object> = Vec::new();
    let mut i: usize = 0;
    while i < v.len()
        invariant
            i <= v.len(),
            r.len() == i,
            forall|j: int| 0 <= j < i ==> view_object(r[j]) == view_object(v[j]),
        decreases v.len() - i,
    {
        r.push(clone_object(&v[i]));
        i = i + 1;
    }
    proof {
        assert(view_objects(r) =~= view_objects(*v));
    }
    r
}

/// Clones a hash's entry vector; the copy has the same model.
pub fn clone_hash_entries(v: &Vec<(Literal, Object)>) -> (r: Vec<(Literal, Object)>)
    ensures
        view_hash_entries(r) == view_hash_entries(*v),
    decreases *v,
{
    let mut r: Vec<(Literal, Object)> = Vec::new();
    let mut i: usize = 0;
    while i < v.len()
        invariant
            i <= v.len(),
            r.len() == i,
            forall|j: int| 0 <= j < i ==> r[j].0@ == v[j].0@ && view_object(r[j].1) == view_object(
                v[j].1,
            ),
        decreases v.len() - i,
    {
        let entry = (v[i].0.clone(), clone_object(&v[i].1));
        r.push(entry);
        i = i + 1;
    }
    proof {
        assert(view_hash_entries(r) =~= view_hash_entries(*v));
    }
    r
}

impl Clone for Object {
    /// Cloning a value keeps its model.
    fn clone(&self) -> (r: Object)
        ensures
            r@ == self@,
    {
        clone_object(self)
    }
}

/// Whether two values have the same model: the language's `==`, structural
/// on every kind; a cross-kind comparison is unequal.
pub fn object_eq(a: &Object, b: &Object) -> (r: bool)
    ensures
        r == (a@ == b@),
    decreases *a,
{
    match (a, b) {
        (Object::Integer(x), Object::Integer(y)) => x == y,
        (Object::Boolean(x), Object::Boolean(y)) => x == y,
        (Object::Str(x), Object::Str(y)) => eq_str(x.as_str(), y.as_str()),
        (Object::Array(x), Object::Array(y)) => objects_eq(x, y),
        (Object::Hash(x), Object::Hash(y)) => hash_entries_eq(x, y),
        (Object::Function(p1, b1, e1), Object::Function(p2, b2, e2)) => params_eq(p1, p2)
            && program_eq(b1, b2) && e1 == e2,
        (Object::Builtin(n1, a1, k1), Object::Builtin(n2, a2, k2)) => eq_str(
            n1.as_str(),
            n2.as_str(),
        ) && a1 == a2 && k1 == k2,
        (Object::Null, Object::Null) => true,
        (Object::ReturnValue(x), Object::ReturnValue(y)) => object_eq(x, y),
        (Object::Error(x), Object::Error(y)) => eq_str(x.as_str(), y.as_str()),
        _ => false,
    }
}

/// Whether two value vectors have the same model.
pub fn objects_eq(a: &Vec<Object>, b: &Vec<Object>) -> (r: bool)
    ensures
        r == (view_objects(*a) == view_objects(*b)),
    decreases *a,
{
    if a.len() != b.len() {
        proof {
            assert(view_objects(*a).len() != view_objects(*b).len());
        }
        return false;
    }
    let mut i: usize = 0;
    while i < a.len()
        invariant
            i <= a.len(),
            a.len() == b.len(),
            forall|j: int| 0 <= j < i ==> view_objects(*a)[j] == view_objects(*b)[j],
        decreases a.len() - i,
    {
        if !object_eq(&a[i], &b[i]) {
            proof {
                assert(view_objects(*a)[i as int] != view_objects(*b)[i as int]);
            }
            return false;
        }
        i = i + 1;
    }
    proof {
        assert(view_objects(*a) =~= view_objects(*b));
    }
    true
}

/// Whether two hash entry vectors have the same model, entry by entry in
/// insertion order.
pub fn hash_entries_eq(a: &Vec<(Literal, Object)>, b: &Vec<(Literal, Object)>) -> (r: bool)
    ensures
        r == (view_hash_entries(*a) == view_hash_entries(*b)),
    decreases *a,
{
    if a.len() != b.len() {
        proof {
            assert(view_hash_entries(*a).len() != view_hash_entries(*b).len());
        }
        return false;
    }
    let mut i: usize = 0;
    while i < a.len()
        invariant
            i <= a.len(),
            a.len() == b.len(),
            forall|j: int| 0 <= j < i ==> view_hash_entries(*a)[j] == view_hash_entries(*b)[j],
        decreases a.len() - i,
    {
        if !(crate::ast::literal_eq(&a[i].0, &b[i].0) && object_eq(&a[i].1, &b[i].1)) {
            proof {
                assert(view_hash_entries(*a)[i as int] != view_hash_entries(*b)[i as int]);
            }
            return false;
        }
        i = i + 1;
    }
    proof {
        assert(view_hash_entries(*a) =~= view_hash_entries(*b));
    }
    true
}

/// The character of a decimal digit value.
pub open spec fn spec_digit_char(d: int) -> char {
    if d == 0 {
        '0'
    } else if d == 1 {
        '1'
    } else if d == 2 {
        '2'
    } else if d == 3 {
        '3'
    } else if d == 4 {
        '4'
    } else if d == 5 {
        '5'
    } else if d == 6 {
        '6'
    } else if d == 7 {
        '7'
    } else if d == 8 {
        '8'
    } else {
        '9'
    }
}

/// The decimal digits of a non-negative integer.
pub open spec fn spec_nat_str(m: int) -> Seq<char>
    decreases m,
{
    if m < 10 {
        seq![spec_digit_char(m)]
    } else {
        spec_nat_str(m / 10).push(spec_digit_char(m % 10))
    }
}

/// The decimal rendering of an integer, with a leading minus sign when
/// negative.
pub open spec fn spec_int_str(n: int) -> Seq<char> {
    if n < 0 {
        seq!['-'] + spec_nat_str(-n)
    } else {
        spec_nat_str(n)
    }
}

/// The one-character string of a decimal digit value.
fn digit_str(d: u64) -> (r: &'static str)
    requires
        d < 10,
    ensures
        r@ == seq![spec_digit_char(d as int)],
{
    if d == 0 {
        proof {
            reveal_strlit("0");
            assert("0"@ =~= seq![spec_digit_char(0)]);
        }
        "0"
    } else if d == 1 {
        proof {
            reveal_strlit("1");
            assert("1"@ =~= seq![spec_digit_char(1)]);
        }
        "1"
    } else if d == 2 {
        proof {
            reveal_strlit("2");
            assert("2"@ =~= seq![spec_digit_char(2)]);
        }
        "2"
    } else if d == 3 {
        proof {
            reveal_strlit("3");
            assert("3"@ =~= seq![spec_digit_char(3)]);
        }
        "3"
    } else if d == 4 {
        proof {
            reveal_strlit("4");
            assert("4"@ =~= seq![spec_digit_char(4)]);
        }
        "4"
    } else if d == 5 {
        proof {
            reveal_strlit("5");
            assert("5"@ =~= seq![spec_digit_char(5)]);
        }
        "5"
    } else if d == 6 {
        proof {
            reveal_strlit("6");
            assert("6"@ =~= seq![spec_digit_char(6)]);
        }
        "6"
    } else if d == 7 {
        proof {
            reveal_strlit("7");
            assert("7"@ =~= seq![spec_digit_char(7)]);
        }
        "7"
    } else if d == 8 {
        proof {
            reveal_strlit("8");
            assert("8"@ =~= seq![spec_digit_char(8)]);
        }
        "8"
    } else {
        proof {
            reveal_strlit("9");
            assert("9"@ =~= seq![spec_digit_char(9)]);
        }
        "9"
    }
}

/// Renders a non-negative integer in decimal.
fn nat_str(m: u64) -> (r: String)
    ensures
        r@ == spec_nat_str(m as int),
    decreases m,
{
    if m < 10 {
        let r = String::from_str(digit_str(m));
        r
    } else {
        let mut s1 = nat_str(m / 10);
        s1.append(digit_str(m % 10));
        proof {
            assert(s1@ =~= spec_nat_str((m as int) / 10).push(spec_digit_char((m as int) % 10)));
        }
        s1
    }
}

/// Renders an integer in decimal.
pub fn int_str(i: i64) -> (r: String)
    ensures
        r@ == spec_int_str(i as int),
{
    if i >= 0 {
        nat_str(i as u64)
    } else {
        let m: u64 = ((-(i + 1)) as u64) + 1;
        let mut s = String::from_str("-");
        let digits = nat_str(m);
        s.append(digits.as_str());
        proof {
            reveal_strlit("-");
            assert(s@ =~= seq!['-'] + spec_nat_str(-(i as int)));
        }
        s
    }
}

/// The display form of a hash key.
pub open spec fn spec_display_key(l: SpecLiteral) -> Seq<char> {
    match l {
        SpecLiteral::IntLiteral(i) => spec_int_str(i as int),
        SpecLiteral::BoolLiteral(b) => if b {
            "true"@
        } else {
            "false"@
        },
        SpecLiteral::StringLiteral(s) => s,
    }
}

/// The display form of a value: integers in decimal, booleans and null as
/// words, strings raw, arrays bracketed with comma-separated elements,
/// hashes braced with `key: value` entries in insertion order, functions
/// and builtins as fixed tags, and errors with the `Error: ` prefix.
pub open spec fn spec_display(o: SpecObject) -> Seq<char>
    decreases o,
{
    match o {
        SpecObject::Integer(i) => spec_int_str(i as int),
        SpecObject::Boolean(b) => if b {
            "true"@
        } else {
            "false"@
        },
        SpecObject::Str(s) => s,
        SpecObject::Array(v) => "["@ + spec_display_items(v, 0) + "]"@,
        SpecObject::Hash(ps) => "{"@ + spec_display_entries(ps, 0) + "}"@,
        SpecObject::Function(_, _, _) => "[function]"@,
        SpecObject::Builtin(name, _, _) => "[built-in function: "@ + name + "]"@,
        SpecObject::Null => "null"@,
        SpecObject::ReturnValue(b) => spec_display(*b),
        SpecObject::Error(m) => "Error: "@ + m,
    }
}

/// The comma-separated display of array elements from `i` on.
pub open spec fn spec_display_items(items: Seq<SpecObject>, i: int) -> Seq<char>
    decreases items, items.len() - i,
{
    if i < 0 || i >= items.len() {
        Seq::empty()
    } else if i == items.len() - 1 {
        spec_display(items[i])
    } else {
        spec_display(items[i]) + ", "@ + spec_display_items(items, i + 1)
    }
}

/// The comma-separated display of hash entries from `i` on.
pub open spec fn spec_display_entries(entries: Seq<(SpecLiteral, SpecObject)>, i: int) -> Seq<char>
    decreases entries, entries.len() - i,
{
    if i < 0 || i >= entries.len() {
        Seq::empty()
    } else if i == entries.len() - 1 {
        spec_display_key(entries[i].0) + ": "@ + spec_display(entries[i].1)
    } else {
        spec_display_key(entries[i].0) + ": "@ + spec_display(entries[i].1) + ", "@
            + spec_display_entries(entries, i + 1)
    }
}

/// Renders a hash key.
pub fn display_literal(l: &Literal) -> (r: String)
    ensures
        r@ == spec_display_key(l@),
{
    match l {
        Literal::IntLiteral(i) => int_str(*i),
        Literal::BoolLiteral(b) => if *b {
            String::from_str("true")
        } else {
            String::from_str("false")
        },
        Literal::StringLiteral(s) => s.clone(),
    }
}

impl Object {
    /// Renders this value in its display form.
    pub fn display_string(&self) -> (r: String)
        ensures
            r@ == spec_display(self@),
        decreases *self,
    {
        match self {
            Object::Integer(i) => int_str(*i),
            Object::Boolean(b) => if *b {
                String::from_str("true")
            } else {
                String::from_str("false")
            },
            Object::Str(s) => s.clone(),
            Object::Array(v) => {
                let mut s = String::from_str("[");
                let items = display_items(v);
                s.append(items.as_str());
                s.append("]");
                proof {
                    assert(s@ =~= "["@ + spec_display_items(view_objects(*v), 0) + "]"@);
                }
                s
            },
            Object::Hash(ps) => {
                let mut s = String::from_str("{");
                let items = display_entries(ps);
                s.append(items.as_str());
                s.append("}");
                proof {
                    assert(s@ =~= "{"@ + spec_display_entries(view_hash_entries(*ps), 0) + "}"@);
                }
                s
            },
            Object::Function(_, _, _) => String::from_str("[function]"),
            Object::Builtin(name, _, _) => {
                let mut s = String::from_str("[built-in function: ");
                s.append(name.as_str());
                s.append("]");
                proof {
                    assert(s@ =~= "[built-in function: "@ + name@ + "]"@);
                }
                s
            },
            Object::Null => String::from_str("null"),
            Object::ReturnValue(b) => b.display_string(),
            Object::Error(m) => {
                let mut s = String::from_str("Error: ");
                s.append(m.as_str());
                s
            },
        }
    }
}

/// Renders the comma-separated elements of an array.
fn display_items(v: &Vec<Object>) -> (r: String)
    ensures
        r@ == spec_display_items(view_objects(*v), 0),
    decreases *v,
{
    let ghost vv = view_objects(*v);
    let mut acc = String::new();
    let mut i: usize = 0;
    proof {
        assert(acc@ + spec_display_items(vv, 0) =~= spec_display_items(vv, 0));
    }
    while i < v.len()
        invariant
            i <= v.len(),
            vv == view_objects(*v),
            acc@ + spec_display_items(vv, i as int) == spec_display_items(vv, 0),
        decreases v.len() - i,
    {
        let ghost acc0 = acc@;
        let piece = v[i].display_string();
        acc.append(piece.as_str());
        if i + 1 < v.len() {
            acc.append(", ");
        }
        proof {
            if i + 1 < v.len() {
                assert(acc@ + spec_display_items(vv, i + 1) =~= acc0 + spec_display_items(
                    vv,
                    i as int,
                ));
            } else {
                assert(acc@ + spec_display_items(vv, i + 1) =~= acc0 + spec_display_items(
                    vv,
                    i as int,
                ));
            }
        }
        i = i + 1;
    }
    proof {
        assert(acc@ + spec_display_items(vv, i as int) =~= acc@);
    }
    acc
}

/// Renders the comma-separated entries of a hash.
fn display_entries(v: &Vec<(Literal, Object)>) -> (r: String)
    ensures
        r@ == spec_display_entries(view_hash_entries(*v), 0),
    decreases *v,
{
    let ghost vv = view_hash_entries(*v);
    let mut acc = String::new();
    let mut i: usize = 0;
    proof {
        assert(acc@ + spec_display_entries(vv, 0) =~= spec_display_entries(vv, 0));
    }
    while i < v.len()
        invariant
            i <= v.len(),
            vv == view_hash_entries(*v),
            acc@ + spec_display_entries(vv, i as int) == spec_display_entries(vv, 0),
        decreases v.len() - i,
    {
        let ghost acc0 = acc@;
        let key = display_literal(&v[i].0);
        acc.append(key.as_str());
        acc.append(": ");
        let piece = v[i].1.display_string();
        acc.append(piece.as_str());
        if i + 1 < v.len() {
            acc.append(", ");
        }
        proof {
            assert(acc@ + spec_display_entries(vv, i + 1) =~= acc0 + spec_display_entries(
                vv,
                i as int,
            ));
        }
        i = i + 1;
    }
    proof {
        assert(acc@ + spec_display_entries(vv, i as int) =~= acc@);
    }
    acc
}

} // verus!
