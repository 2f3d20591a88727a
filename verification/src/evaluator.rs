//! The tree-walking evaluator.
//!
//! The model is `sp_eval_program`: statements run in order against an
//! arena of environment frames; a `let` binds in the innermost frame, a
//! `return` wraps its value in a marker that carries it up through block
//! boundaries until a function call or the top level unwraps it, and an
//! error value short-circuits everything around it.  A function literal
//! captures the handle of the frame it was evaluated in, so bindings
//! added to that frame afterwards are visible at call time.  The `print`
//! builtin appends the rendered line to the evaluator's output log; the
//! caller performs the actual output.  Evaluation carries a fuel bound on
//! recursion depth, far above what the host stack could run anyway;
//! exhausting it yields an error value rather than endless descent, and
//! evaluation is deterministic.
//!
//! Integer arithmetic wraps in 64-bit two's complement; division
//! truncates toward zero and division by zero is an error.  Equality is
//! structural on every kind (hash entries compare in insertion order; a
//! function value compares by parameters, body and captured frame
//! handle); a comparison across kinds is simply unequal, while any other
//! operator across kinds is a type mismatch error.

use crate::ast::{
    view_exprs, view_pairs, view_params, view_program, Expr, Infix, Literal, Prefix, Program,
    SpecExpr, SpecLiteral, SpecStmt, Stmt,
};
use crate::builtins::{spec_bcons, spec_bhead, spec_blen, spec_bprint, spec_btail, spec_builtins};
use crate::environment::{
    spec_env_get, spec_wf_envs, view_envs, Environment, SpecFrame,
};
use crate::object::{
    clone_object, object_eq, spec_returned, view_hash_entries, view_object, view_objects,
    BuiltinKind, Object, SpecObject,
};
use vstd::prelude::*;
use vstd::string::StringExecFns;

verus! {

/// The model of the whole evaluator state: the arena of frames and the
/// log of lines printed so far.
pub struct SpecState {
    pub envs: Seq<SpecFrame>,
    pub output: Seq<Seq<char>>,
}

/// Whether two values are of the same kind.
pub open spec fn spec_same_kind(l: SpecObject, r: SpecObject) -> bool {
    match (l, r) {
        (SpecObject::Integer(_), SpecObject::Integer(_)) => true,
        (SpecObject::Boolean(_), SpecObject::Boolean(_)) => true,
        (SpecObject::Str(_), SpecObject::Str(_)) => true,
        (SpecObject::Array(_), SpecObject::Array(_)) => true,
        (SpecObject::Hash(_), SpecObject::Hash(_)) => true,
        (SpecObject::Function(_, _, _), SpecObject::Function(_, _, _)) => true,
        (SpecObject::Builtin(_, _, _), SpecObject::Builtin(_, _, _)) => true,
        (SpecObject::Null, SpecObject::Null) => true,
        (SpecObject::ReturnValue(_), SpecObject::ReturnValue(_)) => true,
        (SpecObject::Error(_), SpecObject::Error(_)) => true,
        _ => false,
    }
}

/// The display name of a value's kind, as used in error messages.
pub open spec fn spec_kind_str(o: SpecObject) -> Seq<char> {
    match o {
        SpecObject::Integer(_) => "Integer"@,
        SpecObject::Boolean(_) => "Boolean"@,
        SpecObject::Str(_) => "String"@,
        SpecObject::Array(_) => "Array"@,
        SpecObject::Hash(_) => "Hash"@,
        SpecObject::Function(_, _, _) => "Function"@,
        SpecObject::Builtin(_, _, _) => "Builtin"@,
        SpecObject::Null => "Null"@,
        SpecObject::ReturnValue(_) => "ReturnValue"@,
        SpecObject::Error(_) => "Error"@,
    }
}

/// The display form of an infix operator, as used in error messages.
pub open spec fn spec_infix_str(op: Infix) -> Seq<char> {
    match op {
        Infix::Plus => "+"@,
        Infix::Minus => "-"@,
        Infix::Divide => "/"@,
        Infix::Multiply => "*"@,
        Infix::Equal => "=="@,
        Infix::NotEqual => "!="@,
        Infix::GreaterThanEqual => ">="@,
        Infix::LessThanEqual => "<="@,
        Infix::GreaterThan => ">"@,
        Infix::LessThan => "<"@,
    }
}

/// Truthiness: only `false` and `null` are falsy.
pub open spec fn spec_truthy(o: SpecObject) -> bool {
    match o {
        SpecObject::Boolean(b) => b,
        SpecObject::Null => false,
        _ => true,
    }
}

/// The error value evaluation yields when its recursion fuel runs out.
pub open spec fn spec_depth_error() -> SpecObject {
    SpecObject::Error("recursion limit reached"@)
}

/// Truncated division of 64-bit integers, wrapping on the one overflowing
/// case.
pub open spec fn spec_div_trunc(a: i64, b: i64) -> i64 {
    if a == i64::MIN && b == -1 {
        i64::MIN
    } else {
        let q = spec_abs(a) / spec_abs(b);
        if (a < 0) != (b < 0) {
            (-q) as i64
        } else {
            q as i64
        }
    }
}

/// The absolute value, as a mathematical integer.
pub open spec fn spec_abs(a: i64) -> int {
    if a >= 0 {
        a as int
    } else {
        -(a as int)
    }
}

/// The lift of a literal to a value.
pub open spec fn spec_lift_literal(l: SpecLiteral) -> SpecObject {
    match l {
        SpecLiteral::IntLiteral(i) => SpecObject::Integer(i),
        SpecLiteral::BoolLiteral(b) => SpecObject::Boolean(b),
        SpecLiteral::StringLiteral(s) => SpecObject::Str(s),
    }
}

/// A prefix operator applied to an evaluated operand.
pub open spec fn sp_eval_prefix(op: Prefix, v: SpecObject) -> SpecObject {
    match op {
        Prefix::Not => SpecObject::Boolean(!spec_truthy(v)),
        Prefix::PrefixMinus => match v {
            SpecObject::Integer(i) => SpecObject::Integer(
                vstd::wrapping::i64_specs::wrapping_sub(0, i),
            ),
            _ => SpecObject::Error("unknown operator: -"@ + spec_kind_str(v)),
        },
        Prefix::PrefixPlus => match v {
            SpecObject::Integer(i) => SpecObject::Integer(i),
            _ => SpecObject::Error("unknown operator: +"@ + spec_kind_str(v)),
        },
    }
}

/// An infix operator applied to two evaluated operands.
pub open spec fn sp_eval_infix(op: Infix, l: SpecObject, r: SpecObject) -> SpecObject {
    if op is Equal {
        SpecObject::Boolean(l == r)
    } else if op is NotEqual {
        SpecObject::Boolean(l != r)
    } else if l is Integer && r is Integer {
        let a = l->Integer_0;
        let b = r->Integer_0;
        match op {
            Infix::Plus => SpecObject::Integer(vstd::wrapping::i64_specs::wrapping_add(a, b)),
            Infix::Minus => SpecObject::Integer(vstd::wrapping::i64_specs::wrapping_sub(a, b)),
            Infix::Multiply => SpecObject::Integer(vstd::wrapping::i64_specs::wrapping_mul(a, b)),
            Infix::Divide => if b == 0 {
                SpecObject::Error("division by zero"@)
            } else {
                SpecObject::Integer(spec_div_trunc(a, b))
            },
            Infix::LessThan => SpecObject::Boolean(a < b),
            Infix::GreaterThan => SpecObject::Boolean(a > b),
            Infix::LessThanEqual => SpecObject::Boolean(a <= b),
            Infix::GreaterThanEqual => SpecObject::Boolean(a >= b),
            _ => SpecObject::Error("unknown operator"@),
        }
    } else if l is Str && r is Str && op is Plus {
        SpecObject::Str(l->Str_0 + r->Str_0)
    } else if spec_same_kind(l, r) {
        SpecObject::Error(
            "unknown operator: "@ + spec_kind_str(l) + " "@ + spec_infix_str(op) + " "@
                + spec_kind_str(r),
        )
    } else {
        SpecObject::Error(
            "type mismatch: "@ + spec_kind_str(l) + " "@ + spec_infix_str(op) + " "@
                + spec_kind_str(r),
        )
    }
}

/// The primitive hash key an evaluated index denotes, if any.
pub open spec fn spec_obj_to_key(o: SpecObject) -> Option<SpecLiteral> {
    match o {
        SpecObject::Integer(i) => Some(SpecLiteral::IntLiteral(i)),
        SpecObject::Boolean(b) => Some(SpecLiteral::BoolLiteral(b)),
        SpecObject::Str(s) => Some(SpecLiteral::StringLiteral(s)),
        _ => None,
    }
}

/// The value a hash maps a key to, if any; keys are unique, so the first
/// match decides.
pub open spec fn spec_hash_lookup(
    entries: Seq<(SpecLiteral, SpecObject)>,
    k: SpecLiteral,
) -> Option<SpecObject>
    decreases entries.len(),
{
    if entries.len() == 0 {
        None
    } else if entries[0].0 == k {
        Some(entries[0].1)
    } else {
        spec_hash_lookup(entries.drop_first(), k)
    }
}

/// The index of a key among a hash's entries, if present.
pub open spec fn spec_hash_find(entries: Seq<(SpecLiteral, SpecObject)>, k: SpecLiteral) -> Option<
    int,
>
    decreases entries.len(),
{
    if entries.len() == 0 {
        None
    } else if entries[0].0 == k {
        Some(0)
    } else {
        match spec_hash_find(entries.drop_first(), k) {
            Some(i) => Some(i + 1),
            None => None,
        }
    }
}

/// Inserts a key-value pair into a hash's entries: a later binding of the
/// same key overwrites the earlier one in place.
pub open spec fn spec_hash_insert(
    entries: Seq<(SpecLiteral, SpecObject)>,
    k: SpecLiteral,
    v: SpecObject,
) -> Seq<(SpecLiteral, SpecObject)> {
    match spec_hash_find(entries, k) {
        Some(i) => entries.update(i, (k, v)),
        None => entries.push((k, v)),
    }
}

/// An index operation applied to evaluated operands.
pub open spec fn sp_eval_index(av: SpecObject, iv: SpecObject) -> SpecObject {
    match av {
        SpecObject::Array(v) => match iv {
            SpecObject::Integer(i) => if 0 <= i < v.len() {
                v[i as int]
            } else {
                SpecObject::Null
            },
            _ => SpecObject::Error("index operator not supported: Array"@),
        },
        SpecObject::Hash(entries) => match spec_obj_to_key(iv) {
            Some(k) => match spec_hash_lookup(entries, k) {
                Some(v) => v,
                None => SpecObject::Null,
            },
            None => SpecObject::Error("unusable as hash key: "@ + spec_kind_str(iv)),
        },
        _ => SpecObject::Error("index operator not supported: "@ + spec_kind_str(av)),
    }
}

/// One statement.
pub open spec fn sp_eval_stmt(s: SpecStmt, st: SpecState, env: int, fuel: nat) -> (
    SpecObject,
    SpecState,
)
    decreases fuel,
{
    if fuel == 0 {
        (spec_depth_error(), st)
    } else {
        match s {
            SpecStmt::LetStmt(name, e) => {
                let (v, st2) = sp_eval_expr(e, st, env, (fuel - 1) as nat);
                if v is Error {
                    (v, st2)
                } else {
                    if 0 <= env < st2.envs.len() {
                        let frame = st2.envs[env];
                        let frame2 = SpecFrame {
                            store: frame.store.push((name, v)),
                            parent: frame.parent,
                        };
                        (SpecObject::Null, SpecState { envs: st2.envs.update(env, frame2), ..st2 })
                    } else {
                        (SpecObject::Error("invalid environment"@), st2)
                    }
                }
            },
            SpecStmt::ReturnStmt(e) => {
                let (v, st2) = sp_eval_expr(e, st, env, (fuel - 1) as nat);
                if v is Error {
                    (v, st2)
                } else {
                    (SpecObject::ReturnValue(Box::new(v)), st2)
                }
            },
            SpecStmt::ExprStmt(e) => sp_eval_expr(e, st, env, (fuel - 1) as nat),
        }
    }
}

/// A block of statements: the last statement's value, with a return
/// marker or an error stopping the block early.  An empty block is null.
pub open spec fn sp_eval_block(stmts: Seq<SpecStmt>, st: SpecState, env: int, fuel: nat) -> (
    SpecObject,
    SpecState,
)
    decreases fuel,
{
    if fuel == 0 {
        (spec_depth_error(), st)
    } else if stmts.len() == 0 {
        (SpecObject::Null, st)
    } else {
        let (v, st2) = sp_eval_stmt(stmts[0], st, env, (fuel - 1) as nat);
        if v is ReturnValue || v is Error || stmts.len() == 1 {
            (v, st2)
        } else {
            sp_eval_block(stmts.drop_first(), st2, env, (fuel - 1) as nat)
        }
    }
}

/// One expression.
pub open spec fn sp_eval_expr(e: SpecExpr, st: SpecState, env: int, fuel: nat) -> (
    SpecObject,
    SpecState,
)
    decreases fuel,
{
    if fuel == 0 {
        (spec_depth_error(), st)
    } else {
        match e {
            SpecExpr::IdentExpr(name) => match spec_env_get(st.envs, env, name) {
                Some(v) => (v, st),
                None => (SpecObject::Error("identifier not found: "@ + name), st),
            },
            SpecExpr::LiteralExpr(l) => (spec_lift_literal(l), st),
            SpecExpr::PrefixExpr(op, inner) => {
                let (v, st2) = sp_eval_expr(*inner, st, env, (fuel - 1) as nat);
                if v is Error {
                    (v, st2)
                } else {
                    (sp_eval_prefix(op, v), st2)
                }
            },
            SpecExpr::InfixExpr(op, l, r) => {
                let (lv, st2) = sp_eval_expr(*l, st, env, (fuel - 1) as nat);
                if lv is Error {
                    (lv, st2)
                } else {
                    let (rv, st3) = sp_eval_expr(*r, st2, env, (fuel - 1) as nat);
                    if rv is Error {
                        (rv, st3)
                    } else {
                        (sp_eval_infix(op, lv, rv), st3)
                    }
                }
            },
            SpecExpr::IfExpr { cond, consequence, alternative } => {
                let (c, st2) = sp_eval_expr(*cond, st, env, (fuel - 1) as nat);
                if c is Error {
                    (c, st2)
                } else if spec_truthy(c) {
                    sp_eval_block(consequence, st2, env, (fuel - 1) as nat)
                } else {
                    match alternative {
                        Some(alt) => sp_eval_block(alt, st2, env, (fuel - 1) as nat),
                        None => (SpecObject::Null, st2),
                    }
                }
            },
            SpecExpr::FnExpr { params, body } => (SpecObject::Function(params, body, env), st),
            SpecExpr::CallExpr { function, arguments } => {
                let (f, st2) = sp_eval_expr(*function, st, env, (fuel - 1) as nat);
                if f is Error {
                    (f, st2)
                } else {
                    let (argsr, st3) = sp_eval_exprs(arguments, st2, env, (fuel - 1) as nat);
                    match argsr {
                        Err(err) => (err, st3),
                        Ok(args) => sp_apply(f, args, st3, (fuel - 1) as nat),
                    }
                }
            },
            SpecExpr::ArrayExpr(items) => {
                let (vr, st2) = sp_eval_exprs(items, st, env, (fuel - 1) as nat);
                match vr {
                    Err(err) => (err, st2),
                    Ok(vals) => (SpecObject::Array(vals), st2),
                }
            },
            SpecExpr::HashExpr(pairs) => {
                let (hr, st2) = sp_eval_hash(pairs, st, env, (fuel - 1) as nat, Seq::empty());
                match hr {
                    Err(err) => (err, st2),
                    Ok(entries) => (SpecObject::Hash(entries), st2),
                }
            },
            SpecExpr::IndexExpr { array, index } => {
                let (av, st2) = sp_eval_expr(*array, st, env, (fuel - 1) as nat);
                if av is Error {
                    (av, st2)
                } else {
                    let (iv, st3) = sp_eval_expr(*index, st2, env, (fuel - 1) as nat);
                    if iv is Error {
                        (iv, st3)
                    } else {
                        (sp_eval_index(av, iv), st3)
                    }
                }
            },
        }
    }
}

/// A list of expressions, left to right; the first error value stops the
/// list and nothing after it is evaluated.
pub open spec fn sp_eval_exprs(es: Seq<SpecExpr>, st: SpecState, env: int, fuel: nat) -> (
    Result<Seq<SpecObject>, SpecObject>,
    SpecState,
)
    decreases fuel,
{
    if fuel == 0 {
        (Err(spec_depth_error()), st)
    } else if es.len() == 0 {
        (Ok(Seq::empty()), st)
    } else {
        let (v, st2) = sp_eval_expr(es[0], st, env, (fuel - 1) as nat);
        if v is Error {
            (Err(v), st2)
        } else {
            let (restr, st3) = sp_eval_exprs(es.drop_first(), st2, env, (fuel - 1) as nat);
            match restr {
                Err(err) => (Err(err), st3),
                Ok(rest) => (Ok(seq![v] + rest), st3),
            }
        }
    }
}

/// A hash literal's entries, keys lifted directly and value expressions
/// evaluated left to right; a later duplicate key overwrites the earlier
/// entry in place.
pub open spec fn sp_eval_hash(
    pairs: Seq<(SpecLiteral, SpecExpr)>,
    st: SpecState,
    env: int,
    fuel: nat,
    acc: Seq<(SpecLiteral, SpecObject)>,
) -> (Result<Seq<(SpecLiteral, SpecObject)>, SpecObject>, SpecState)
    decreases fuel,
{
    if fuel == 0 {
        (Err(spec_depth_error()), st)
    } else if pairs.len() == 0 {
        (Ok(acc), st)
    } else {
        let (v, st2) = sp_eval_expr(pairs[0].1, st, env, (fuel - 1) as nat);
        if v is Error {
            (Err(v), st2)
        } else {
            sp_eval_hash(
                pairs.drop_first(),
                st2,
                env,
                (fuel - 1) as nat,
                spec_hash_insert(acc, pairs[0].0, v),
            )
        }
    }
}

/// The frame a function call runs in: parameters bound positionally,
/// parented to the closure's captured frame.
pub open spec fn spec_call_frame(
    params: Seq<Seq<char>>,
    args: Seq<SpecObject>,
    fenv: int,
) -> SpecFrame {
    SpecFrame {
        store: Seq::new(params.len(), |i: int| (params[i], args[i])),
        parent: Some(fenv),
    }
}

/// Applies an evaluated callee to evaluated arguments.  A function must
/// receive exactly as many arguments as it has parameters; its body runs
/// in a fresh frame parented to the captured one, and a return marker is
/// unwrapped at the call boundary.  A builtin computes what its table
/// entry says; `print` appends to the output log.  Anything else is not
/// a function.
pub open spec fn sp_apply(f: SpecObject, args: Seq<SpecObject>, st: SpecState, fuel: nat) -> (
    SpecObject,
    SpecState,
)
    decreases fuel,
{
    if fuel == 0 {
        (spec_depth_error(), st)
    } else {
        match f {
            SpecObject::Function(params, body, fenv) => {
                if args.len() != params.len() {
                    (SpecObject::Error("wrong number of arguments"@), st)
                } else if !(0 <= fenv < st.envs.len()) {
                    (SpecObject::Error("invalid environment"@), st)
                } else {
                    let frame = spec_call_frame(params, args, fenv);
                    let st2 = SpecState { envs: st.envs.push(frame), ..st };
                    let (v, st3) = sp_eval_block(body, st2, st.envs.len() as int, (fuel - 1) as nat);
                    if v is Error {
                        (v, st3)
                    } else {
                        (spec_returned(v), st3)
                    }
                }
            },
            SpecObject::Builtin(_, arity, kind) => {
                if args.len() != arity {
                    (SpecObject::Error("wrong number of arguments"@), st)
                } else {
                    sp_apply_builtin(kind, args, st)
                }
            },
            _ => (SpecObject::Error("not a function: "@ + spec_kind_str(f)), st),
        }
    }
}

/// Applies a builtin to its evaluated arguments.
pub open spec fn sp_apply_builtin(kind: BuiltinKind, args: Seq<SpecObject>, st: SpecState) -> (
    SpecObject,
    SpecState,
) {
    match kind {
        BuiltinKind::Print => match spec_bprint(args) {
            Ok((v, line)) => (v, SpecState { output: st.output.push(line), ..st }),
            Err(m) => (SpecObject::Error(m), st),
        },
        BuiltinKind::Len => match spec_blen(args) {
            Ok(v) => (v, st),
            Err(m) => (SpecObject::Error(m), st),
        },
        BuiltinKind::Head => match spec_bhead(args) {
            Ok(v) => (v, st),
            Err(m) => (SpecObject::Error(m), st),
        },
        BuiltinKind::Tail => match spec_btail(args) {
            Ok(v) => (v, st),
            Err(m) => (SpecObject::Error(m), st),
        },
        BuiltinKind::Cons => match spec_bcons(args) {
            Ok(v) => (v, st),
            Err(m) => (SpecObject::Error(m), st),
        },
    }
}

/// A whole program against the top-level frame: the last value produced,
/// with a return marker unwrapped at the top and an error stopping the
/// run.
pub open spec fn sp_eval_program(prog: Seq<SpecStmt>, st: SpecState, env: int, fuel: nat) -> (
    SpecObject,
    SpecState,
) {
    let (v, st2) = sp_eval_block(prog, st, env, fuel);
    if v is Error {
        (v, st2)
    } else {
        (spec_returned(v), st2)
    }
}

/// The fresh evaluator state: one root frame holding the builtins, and an
/// empty output log.
pub open spec fn spec_initial_state() -> SpecState {
    SpecState {
        envs: seq![SpecFrame { store: spec_builtins(), parent: None }],
        output: Seq::empty(),
    }
}

/// The recursion fuel the evaluator runs with.
pub open spec fn spec_default_fuel() -> nat {
    3000
}

/// The recursion fuel the evaluator runs with.
pub const DEFAULT_FUEL: u64 = 3000;

/// The display name of a value's kind.
fn kind_str(o: &Object) -> (r: &'static str)
    ensures
        r@ == spec_kind_str(o@),
{
    match o {
        Object::Integer(_) => "Integer",
        Object::Boolean(_) => "Boolean",
        Object::Str(_) => "String",
        Object::Array(_) => "Array",
        Object::Hash(_) => "Hash",
        Object::Function(_, _, _) => "Function",
        Object::Builtin(_, _, _) => "Builtin",
        Object::Null => "Null",
        Object::ReturnValue(_) => "ReturnValue",
        Object::Error(_) => "Error",
    }
}

/// The display form of an infix operator.
fn infix_str(op: Infix) -> (r: &'static str)
    ensures
        r@ == spec_infix_str(op),
{
    match op {
        Infix::Plus => "+",
        Infix::Minus => "-",
        Infix::Divide => "/",
        Infix::Multiply => "*",
        Infix::Equal => "==",
        Infix::NotEqual => "!=",
        Infix::GreaterThanEqual => ">=",
        Infix::LessThanEqual => "<=",
        Infix::GreaterThan => ">",
        Infix::LessThan => "<",
    }
}

/// Whether two values are of the same kind.
fn same_kind(l: &Object, r: &Object) -> (res: bool)
    ensures
        res == spec_same_kind(l@, r@),
{
    match (l, r) {
        (Object::Integer(_), Object::Integer(_)) => true,
        (Object::Boolean(_), Object::Boolean(_)) => true,
        (Object::Str(_), Object::Str(_)) => true,
        (Object::Array(_), Object::Array(_)) => true,
        (Object::Hash(_), Object::Hash(_)) => true,
        (Object::Function(_, _, _), Object::Function(_, _, _)) => true,
        (Object::Builtin(_, _, _), Object::Builtin(_, _, _)) => true,
        (Object::Null, Object::Null) => true,
        (Object::ReturnValue(_), Object::ReturnValue(_)) => true,
        (Object::Error(_), Object::Error(_)) => true,
        _ => false,
    }
}

/// Truthiness of a value.
fn truthy(o: &Object) -> (r: bool)
    ensures
        r == spec_truthy(o@),
{
    match o {
        Object::Boolean(b) => *b,
        Object::Null => false,
        _ => true,
    }
}

/// The error value for exhausted recursion fuel.
fn depth_error() -> (r: Object)
    ensures
        r@ == spec_depth_error(),
{
    Object::Error(String::from_str("recursion limit reached"))
}

/// The absolute value of a 64-bit integer, widened.
fn abs_u64(a: i64) -> (r: u64)
    ensures
        r as int == spec_abs(a),
{
    if a >= 0 {
        a as u64
    } else {
        ((-(a + 1)) as u64) + 1
    }
}

/// Truncated division, wrapping on the one overflowing case.
fn div_trunc(a: i64, b: i64) -> (r: i64)
    requires
        b != 0,
    ensures
        r == spec_div_trunc(a, b),
{
    if a == i64::MIN && b == -1 {
        i64::MIN
    } else {
        let ua = abs_u64(a);
        let ub = abs_u64(b);
        let q = ua / ub;
        proof {
            assert(ua as int / ub as int <= ua as int) by (nonlinear_arith)
                requires
                    ub >= 1,
                    ua >= 0,
            ;
        }
        if (a < 0) != (b < 0) {
            if q == 0 {
                0
            } else {
                -((q - 1) as i64) - 1
            }
        } else {
            proof {
                if a == i64::MIN {
                    assert(b < 0 && b != -1);
                    assert(ub >= 2);
                    assert(ua as int / ub as int <= ua as int / 2) by (nonlinear_arith)
                        requires
                            ub >= 2,
                            ua >= 0,
                    ;
                }
            }
            q as i64
        }
    }
}

/// Integer arithmetic and comparison; equality is handled before this.
fn eval_int_infix(op: Infix, a: i64, b: i64) -> (r: Object)
    requires
        !(op is Equal),
        !(op is NotEqual),
    ensures
        r@ == sp_eval_infix(op, SpecObject::Integer(a), SpecObject::Integer(b)),
{
    match op {
        Infix::Plus => Object::Integer(a.wrapping_add(b)),
        Infix::Minus => Object::Integer(a.wrapping_sub(b)),
        Infix::Multiply => Object::Integer(a.wrapping_mul(b)),
        Infix::Divide => if b == 0 {
            Object::Error(String::from_str("division by zero"))
        } else {
            Object::Integer(div_trunc(a, b))
        },
        Infix::LessThan => Object::Boolean(a < b),
        Infix::GreaterThan => Object::Boolean(a > b),
        Infix::LessThanEqual => Object::Boolean(a <= b),
        Infix::GreaterThanEqual => Object::Boolean(a >= b),
        _ => Object::Error(String::from_str("unknown operator")),
    }
}

/// Builds an operator error message with the given prefix.
fn op_error_msg(prefix: &str, l: &Object, op: Infix, r: &Object) -> (res: String)
    ensures
        res@ == prefix@ + spec_kind_str(l@) + " "@ + spec_infix_str(op) + " "@ + spec_kind_str(r@),
{
    let mut m = String::from_str(prefix);
    m.append(kind_str(l));
    m.append(" ");
    m.append(infix_str(op));
    m.append(" ");
    m.append(kind_str(r));
    m
}

/// An infix operator applied to evaluated operands.
fn eval_infix(op: Infix, l: Object, r: Object) -> (res: Object)
    ensures
        res@ == sp_eval_infix(op, l@, r@),
{
    if matches!(op, Infix::Equal) {
        return Object::Boolean(object_eq(&l, &r));
    }
    if matches!(op, Infix::NotEqual) {
        return Object::Boolean(!object_eq(&l, &r));
    }
    match (&l, &r) {
        (Object::Integer(a), Object::Integer(b)) => {
            return eval_int_infix(op, *a, *b);
        },
        (Object::Str(a), Object::Str(b)) => {
            if matches!(op, Infix::Plus) {
                let mut s = a.clone();
                s.append(b.as_str());
                return Object::Str(s);
            }
        },
        _ => {},
    }
    if same_kind(&l, &r) {
        Object::Error(op_error_msg("unknown operator: ", &l, op, &r))
    } else {
        Object::Error(op_error_msg("type mismatch: ", &l, op, &r))
    }
}

/// A prefix operator applied to an evaluated operand.
fn eval_prefix(op: Prefix, v: Object) -> (r: Object)
    ensures
        r@ == sp_eval_prefix(op, v@),
{
    match op {
        Prefix::Not => Object::Boolean(!truthy(&v)),
        Prefix::PrefixMinus => match &v {
            Object::Integer(i) => Object::Integer(0i64.wrapping_sub(*i)),
            _ => {
                let mut m = String::from_str("unknown operator: -");
                m.append(kind_str(&v));
                Object::Error(m)
            },
        },
        Prefix::PrefixPlus => match &v {
            Object::Integer(i) => Object::Integer(*i),
            _ => {
                let mut m = String::from_str("unknown operator: +");
                m.append(kind_str(&v));
                Object::Error(m)
            },
        },
    }
}

/// The primitive hash key an evaluated index denotes, if any.
fn obj_to_key(o: &Object) -> (r: Option<Literal>)
    ensures
        match r {
            Some(k) => spec_obj_to_key(o@) == Some(k@),
            None => spec_obj_to_key(o@) is None,
        },
{
    match o {
        Object::Integer(i) => Some(Literal::IntLiteral(*i)),
        Object::Boolean(b) => Some(Literal::BoolLiteral(*b)),
        Object::Str(s) => Some(Literal::StringLiteral(s.clone())),
        _ => None,
    }
}

/// Finds the index of a key among a hash's entries, scanning from `i`.
fn hash_find_from(entries: &Vec<(Literal, Object)>, k: &Literal, i: usize) -> (r: Option<usize>)
    requires
        i <= entries@.len(),
    ensures
        match r {
            Some(j) => i <= j < entries@.len() && spec_hash_find(
                view_hash_entries(*entries).skip(i as int),
                k@,
            ) == Some(j - i),
            None => spec_hash_find(view_hash_entries(*entries).skip(i as int), k@) is None,
        },
    decreases entries@.len() - i,
{
    let ghost vv = view_hash_entries(*entries);
    if i >= entries.len() {
        proof {
            assert(vv.skip(i as int) =~= Seq::<(SpecLiteral, SpecObject)>::empty());
        }
        return None;
    }
    proof {
        assert(vv.skip(i as int)[0] == vv[i as int]);
        assert(vv.skip(i as int).drop_first() =~= vv.skip(i + 1));
    }
    if crate::ast::literal_eq(&entries[i].0, k) {
        Some(i)
    } else {
        match hash_find_from(entries, k, i + 1) {
            Some(j) => Some(j),
            None => None,
        }
    }
}

/// Looks a key up among a hash's entries, scanning from `i`.
fn hash_lookup_from(entries: &Vec<(Literal, Object)>, k: &Literal, i: usize) -> (r: Option<Object>)
    requires
        i <= entries@.len(),
    ensures
        match r {
            Some(v) => spec_hash_lookup(view_hash_entries(*entries).skip(i as int), k@) == Some(v@),
            None => spec_hash_lookup(view_hash_entries(*entries).skip(i as int), k@) is None,
        },
    decreases entries@.len() - i,
{
    let ghost vv = view_hash_entries(*entries);
    if i >= entries.len() {
        proof {
            assert(vv.skip(i as int) =~= Seq::<(SpecLiteral, SpecObject)>::empty());
        }
        return None;
    }
    proof {
        assert(vv.skip(i as int)[0] == vv[i as int]);
        assert(vv.skip(i as int).drop_first() =~= vv.skip(i + 1));
    }
    if crate::ast::literal_eq(&entries[i].0, k) {
        Some(clone_object(&entries[i].1))
    } else {
        hash_lookup_from(entries, k, i + 1)
    }
}

/// Inserts a key-value pair into a hash's entries, overwriting in place.
fn hash_insert(entries: &mut Vec<(Literal, Object)>, k: Literal, v: Object)
    ensures
        view_hash_entries(*final(entries)) == spec_hash_insert(
            view_hash_entries(*old(entries)),
            k@,
            v@,
        ),
{
    let ghost vv = view_hash_entries(*old(entries));
    let ghost kv = (k@, v@);
    match hash_find_from(entries, &k, 0) {
        Some(j) => {
            proof {
                assert(vv.skip(0) =~= vv);
            }
            entries[j] = (k, v);
            proof {
                assert(view_hash_entries(*entries) =~= vv.update(j as int, kv));
            }
        },
        None => {
            proof {
                assert(vv.skip(0) =~= vv);
            }
            entries.push((k, v));
            proof {
                assert(view_hash_entries(*entries) =~= vv.push(kv));
            }
        },
    }
}

/// An index operation applied to evaluated operands.
fn eval_index(av: Object, iv: Object) -> (r: Object)
    ensures
        r@ == sp_eval_index(av@, iv@),
{
    match &av {
        Object::Array(v) => match &iv {
            Object::Integer(i) => {
                if 0 <= *i && (*i as u64) < (v.len() as u64) {
                    let r = clone_object(&v[*i as usize]);
                    proof {
                        assert(view_objects(*v)[*i as int] == view_object(v@[*i as int]));
                    }
                    r
                } else {
                    Object::Null
                }
            },
            _ => Object::Error(String::from_str("index operator not supported: Array")),
        },
        Object::Hash(entries) => match obj_to_key(&iv) {
            Some(k) => match hash_lookup_from(entries, &k, 0) {
                Some(v) => {
                    proof {
                        assert(view_hash_entries(*entries).skip(0) =~= view_hash_entries(*entries));
                    }
                    v
                },
                None => {
                    proof {
                        assert(view_hash_entries(*entries).skip(0) =~= view_hash_entries(*entries));
                    }
                    Object::Null
                },
            },
            None => {
                let mut m = String::from_str("unusable as hash key: ");
                m.append(kind_str(&iv));
                Object::Error(m)
            },
        },
        _ => {
            let mut m = String::from_str("index operator not supported: ");
            m.append(kind_str(&av));
            Object::Error(m)
        },
    }
}

/// The model of the output log.
pub open spec fn view_output(v: Seq<String>) -> Seq<Seq<char>> {
    Seq::new(v.len(), |i: int| v[i]@)
}

/// The tree-walking evaluator: the arena of environment frames and the
/// log of lines printed so far.
pub struct Evaluator {
    pub envs: Vec<Environment>,
    pub output: Vec<String>,
}

impl Evaluator {
    /// The model of this evaluator's state.
    pub open spec fn st(&self) -> SpecState {
        SpecState { envs: view_envs(self.envs@), output: view_output(self.output@) }
    }

    /// The evaluator's invariant: at least the root frame exists and
    /// every frame's parent handle points below it.
    pub open spec fn inv(&self) -> bool {
        spec_wf_envs(view_envs(self.envs@)) && self.envs@.len() >= 1
    }

    /// A fresh evaluator: one root frame holding the builtins.
    pub fn new() -> (r: Evaluator)
        ensures
            r.st() == spec_initial_state(),
            r.inv(),
    {
        let mut envs: Vec<Environment> = Vec::new();
        envs.push(Environment::new());
        let r = Evaluator { envs, output: Vec::new() };
        proof {
            assert(r.st().envs =~= spec_initial_state().envs);
            assert(r.st().output =~= spec_initial_state().output);
            assert(r.st() == spec_initial_state());
        }
        r
    }

    /// Evaluates a whole program against the top-level frame.
    pub fn eval_program(&mut self, program: Program) -> (r: Object)
        requires
            old(self).inv(),
        ensures
            r@ == sp_eval_program(
                view_program(program),
                old(self).st(),
                0,
                spec_default_fuel(),
            ).0,
            final(self).st() == sp_eval_program(
                view_program(program),
                old(self).st(),
                0,
                spec_default_fuel(),
            ).1,
            final(self).inv(),
    {
        let v = self.eval_block(&program, 0, DEFAULT_FUEL);
        if matches!(&v, Object::Error(_)) {
            v
        } else {
            v.returned()
        }
    }

    /// Evaluates a block of statements.
    fn eval_block(&mut self, stmts: &Vec<Stmt>, env: usize, fuel: u64) -> (r: Object)
        requires
            old(self).inv(),
            env < old(self).envs@.len(),
        ensures
            r@ == sp_eval_block(view_program(*stmts), old(self).st(), env as int, fuel as nat).0,
            final(self).st() == sp_eval_block(
                view_program(*stmts),
                old(self).st(),
                env as int,
                fuel as nat,
            ).1,
            final(self).inv(),
            final(self).envs@.len() >= old(self).envs@.len(),
        decreases fuel, 1int,
    {
        let ghost full = view_program(*stmts);
        let ghost st0 = self.st();
        let mut i: usize = 0;
        let mut cur_fuel: u64 = fuel;
        proof {
            assert(full.skip(0) =~= full);
        }
        loop
            invariant
                self.inv(),
                i <= stmts@.len(),
                env < self.envs@.len(),
                self.envs@.len() >= old(self).envs@.len(),
                cur_fuel <= fuel,
                st0 == old(self).st(),
                full == view_program(*stmts),
                sp_eval_block(full, st0, env as int, fuel as nat) == sp_eval_block(
                    full.skip(i as int),
                    self.st(),
                    env as int,
                    cur_fuel as nat,
                ),
            decreases cur_fuel,
        {
            if cur_fuel == 0 {
                return depth_error();
            }
            if i >= stmts.len() {
                proof {
                    assert(full.skip(i as int) =~= Seq::<SpecStmt>::empty());
                }
                return Object::Null;
            }
            proof {
                assert(full.skip(i as int)[0] == full[i as int]);
                assert(full.skip(i as int).drop_first() =~= full.skip(i + 1));
            }
            let v = self.eval_stmt(&stmts[i], env, cur_fuel - 1);
            if v.is_returned() || matches!(&v, Object::Error(_)) || i + 1 == stmts.len() {
                return v;
            }
            i = i + 1;
            cur_fuel = cur_fuel - 1;
        }
    }

    /// Evaluates one statement.
    fn eval_stmt(&mut self, s: &Stmt, env: usize, fuel: u64) -> (r: Object)
        requires
            old(self).inv(),
            env < old(self).envs@.len(),
        ensures
            r@ == sp_eval_stmt(s@, old(self).st(), env as int, fuel as nat).0,
            final(self).st() == sp_eval_stmt(s@, old(self).st(), env as int, fuel as nat).1,
            final(self).inv(),
            final(self).envs@.len() >= old(self).envs@.len(),
        decreases fuel, 0int,
    {
        if fuel == 0 {
            return depth_error();
        }
        match s {
            Stmt::LetStmt(id, e) => {
                let v = self.eval_expr(e, env, fuel - 1);
                if matches!(&v, Object::Error(_)) {
                    v
                } else {
                    let ghost st2 = self.st();
                    let ghost vv = v@;
                    if env < self.envs.len() {
                        let ghost frame0 = self.st().envs[env as int];
                        self.envs[env].set(id.0.as_str(), v);
                        proof {
                            assert(view_envs(self.envs@) =~= st2.envs.update(
                                env as int,
                                SpecFrame {
                                    store: frame0.store.push((id.0@, vv)),
                                    parent: frame0.parent,
                                },
                            ));
                            assert(self.st().output =~= st2.output);
                        }
                        Object::Null
                    } else {
                        Object::Error(String::from_str("invalid environment"))
                    }
                }
            },
            Stmt::ReturnStmt(e) => {
                let v = self.eval_expr(e, env, fuel - 1);
                if matches!(&v, Object::Error(_)) {
                    v
                } else {
                    Object::ReturnValue(Box::new(v))
                }
            },
            Stmt::ExprStmt(e) => self.eval_expr(e, env, fuel - 1),
        }
    }

    /// Evaluates one expression.
    fn eval_expr(&mut self, e: &Expr, env: usize, fuel: u64) -> (r: Object)
        requires
            old(self).inv(),
            env < old(self).envs@.len(),
        ensures
            r@ == sp_eval_expr(e@, old(self).st(), env as int, fuel as nat).0,
            final(self).st() == sp_eval_expr(e@, old(self).st(), env as int, fuel as nat).1,
            final(self).inv(),
            final(self).envs@.len() >= old(self).envs@.len(),
        decreases fuel, 0int,
    {
        if fuel == 0 {
            return depth_error();
        }
        match e {
            Expr::IdentExpr(id) => {
                match crate::environment::env_get(&self.envs, env, id.0.as_str()) {
                    Some(v) => v,
                    None => {
                        let mut m = String::from_str("identifier not found: ");
                        m.append(id.0.as_str());
                        Object::Error(m)
                    },
                }
            },
            Expr::LiteralExpr(l) => match l {
                Literal::IntLiteral(i) => Object::Integer(*i),
                Literal::BoolLiteral(b) => Object::Boolean(*b),
                Literal::StringLiteral(s) => Object::Str(s.clone()),
            },
            Expr::PrefixExpr(op, inner) => {
                let v = self.eval_expr(inner, env, fuel - 1);
                if matches!(&v, Object::Error(_)) {
                    v
                } else {
                    eval_prefix(*op, v)
                }
            },
            Expr::InfixExpr(op, l, r) => {
                let lv = self.eval_expr(l, env, fuel - 1);
                if matches!(&lv, Object::Error(_)) {
                    lv
                } else {
                    let rv = self.eval_expr(r, env, fuel - 1);
                    if matches!(&rv, Object::Error(_)) {
                        rv
                    } else {
                        eval_infix(*op, lv, rv)
                    }
                }
            },
            Expr::IfExpr { cond, consequence, alternative } => {
                let c = self.eval_expr(cond, env, fuel - 1);
                if matches!(&c, Object::Error(_)) {
                    c
                } else if truthy(&c) {
                    self.eval_block(consequence, env, fuel - 1)
                } else {
                    match alternative {
                        Option::Some(alt) => self.eval_block(alt, env, fuel - 1),
                        Option::None => Object::Null,
                    }
                }
            },
            Expr::FnExpr { params, body } => {
                Object::Function(crate::ast::clone_params(params), crate::ast::clone_program(body), env)
            },
            Expr::CallExpr { function, arguments } => {
                let f = self.eval_expr(function, env, fuel - 1);
                if matches!(&f, Object::Error(_)) {
                    f
                } else {
                    proof {
                        assert(view_exprs(*arguments).skip(0) =~= view_exprs(*arguments));
                    }
                    match self.eval_exprs_from(arguments, 0, env, fuel - 1) {
                        Err(err) => err,
                        Ok(args) => self.apply(f, args, fuel - 1),
                    }
                }
            },
            Expr::ArrayExpr(items) => {
                proof {
                    assert(view_exprs(*items).skip(0) =~= view_exprs(*items));
                }
                match self.eval_exprs_from(items, 0, env, fuel - 1) {
                    Err(err) => err,
                    Ok(vals) => Object::Array(vals),
                }
            },
            Expr::HashExpr(pairs) => {
                let acc: Vec<(Literal, Object)> = Vec::new();
                proof {
                    assert(view_hash_entries(acc) =~= Seq::<(SpecLiteral, SpecObject)>::empty());
                    assert(view_pairs(*pairs).skip(0) =~= view_pairs(*pairs));
                }
                match self.eval_hash_from(pairs, 0, env, fuel - 1, acc) {
                    Err(err) => err,
                    Ok(entries) => Object::Hash(entries),
                }
            },
            Expr::IndexExpr { array, index } => {
                let av = self.eval_expr(array, env, fuel - 1);
                if matches!(&av, Object::Error(_)) {
                    av
                } else {
                    let iv = self.eval_expr(index, env, fuel - 1);
                    if matches!(&iv, Object::Error(_)) {
                        iv
                    } else {
                        eval_index(av, iv)
                    }
                }
            },
        }
    }

    /// Evaluates the expressions from `i` on, left to right, stopping at
    /// the first error value.
    fn eval_exprs_from(&mut self, es: &Vec<Expr>, i: usize, env: usize, fuel: u64) -> (r: Result<
        Vec<Object>,
        Object,
    >)
        requires
            old(self).inv(),
            env < old(self).envs@.len(),
            i <= es@.len(),
        ensures
            match r {
                Ok(vals) => sp_eval_exprs(
                    view_exprs(*es).skip(i as int),
                    old(self).st(),
                    env as int,
                    fuel as nat,
                ).0 == Ok::<_, SpecObject>(view_objects(vals)),
                Err(err) => sp_eval_exprs(
                    view_exprs(*es).skip(i as int),
                    old(self).st(),
                    env as int,
                    fuel as nat,
                ).0 == Err::<Seq<SpecObject>, _>(err@),
            },
            final(self).st() == sp_eval_exprs(
                view_exprs(*es).skip(i as int),
                old(self).st(),
                env as int,
                fuel as nat,
            ).1,
            final(self).inv(),
            final(self).envs@.len() >= old(self).envs@.len(),
        decreases fuel, 0int,
    {
        let ghost full = view_exprs(*es);
        if fuel == 0 {
            return Err(depth_error());
        }
        if i >= es.len() {
            proof {
                assert(full.skip(i as int) =~= Seq::<SpecExpr>::empty());
            }
            let empty: Vec<Object> = Vec::new();
            proof {
                assert(view_objects(empty) =~= Seq::<SpecObject>::empty());
            }
            return Ok(empty);
        }
        proof {
            assert(full.skip(i as int)[0] == full[i as int]);
            assert(full.skip(i as int).drop_first() =~= full.skip(i + 1));
        }
        let v = self.eval_expr(&es[i], env, fuel - 1);
        if matches!(&v, Object::Error(_)) {
            return Err(v);
        }
        match self.eval_exprs_from(es, i + 1, env, fuel - 1) {
            Err(err) => Err(err),
            Ok(mut rest) => {
                let ghost rest0 = view_objects(rest);
                let ghost vv = v@;
                rest.insert(0, v);
                proof {
                    assert(view_objects(rest) =~= seq![vv] + rest0);
                }
                Ok(rest)
            },
        }
    }

    /// Evaluates a hash literal's entries from `i` on onto `acc`.
    fn eval_hash_from(
        &mut self,
        pairs: &Vec<(Literal, Expr)>,
        i: usize,
        env: usize,
        fuel: u64,
        acc: Vec<(Literal, Object)>,
    ) -> (r: Result<Vec<(Literal, Object)>, Object>)
        requires
            old(self).inv(),
            env < old(self).envs@.len(),
            i <= pairs@.len(),
        ensures
            match r {
                Ok(entries) => sp_eval_hash(
                    view_pairs(*pairs).skip(i as int),
                    old(self).st(),
                    env as int,
                    fuel as nat,
                    view_hash_entries(acc),
                ).0 == Ok::<_, SpecObject>(view_hash_entries(entries)),
                Err(err) => sp_eval_hash(
                    view_pairs(*pairs).skip(i as int),
                    old(self).st(),
                    env as int,
                    fuel as nat,
                    view_hash_entries(acc),
                ).0 == Err::<Seq<(SpecLiteral, SpecObject)>, _>(err@),
            },
            final(self).st() == sp_eval_hash(
                view_pairs(*pairs).skip(i as int),
                old(self).st(),
                env as int,
                fuel as nat,
                view_hash_entries(acc),
            ).1,
            final(self).inv(),
            final(self).envs@.len() >= old(self).envs@.len(),
        decreases fuel, 0int,
    {
        let ghost full = view_pairs(*pairs);
        if fuel == 0 {
            return Err(depth_error());
        }
        if i >= pairs.len() {
            proof {
                assert(full.skip(i as int) =~= Seq::<(SpecLiteral, SpecExpr)>::empty());
            }
            return Ok(acc);
        }
        proof {
            assert(full.skip(i as int)[0] == full[i as int]);
            assert(full.skip(i as int).drop_first() =~= full.skip(i + 1));
        }
        let v = self.eval_expr(&pairs[i].1, env, fuel - 1);
        if matches!(&v, Object::Error(_)) {
            return Err(v);
        }
        let mut acc2 = acc;
        hash_insert(&mut acc2, pairs[i].0.clone(), v);
        self.eval_hash_from(pairs, i + 1, env, fuel - 1, acc2)
    }

    /// Applies an evaluated callee to evaluated arguments.
    fn apply(&mut self, f: Object, args: Vec<Object>, fuel: u64) -> (r: Object)
        requires
            old(self).inv(),
        ensures
            r@ == sp_apply(f@, view_objects(args), old(self).st(), fuel as nat).0,
            final(self).st() == sp_apply(f@, view_objects(args), old(self).st(), fuel as nat).1,
            final(self).inv(),
            final(self).envs@.len() >= old(self).envs@.len(),
        decreases fuel, 2int,
    {
        if fuel == 0 {
            return depth_error();
        }
        match f {
            Object::Function(params, body, fenv) => {
                if args.len() != params.len() {
                    return Object::Error(String::from_str("wrong number of arguments"));
                }
                if !(fenv < self.envs.len()) {
                    return Object::Error(String::from_str("invalid environment"));
                }
                let ghost st0 = self.st();
                let mut frame = Environment::new_with_outer(fenv);
                let mut j: usize = 0;
                while j < params.len()
                    invariant
                        j <= params@.len(),
                        params@.len() == args@.len(),
                        frame@.parent == Some(fenv as int),
                        frame@.store.len() == j,
                        forall|t: int|
                            0 <= t < j ==> frame@.store[t] == (view_params(params)[t], view_objects(
                                args,
                            )[t]),
                    decreases params@.len() - j,
                {
                    frame.set(params[j].0.as_str(), clone_object(&args[j]));
                    j = j + 1;
                }
                proof {
                    assert(frame@.store =~= spec_call_frame(
                        view_params(params),
                        view_objects(args),
                        fenv as int,
                    ).store);
                }
                let new_env = self.envs.len();
                self.envs.push(frame);
                proof {
                    assert(view_envs(self.envs@) =~= st0.envs.push(
                        spec_call_frame(view_params(params), view_objects(args), fenv as int),
                    ));
                    assert(self.st().output =~= st0.output);
                }
                let v = self.eval_block(&body, new_env, fuel - 1);
                if matches!(&v, Object::Error(_)) {
                    v
                } else {
                    v.returned()
                }
            },
            Object::Builtin(_, arity, kind) => {
                if args.len() != arity {
                    return Object::Error(String::from_str("wrong number of arguments"));
                }
                self.apply_builtin(kind, args)
            },
            _ => {
                let mut m = String::from_str("not a function: ");
                m.append(kind_str(&f));
                Object::Error(m)
            },
        }
    }

    /// Applies a builtin to its evaluated arguments.
    fn apply_builtin(&mut self, kind: BuiltinKind, args: Vec<Object>) -> (r: Object)
        requires
            old(self).inv(),
        ensures
            r@ == sp_apply_builtin(kind, view_objects(args), old(self).st()).0,
            final(self).st() == sp_apply_builtin(kind, view_objects(args), old(self).st()).1,
            final(self).inv(),
            final(self).envs@.len() >= old(self).envs@.len(),
    {
        match kind {
            BuiltinKind::Print => match crate::builtins::bprint_fn(args) {
                Ok((v, line)) => {
                    let ghost st0 = self.st();
                    let ghost lv = line@;
                    self.output.push(line);
                    proof {
                        assert(view_output(self.output@) =~= st0.output.push(lv));
                        assert(view_envs(self.envs@) =~= st0.envs);
                    }
                    v
                },
                Err(m) => Object::Error(m),
            },
            BuiltinKind::Len => match crate::builtins::blen_fn(args) {
                Ok(v) => v,
                Err(m) => Object::Error(m),
            },
            BuiltinKind::Head => match crate::builtins::bhead_fn(args) {
                Ok(v) => v,
                Err(m) => Object::Error(m),
            },
            BuiltinKind::Tail => match crate::builtins::btail_fn(args) {
                Ok(v) => v,
                Err(m) => Object::Error(m),
            },
            BuiltinKind::Cons => match crate::builtins::bcons_fn(args) {
                Ok(v) => v,
                Err(m) => Object::Error(m),
            },
        }
    }
}

} // verus!
