//! Laws of the pipeline, stated over the models and proved once and for
//! all: determinism of each stage, the literal round trip, closure
//! capture through the frame arena, return propagation, and error
//! short-circuiting.

use crate::ast::{Precedence, SpecExpr, SpecLiteral, SpecStmt};
use crate::environment::{
    spec_env_get, spec_store_lookup, spec_wf_envs, SpecFrame,
};
use crate::evaluator::{
    sp_apply, sp_eval_block, sp_eval_expr, sp_eval_exprs, sp_eval_program, sp_eval_stmt,
    spec_default_fuel, spec_lift_literal, SpecState,
};
use crate::lexer::spec_lex;
use crate::object::{spec_returned, SpecObject};
use crate::parser::{
    sp_parse, sp_parse_expr, sp_parse_infix_loop, sp_parse_prefix, sp_parse_program, sp_parse_stmt,
};
use crate::token::SpecToken;
use vstd::prelude::*;

verus! {

/// Lexing is deterministic: the token stream is a function of the source
/// alone, so lexing the same source twice yields identical tokens.
pub proof fn lemma_lex_deterministic(src: Seq<char>, r1: Option<Seq<SpecToken>>, r2: Option<
    Seq<SpecToken>,
>)
    requires
        r1 == spec_lex(src, 0),
        r2 == spec_lex(src, 0),
    ensures
        r1 == r2,
{
}

/// Parsing is deterministic: the program is a function of the token
/// stream alone.
pub proof fn lemma_parse_deterministic(ts: Seq<SpecToken>, r1: Option<Seq<SpecStmt>>, r2: Option<
    Seq<SpecStmt>,
>)
    requires
        r1 == sp_parse(ts),
        r2 == sp_parse(ts),
    ensures
        r1 == r2,
{
}

/// Evaluation is deterministic: the value and the final state are a
/// function of the program and the starting state alone.
pub proof fn lemma_eval_deterministic(
    prog: Seq<SpecStmt>,
    st: SpecState,
    r1: (SpecObject, SpecState),
    r2: (SpecObject, SpecState),
)
    requires
        r1 == sp_eval_program(prog, st, 0, spec_default_fuel()),
        r2 == sp_eval_program(prog, st, 0, spec_default_fuel()),
    ensures
        r1 == r2,
{
}

/// The token stream of a source holding only a literal.
pub open spec fn spec_literal_tokens(l: SpecLiteral) -> Seq<SpecToken> {
    match l {
        SpecLiteral::IntLiteral(i) => seq![SpecToken::IntLiteral(i), SpecToken::EOF],
        SpecLiteral::BoolLiteral(b) => seq![SpecToken::BoolLiteral(b), SpecToken::EOF],
        SpecLiteral::StringLiteral(s) => seq![SpecToken::StringLiteral(s), SpecToken::EOF],
    }
}

/// The literal round trip: parsing a stream that holds one literal
/// yields a program of one bare expression statement, and evaluating
/// that program in any state yields exactly the value the literal
/// denotes, with the state untouched.
pub proof fn lemma_literal_round_trip(l: SpecLiteral, st: SpecState)
    ensures
        sp_parse(spec_literal_tokens(l)) == Some(
            seq![SpecStmt::ExprStmt(SpecExpr::LiteralExpr(l))],
        ),
        sp_eval_program(
            seq![SpecStmt::ExprStmt(SpecExpr::LiteralExpr(l))],
            st,
            0,
            spec_default_fuel(),
        ) == (spec_lift_literal(l), st),
{
    let ts = spec_literal_tokens(l);
    let prog = seq![SpecStmt::ExprStmt(SpecExpr::LiteralExpr(l))];
    let f0 = crate::parser::sp_fuel(ts.len());
    let f1 = (f0 - 1) as nat;
    let f2 = (f1 - 1) as nat;
    let f3 = (f2 - 1) as nat;
    let le = SpecExpr::LiteralExpr(l);
    assert(ts.len() == 2 && ts[1] == SpecToken::EOF);
    assert(crate::parser::spec_tok(ts, 1) == SpecToken::EOF);
    assert(sp_parse_prefix(ts, 0, f3) == Some((le, 1int)));
    assert(sp_parse_infix_loop(ts, 1, le, Precedence::PLowest, f3) == Some((le, 1int)));
    assert(sp_parse_expr(ts, 0, Precedence::PLowest, f2) == Some((le, 1int)));
    assert(sp_parse_stmt(ts, 0, f1) == Some((SpecStmt::ExprStmt(le), 1int)));
    assert(sp_parse_program(ts, 1, f1) == Some((Seq::<SpecStmt>::empty(), 1int)));
    assert(seq![SpecStmt::ExprStmt(le)] + Seq::<SpecStmt>::empty() =~= prog);
    assert(sp_parse_program(ts, 0, f0) == Some((prog, 1int)));
    let g0 = spec_default_fuel();
    let g1 = (g0 - 1) as nat;
    let g2 = (g1 - 1) as nat;
    assert(sp_eval_expr(le, st, 0, g2) == (spec_lift_literal(l), st));
    assert(sp_eval_stmt(prog[0], st, 0, g1) == (spec_lift_literal(l), st));
    assert(!(spec_lift_literal(l) is ReturnValue) && !(spec_lift_literal(l) is Error));
    assert(sp_eval_block(prog, st, 0, g0) == (spec_lift_literal(l), st));
    assert(spec_returned(spec_lift_literal(l)) == spec_lift_literal(l));
}

/// Closure capture: a frame child of `parent` sees a binding pushed onto
/// the parent after the child was made, whenever the child itself does
/// not shadow the name.  A function value holds its defining frame by
/// handle, so this is exactly what a call of the function observes.
pub proof fn lemma_closure_sees_later_binding(
    envs: Seq<SpecFrame>,
    child: int,
    parent: int,
    name: Seq<char>,
    v: SpecObject,
)
    requires
        spec_wf_envs(envs),
        0 <= child < envs.len(),
        envs[child].parent == Some(parent),
        spec_store_lookup(envs[child].store, name) is None,
    ensures
        ({
            let envs2 = envs.update(
                parent,
                SpecFrame {
                    store: envs[parent].store.push((name, v)),
                    parent: envs[parent].parent,
                },
            );
            spec_env_get(envs2, child, name) == Some(v)
        }),
{
    let envs2 = envs.update(
        parent,
        SpecFrame { store: envs[parent].store.push((name, v)), parent: envs[parent].parent },
    );
    assert(0 <= parent < child);
    assert(envs2[child] == envs[child]);
    assert(envs2[parent].store.last() == (name, v));
    assert(spec_store_lookup(envs2[parent].store, name) == Some(v));
    assert(spec_env_get(envs2, parent, name) == Some(v));
    assert(spec_env_get(envs2, child, name) == Some(v));
}

/// Return propagation: a statement that yields a return marker stops its
/// block at once, whatever statements follow.  Applied at every nesting
/// level, a `return` inside a nested block reaches the enclosing
/// function call.
pub proof fn lemma_return_stops_block(stmts: Seq<SpecStmt>, st: SpecState, env: int, fuel: nat)
    requires
        fuel > 0,
        stmts.len() > 0,
        sp_eval_stmt(stmts[0], st, env, (fuel - 1) as nat).0 is ReturnValue,
    ensures
        sp_eval_block(stmts, st, env, fuel) == sp_eval_stmt(stmts[0], st, env, (fuel - 1) as nat),
{
}

/// Return propagation, call boundary: when a function body's block ends
/// in a return marker, the call yields the marker's payload.
pub proof fn lemma_call_unwraps_return(
    params: Seq<Seq<char>>,
    body: Seq<SpecStmt>,
    fenv: int,
    args: Seq<SpecObject>,
    st: SpecState,
    fuel: nat,
)
    requires
        fuel > 0,
        args.len() == params.len(),
        0 <= fenv < st.envs.len(),
    ensures
        ({
            let f = SpecObject::Function(params, body, fenv);
            let st2 = SpecState {
                envs: st.envs.push(crate::evaluator::spec_call_frame(params, args, fenv)),
                ..st
            };
            let (v, st3) = sp_eval_block(body, st2, st.envs.len() as int, (fuel - 1) as nat);
            v is ReturnValue ==> sp_apply(f, args, st, fuel) == (spec_returned(v), st3)
        }),
{
}

/// Error short-circuit, argument lists: when the first argument yields
/// an error value, the list stops there and nothing after it is
/// evaluated.
pub proof fn lemma_first_error_stops_args(es: Seq<SpecExpr>, st: SpecState, env: int, fuel: nat)
    requires
        fuel > 0,
        es.len() > 0,
        sp_eval_expr(es[0], st, env, (fuel - 1) as nat).0 is Error,
    ensures
        sp_eval_exprs(es, st, env, fuel) == (
            Err::<Seq<SpecObject>, SpecObject>(sp_eval_expr(es[0], st, env, (fuel - 1) as nat).0),
            sp_eval_expr(es[0], st, env, (fuel - 1) as nat).1,
        ),
{
}

/// Error short-circuit, calls: when an argument of a call yields an
/// error value, the call yields that error and the callee is never
/// applied.
pub proof fn lemma_error_stops_call(
    function: SpecExpr,
    arguments: Seq<SpecExpr>,
    st: SpecState,
    env: int,
    fuel: nat,
)
    requires
        fuel > 0,
        !(sp_eval_expr(function, st, env, (fuel - 1) as nat).0 is Error),
    ensures
        ({
            let (f, st2) = sp_eval_expr(function, st, env, (fuel - 1) as nat);
            let (argsr, st3) = sp_eval_exprs(arguments, st2, env, (fuel - 1) as nat);
            argsr matches Err(err) ==> sp_eval_expr(
                SpecExpr::CallExpr { function: Box::new(function), arguments },
                st,
                env,
                fuel,
            ) == (err, st3)
        }),
{
}

} // verus!
