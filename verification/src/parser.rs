//! The Pratt parser: a token stream to a program.
//!
//! The model is `sp_parse_program`: statements are read until the
//! end-of-input sentinel; an expression is a prefix production folded with
//! infix productions while the lookahead token binds more strongly than
//! the caller.  All binary operators are left-associative; a prefix
//! operator's operand binds everything above product strength, so calls
//! and index operations bind to the operand while binary operators do
//! not.  The model carries a fuel bound on recursion depth that is far
//! above what a stream of its length can nest, so it only rules out
//! endless descent; parsing is all-or-nothing and deterministic.

use crate::ast::{
    prec_rank, spec_prec_rank, view_exprs, view_pairs, view_params, view_program, Expr, Ident,
    Literal, Precedence, Prefix, Program, SpecExpr, SpecLiteral, SpecStmt, Stmt,
};
use crate::token::{SpecToken, Token, Tokens};
use vstd::prelude::*;

verus! {

broadcast use vstd::std_specs::vec::group_vec_axioms;

/// The token at `p`, with the end-of-input sentinel standing in for any
/// position outside the stream.
pub open spec fn spec_tok(ts: Seq<SpecToken>, p: int) -> SpecToken {
    if 0 <= p < ts.len() {
        ts[p]
    } else {
        SpecToken::EOF
    }
}

/// The binding power of a lookahead token; a token that starts no infix
/// production has the weakest power and stops the fold.
pub open spec fn spec_token_precedence(t: SpecToken) -> Precedence {
    match t {
        SpecToken::Equal => Precedence::PEquals,
        SpecToken::NotEqual => Precedence::PEquals,
        SpecToken::LessThan => Precedence::PLessGreater,
        SpecToken::GreaterThan => Precedence::PLessGreater,
        SpecToken::LessThanEqual => Precedence::PLessGreater,
        SpecToken::GreaterThanEqual => Precedence::PLessGreater,
        SpecToken::Plus => Precedence::PSum,
        SpecToken::Minus => Precedence::PSum,
        SpecToken::Multiply => Precedence::PProduct,
        SpecToken::Divide => Precedence::PProduct,
        SpecToken::LParen => Precedence::PCall,
        SpecToken::LBracket => Precedence::PIndex,
        _ => Precedence::PLowest,
    }
}

/// The infix operator a token denotes, if any.
pub open spec fn spec_infix_of(t: SpecToken) -> Option<crate::ast::Infix> {
    match t {
        SpecToken::Equal => Some(crate::ast::Infix::Equal),
        SpecToken::NotEqual => Some(crate::ast::Infix::NotEqual),
        SpecToken::LessThan => Some(crate::ast::Infix::LessThan),
        SpecToken::GreaterThan => Some(crate::ast::Infix::GreaterThan),
        SpecToken::LessThanEqual => Some(crate::ast::Infix::LessThanEqual),
        SpecToken::GreaterThanEqual => Some(crate::ast::Infix::GreaterThanEqual),
        SpecToken::Plus => Some(crate::ast::Infix::Plus),
        SpecToken::Minus => Some(crate::ast::Infix::Minus),
        SpecToken::Multiply => Some(crate::ast::Infix::Multiply),
        SpecToken::Divide => Some(crate::ast::Infix::Divide),
        _ => None,
    }
}

/// A literal production: one integer, string or boolean token.
pub open spec fn sp_parse_literal(ts: Seq<SpecToken>, p: int) -> Option<(SpecLiteral, int)> {
    match spec_tok(ts, p) {
        SpecToken::IntLiteral(i) => Some((SpecLiteral::IntLiteral(i), p + 1)),
        SpecToken::StringLiteral(s) => Some((SpecLiteral::StringLiteral(s), p + 1)),
        SpecToken::BoolLiteral(b) => Some((SpecLiteral::BoolLiteral(b), p + 1)),
        _ => None,
    }
}

/// An identifier production: one identifier token.
pub open spec fn sp_parse_ident(ts: Seq<SpecToken>, p: int) -> Option<(Seq<char>, int)> {
    match spec_tok(ts, p) {
        SpecToken::Ident(name) => Some((name, p + 1)),
        _ => None,
    }
}

/// The position after an optional statement-ending semicolon.
pub open spec fn sp_skip_semi(ts: Seq<SpecToken>, p: int) -> int {
    if spec_tok(ts, p) is SemiColon {
        p + 1
    } else {
        p
    }
}

/// One statement: a let binding, a return, or a bare expression, each
/// with an optional trailing semicolon.
pub open spec fn sp_parse_stmt(ts: Seq<SpecToken>, pos: int, fuel: nat) -> Option<(SpecStmt, int)>
    decreases fuel,
{
    if fuel == 0 {
        None
    } else if spec_tok(ts, pos) is Let {
        match sp_parse_ident(ts, pos + 1) {
            Some((name, p1)) => if spec_tok(ts, p1) is Assign {
                match sp_parse_expr(ts, p1 + 1, Precedence::PLowest, (fuel - 1) as nat) {
                    Some((e, p2)) => Some((SpecStmt::LetStmt(name, e), sp_skip_semi(ts, p2))),
                    None => None,
                }
            } else {
                None
            },
            None => None,
        }
    } else if spec_tok(ts, pos) is Return {
        match sp_parse_expr(ts, pos + 1, Precedence::PLowest, (fuel - 1) as nat) {
            Some((e, p2)) => Some((SpecStmt::ReturnStmt(e), sp_skip_semi(ts, p2))),
            None => None,
        }
    } else {
        match sp_parse_expr(ts, pos, Precedence::PLowest, (fuel - 1) as nat) {
            Some((e, p2)) => Some((SpecStmt::ExprStmt(e), sp_skip_semi(ts, p2))),
            None => None,
        }
    }
}

/// An expression at the given binding power: a prefix production folded
/// with infix productions.
pub open spec fn sp_parse_expr(ts: Seq<SpecToken>, pos: int, prec: Precedence, fuel: nat) -> Option<
    (SpecExpr, int),
>
    decreases fuel,
{
    if fuel == 0 {
        None
    } else {
        match sp_parse_prefix(ts, pos, (fuel - 1) as nat) {
            Some((left, p)) => sp_parse_infix_loop(ts, p, left, prec, (fuel - 1) as nat),
            None => None,
        }
    }
}

/// Folds infix productions onto `left` while the lookahead binds more
/// strongly than the caller.
pub open spec fn sp_parse_infix_loop(
    ts: Seq<SpecToken>,
    pos: int,
    left: SpecExpr,
    prec: Precedence,
    fuel: nat,
) -> Option<(SpecExpr, int)>
    decreases fuel,
{
    if fuel == 0 {
        None
    } else {
        let t = spec_tok(ts, pos);
        if spec_prec_rank(spec_token_precedence(t)) > spec_prec_rank(prec) {
            if t is LParen {
                match sp_parse_expr_list(ts, pos + 1, true, (fuel - 1) as nat) {
                    Some((args, p2)) => sp_parse_infix_loop(
                        ts,
                        p2,
                        SpecExpr::CallExpr { function: Box::new(left), arguments: args },
                        prec,
                        (fuel - 1) as nat,
                    ),
                    None => None,
                }
            } else if t is LBracket {
                match sp_parse_expr(ts, pos + 1, Precedence::PLowest, (fuel - 1) as nat) {
                    Some((ix, p2)) => if spec_tok(ts, p2) is RBracket {
                        sp_parse_infix_loop(
                            ts,
                            p2 + 1,
                            SpecExpr::IndexExpr { array: Box::new(left), index: Box::new(ix) },
                            prec,
                            (fuel - 1) as nat,
                        )
                    } else {
                        None
                    },
                    None => None,
                }
            } else {
                match spec_infix_of(t) {
                    Some(op) => match sp_parse_expr(
                        ts,
                        pos + 1,
                        spec_token_precedence(t),
                        (fuel - 1) as nat,
                    ) {
                        Some((right, p2)) => sp_parse_infix_loop(
                            ts,
                            p2,
                            SpecExpr::InfixExpr(op, Box::new(left), Box::new(right)),
                            prec,
                            (fuel - 1) as nat,
                        ),
                        None => None,
                    },
                    None => None,
                }
            }
        } else {
            Some((left, pos))
        }
    }
}

/// A prefix production: an atom, a prefix operator applied to an operand
/// that binds everything above product strength, a parenthesised
/// expression, an `if`, a function literal, an array or a hash.
pub open spec fn sp_parse_prefix(ts: Seq<SpecToken>, pos: int, fuel: nat) -> Option<
    (SpecExpr, int),
>
    decreases fuel,
{
    if fuel == 0 {
        None
    } else {
        match spec_tok(ts, pos) {
            SpecToken::Ident(name) => Some((SpecExpr::IdentExpr(name), pos + 1)),
            SpecToken::IntLiteral(i) => Some(
                (SpecExpr::LiteralExpr(SpecLiteral::IntLiteral(i)), pos + 1),
            ),
            SpecToken::StringLiteral(s) => Some(
                (SpecExpr::LiteralExpr(SpecLiteral::StringLiteral(s)), pos + 1),
            ),
            SpecToken::BoolLiteral(b) => Some(
                (SpecExpr::LiteralExpr(SpecLiteral::BoolLiteral(b)), pos + 1),
            ),
            SpecToken::Not => sp_parse_prefix_operand(ts, pos, Prefix::Not, (fuel - 1) as nat),
            SpecToken::Minus => sp_parse_prefix_operand(
                ts,
                pos,
                Prefix::PrefixMinus,
                (fuel - 1) as nat,
            ),
            SpecToken::Plus => sp_parse_prefix_operand(
                ts,
                pos,
                Prefix::PrefixPlus,
                (fuel - 1) as nat,
            ),
            SpecToken::LParen => match sp_parse_expr(
                ts,
                pos + 1,
                Precedence::PLowest,
                (fuel - 1) as nat,
            ) {
                Some((e, p)) => if spec_tok(ts, p) is RParen {
                    Some((e, p + 1))
                } else {
                    None
                },
                None => None,
            },
            SpecToken::If => sp_parse_if(ts, pos, (fuel - 1) as nat),
            SpecToken::Function => sp_parse_fn(ts, pos, (fuel - 1) as nat),
            SpecToken::LBracket => match sp_parse_expr_list(ts, pos + 1, false, (fuel - 1) as nat) {
                Some((items, p)) => Some((SpecExpr::ArrayExpr(items), p)),
                None => None,
            },
            SpecToken::LBrace => match sp_parse_hash_entries(ts, pos + 1, (fuel - 1) as nat) {
                Some((entries, p)) => Some((SpecExpr::HashExpr(entries), p)),
                None => None,
            },
            _ => None,
        }
    }
}

/// A prefix operator's operand.
pub open spec fn sp_parse_prefix_operand(
    ts: Seq<SpecToken>,
    pos: int,
    op: Prefix,
    fuel: nat,
) -> Option<(SpecExpr, int)>
    decreases fuel,
{
    if fuel == 0 {
        None
    } else {
        match sp_parse_expr(ts, pos + 1, Precedence::PProduct, (fuel - 1) as nat) {
            Some((e, p)) => Some((SpecExpr::PrefixExpr(op, Box::new(e)), p)),
            None => None,
        }
    }
}

/// An `if` production: a parenthesised condition, a braced consequence,
/// and an optional braced `else` block.
pub open spec fn sp_parse_if(ts: Seq<SpecToken>, pos: int, fuel: nat) -> Option<(SpecExpr, int)>
    decreases fuel,
{
    if fuel == 0 {
        None
    } else if spec_tok(ts, pos + 1) is LParen {
        match sp_parse_expr(ts, pos + 2, Precedence::PLowest, (fuel - 1) as nat) {
            Some((cond, p)) => if spec_tok(ts, p) is RParen && spec_tok(ts, p + 1) is LBrace {
                match sp_parse_block(ts, p + 2, (fuel - 1) as nat) {
                    Some((consequence, p2)) => if spec_tok(ts, p2) is Else {
                        if spec_tok(ts, p2 + 1) is LBrace {
                            match sp_parse_block(ts, p2 + 2, (fuel - 1) as nat) {
                                Some((alt, p3)) => Some(
                                    (
                                        SpecExpr::IfExpr {
                                            cond: Box::new(cond),
                                            consequence,
                                            alternative: Some(alt),
                                        },
                                        p3,
                                    ),
                                ),
                                None => None,
                            }
                        } else {
                            None
                        }
                    } else {
                        Some(
                            (
                                SpecExpr::IfExpr {
                                    cond: Box::new(cond),
                                    consequence,
                                    alternative: None,
                                },
                                p2,
                            ),
                        )
                    },
                    None => None,
                }
            } else {
                None
            },
            None => None,
        }
    } else {
        None
    }
}

/// A function literal: a parenthesised parameter list and a braced body.
pub open spec fn sp_parse_fn(ts: Seq<SpecToken>, pos: int, fuel: nat) -> Option<(SpecExpr, int)>
    decreases fuel,
{
    if fuel == 0 {
        None
    } else if spec_tok(ts, pos + 1) is LParen {
        match sp_parse_params(ts, pos + 2, (fuel - 1) as nat) {
            Some((params, p)) => if spec_tok(ts, p) is LBrace {
                match sp_parse_block(ts, p + 1, (fuel - 1) as nat) {
                    Some((body, p2)) => Some((SpecExpr::FnExpr { params, body }, p2)),
                    None => None,
                }
            } else {
                None
            },
            None => None,
        }
    } else {
        None
    }
}

/// A comma-separated parameter list, closed by a right parenthesis.
pub open spec fn sp_parse_params(ts: Seq<SpecToken>, pos: int, fuel: nat) -> Option<
    (Seq<Seq<char>>, int),
>
    decreases fuel,
{
    if fuel == 0 {
        None
    } else if spec_tok(ts, pos) is RParen {
        Some((Seq::empty(), pos + 1))
    } else {
        match sp_parse_ident(ts, pos) {
            Some((name, p)) => match sp_parse_params_rest(ts, p, (fuel - 1) as nat) {
                Some((rest, p2)) => Some((seq![name] + rest, p2)),
                None => None,
            },
            None => None,
        }
    }
}

/// The remainder of a parameter list after one parameter.
pub open spec fn sp_parse_params_rest(ts: Seq<SpecToken>, pos: int, fuel: nat) -> Option<
    (Seq<Seq<char>>, int),
>
    decreases fuel,
{
    if fuel == 0 {
        None
    } else if spec_tok(ts, pos) is RParen {
        Some((Seq::empty(), pos + 1))
    } else if spec_tok(ts, pos) is Comma {
        match sp_parse_ident(ts, pos + 1) {
            Some((name, p)) => match sp_parse_params_rest(ts, p, (fuel - 1) as nat) {
                Some((rest, p2)) => Some((seq![name] + rest, p2)),
                None => None,
            },
            None => None,
        }
    } else {
        None
    }
}

/// A comma-separated expression list, closed by a right parenthesis for a
/// call or a right bracket for an array.
pub open spec fn sp_parse_expr_list(ts: Seq<SpecToken>, pos: int, paren: bool, fuel: nat) -> Option<
    (Seq<SpecExpr>, int),
>
    decreases fuel,
{
    if fuel == 0 {
        None
    } else if sp_list_closes(ts, pos, paren) {
        Some((Seq::empty(), pos + 1))
    } else {
        match sp_parse_expr(ts, pos, Precedence::PLowest, (fuel - 1) as nat) {
            Some((e, p)) => match sp_parse_expr_list_rest(ts, p, paren, (fuel - 1) as nat) {
                Some((rest, p2)) => Some((seq![e] + rest, p2)),
                None => None,
            },
            None => None,
        }
    }
}

/// Whether the list's closing token stands at `pos`.
pub open spec fn sp_list_closes(ts: Seq<SpecToken>, pos: int, paren: bool) -> bool {
    if paren {
        spec_tok(ts, pos) is RParen
    } else {
        spec_tok(ts, pos) is RBracket
    }
}

/// The remainder of an expression list after one element.
pub open spec fn sp_parse_expr_list_rest(
    ts: Seq<SpecToken>,
    pos: int,
    paren: bool,
    fuel: nat,
) -> Option<(Seq<SpecExpr>, int)>
    decreases fuel,
{
    if fuel == 0 {
        None
    } else if sp_list_closes(ts, pos, paren) {
        Some((Seq::empty(), pos + 1))
    } else if spec_tok(ts, pos) is Comma {
        match sp_parse_expr(ts, pos + 1, Precedence::PLowest, (fuel - 1) as nat) {
            Some((e, p)) => match sp_parse_expr_list_rest(ts, p, paren, (fuel - 1) as nat) {
                Some((rest, p2)) => Some((seq![e] + rest, p2)),
                None => None,
            },
            None => None,
        }
    } else {
        None
    }
}

/// One hash entry: a literal key, a colon, and a value expression.
pub open spec fn sp_parse_hash_entry(ts: Seq<SpecToken>, pos: int, fuel: nat) -> Option<
    ((SpecLiteral, SpecExpr), int),
>
    decreases fuel,
{
    if fuel == 0 {
        None
    } else {
        match sp_parse_literal(ts, pos) {
            Some((k, p)) => if spec_tok(ts, p) is Colon {
                match sp_parse_expr(ts, p + 1, Precedence::PLowest, (fuel - 1) as nat) {
                    Some((v, p2)) => Some(((k, v), p2)),
                    None => None,
                }
            } else {
                None
            },
            None => None,
        }
    }
}

/// A comma-separated hash entry list, closed by a right brace.
pub open spec fn sp_parse_hash_entries(ts: Seq<SpecToken>, pos: int, fuel: nat) -> Option<
    (Seq<(SpecLiteral, SpecExpr)>, int),
>
    decreases fuel,
{
    if fuel == 0 {
        None
    } else if spec_tok(ts, pos) is RBrace {
        Some((Seq::empty(), pos + 1))
    } else {
        match sp_parse_hash_entry(ts, pos, (fuel - 1) as nat) {
            Some((kv, p)) => match sp_parse_hash_rest(ts, p, (fuel - 1) as nat) {
                Some((rest, p2)) => Some((seq![kv] + rest, p2)),
                None => None,
            },
            None => None,
        }
    }
}

/// The remainder of a hash entry list after one entry.
pub open spec fn sp_parse_hash_rest(ts: Seq<SpecToken>, pos: int, fuel: nat) -> Option<
    (Seq<(SpecLiteral, SpecExpr)>, int),
>
    decreases fuel,
{
    if fuel == 0 {
        None
    } else if spec_tok(ts, pos) is RBrace {
        Some((Seq::empty(), pos + 1))
    } else if spec_tok(ts, pos) is Comma {
        match sp_parse_hash_entry(ts, pos + 1, (fuel - 1) as nat) {
            Some((kv, p)) => match sp_parse_hash_rest(ts, p, (fuel - 1) as nat) {
                Some((rest, p2)) => Some((seq![kv] + rest, p2)),
                None => None,
            },
            None => None,
        }
    } else {
        None
    }
}

/// A braced block's statements, closed by a right brace.
pub open spec fn sp_parse_block(ts: Seq<SpecToken>, pos: int, fuel: nat) -> Option<
    (Seq<SpecStmt>, int),
>
    decreases fuel,
{
    if fuel == 0 {
        None
    } else if spec_tok(ts, pos) is RBrace {
        Some((Seq::empty(), pos + 1))
    } else {
        match sp_parse_stmt(ts, pos, (fuel - 1) as nat) {
            Some((st, p)) => match sp_parse_block(ts, p, (fuel - 1) as nat) {
                Some((rest, p2)) => Some((seq![st] + rest, p2)),
                None => None,
            },
            None => None,
        }
    }
}

/// The statements of a whole program, closed by the end-of-input
/// sentinel.
pub open spec fn sp_parse_program(ts: Seq<SpecToken>, pos: int, fuel: nat) -> Option<
    (Seq<SpecStmt>, int),
>
    decreases fuel,
{
    if fuel == 0 {
        None
    } else if spec_tok(ts, pos) is EOF {
        Some((Seq::empty(), pos))
    } else {
        match sp_parse_stmt(ts, pos, (fuel - 1) as nat) {
            Some((st, p)) => match sp_parse_program(ts, p, (fuel - 1) as nat) {
                Some((rest, p2)) => Some((seq![st] + rest, p2)),
                None => None,
            },
            None => None,
        }
    }
}

/// The fuel that parsing a stream of this length is given: far above the
/// call depth any such stream can force.
pub open spec fn sp_fuel(len: nat) -> nat {
    8 * len + 16
}

/// The model of parsing a whole token stream.
pub open spec fn sp_parse(ts: Seq<SpecToken>) -> Option<Seq<SpecStmt>> {
    match sp_parse_program(ts, 0, sp_fuel(ts.len())) {
        Some((prog, _)) => Some(prog),
        None => None,
    }
}

/// The binding power of a token.
fn token_precedence(t: &Token) -> (r: Precedence)
    ensures
        r == spec_token_precedence(t@),
{
    match t {
        Token::Equal => Precedence::PEquals,
        Token::NotEqual => Precedence::PEquals,
        Token::LessThan => Precedence::PLessGreater,
        Token::GreaterThan => Precedence::PLessGreater,
        Token::LessThanEqual => Precedence::PLessGreater,
        Token::GreaterThanEqual => Precedence::PLessGreater,
        Token::Plus => Precedence::PSum,
        Token::Minus => Precedence::PSum,
        Token::Multiply => Precedence::PProduct,
        Token::Divide => Precedence::PProduct,
        Token::LParen => Precedence::PCall,
        Token::LBracket => Precedence::PIndex,
        _ => Precedence::PLowest,
    }
}

/// The infix operator a token denotes, if any.
fn token_infix(t: &Token) -> (r: Option<crate::ast::Infix>)
    ensures
        r == spec_infix_of(t@),
{
    match t {
        Token::Equal => Some(crate::ast::Infix::Equal),
        Token::NotEqual => Some(crate::ast::Infix::NotEqual),
        Token::LessThan => Some(crate::ast::Infix::LessThan),
        Token::GreaterThan => Some(crate::ast::Infix::GreaterThan),
        Token::LessThanEqual => Some(crate::ast::Infix::LessThanEqual),
        Token::GreaterThanEqual => Some(crate::ast::Infix::GreaterThanEqual),
        Token::Plus => Some(crate::ast::Infix::Plus),
        Token::Minus => Some(crate::ast::Infix::Minus),
        Token::Multiply => Some(crate::ast::Infix::Multiply),
        Token::Divide => Some(crate::ast::Infix::Divide),
        _ => None,
    }
}

/// Reads one literal.
pub fn parse_literal(toks: &Tokens, pos: usize) -> (r: Option<(Literal, usize)>)
    ensures
        match r {
            Some(p) => sp_parse_literal(toks@, pos as int) == Some((p.0@, p.1 as int)),
            None => sp_parse_literal(toks@, pos as int) is None,
        },
{
    if pos < toks.tok.len() {
        match &toks.tok[pos] {
            Token::IntLiteral(i) => Some((Literal::IntLiteral(*i), pos + 1)),
            Token::StringLiteral(s) => Some((Literal::StringLiteral(s.clone()), pos + 1)),
            Token::BoolLiteral(b) => Some((Literal::BoolLiteral(*b), pos + 1)),
            _ => None,
        }
    } else {
        None
    }
}

/// Reads one identifier.
pub fn parse_ident(toks: &Tokens, pos: usize) -> (r: Option<(Ident, usize)>)
    ensures
        match r {
            Some(p) => sp_parse_ident(toks@, pos as int) == Some((p.0@, p.1 as int)),
            None => sp_parse_ident(toks@, pos as int) is None,
        },
{
    if pos < toks.tok.len() {
        match &toks.tok[pos] {
            Token::Ident(name) => Some((Ident(name.clone()), pos + 1)),
            _ => None,
        }
    } else {
        None
    }
}

/// Steps over an optional statement-ending semicolon.
fn skip_semi(toks: &Tokens, p: usize) -> (r: usize)
    ensures
        r as int == sp_skip_semi(toks@, p as int),
{
    if p < toks.tok.len() && matches!(&toks.tok[p], Token::SemiColon) {
        p + 1
    } else {
        p
    }
}

/// Reads one statement.
fn parse_stmt(toks: &Tokens, pos: usize, fuel: u128) -> (r: Option<(Stmt, usize)>)
    ensures
        match r {
            Some(p) => sp_parse_stmt(toks@, pos as int, fuel as nat) == Some((p.0@, p.1 as int)),
            None => sp_parse_stmt(toks@, pos as int, fuel as nat) is None,
        },
    decreases fuel,
{
    if fuel == 0 {
        return None;
    }
    let n = toks.tok.len();
    if pos < n && matches!(&toks.tok[pos], Token::Let) {
        match parse_ident(toks, pos + 1) {
            Some((name, p1)) => {
                if p1 < n && matches!(&toks.tok[p1], Token::Assign) {
                    match parse_expr(toks, p1 + 1, Precedence::PLowest, fuel - 1) {
                        Some((e, p2)) => Some((Stmt::LetStmt(name, e), skip_semi(toks, p2))),
                        None => None,
                    }
                } else {
                    None
                }
            },
            None => None,
        }
    } else if pos < n && matches!(&toks.tok[pos], Token::Return) {
        match parse_expr(toks, pos + 1, Precedence::PLowest, fuel - 1) {
            Some((e, p2)) => Some((Stmt::ReturnStmt(e), skip_semi(toks, p2))),
            None => None,
        }
    } else {
        match parse_expr(toks, pos, Precedence::PLowest, fuel - 1) {
            Some((e, p2)) => Some((Stmt::ExprStmt(e), skip_semi(toks, p2))),
            None => None,
        }
    }
}

/// Reads one expression at the given binding power.
fn parse_expr(toks: &Tokens, pos: usize, prec: Precedence, fuel: u128) -> (r: Option<(Expr, usize)>)
    ensures
        match r {
            Some(p) => sp_parse_expr(toks@, pos as int, prec, fuel as nat) == Some(
                (p.0@, p.1 as int),
            ),
            None => sp_parse_expr(toks@, pos as int, prec, fuel as nat) is None,
        },
    decreases fuel,
{
    if fuel == 0 {
        return None;
    }
    match parse_prefix(toks, pos, fuel - 1) {
        Some((left, p)) => parse_infix_loop(toks, p, left, prec, fuel - 1),
        None => None,
    }
}

/// Folds infix productions onto `left`.
fn parse_infix_loop(toks: &Tokens, pos: usize, left: Expr, prec: Precedence, fuel: u128) -> (r:
    Option<(Expr, usize)>)
    ensures
        match r {
            Some(p) => sp_parse_infix_loop(toks@, pos as int, left@, prec, fuel as nat) == Some(
                (p.0@, p.1 as int),
            ),
            None => sp_parse_infix_loop(toks@, pos as int, left@, prec, fuel as nat) is None,
        },
    decreases fuel,
{
    if fuel == 0 {
        return None;
    }
    let n = toks.tok.len();
    let tp = if pos < n {
        token_precedence(&toks.tok[pos])
    } else {
        Precedence::PLowest
    };
    if prec_rank(tp) > prec_rank(prec) {
        if matches!(&toks.tok[pos], Token::LParen) {
            match parse_expr_list(toks, pos + 1, true, fuel - 1) {
                Some((args, p2)) => {
                    let folded = Expr::CallExpr { function: Box::new(left), arguments: args };
                    parse_infix_loop(toks, p2, folded, prec, fuel - 1)
                },
                None => None,
            }
        } else if matches!(&toks.tok[pos], Token::LBracket) {
            match parse_expr(toks, pos + 1, Precedence::PLowest, fuel - 1) {
                Some((ix, p2)) => {
                    if p2 < n && matches!(&toks.tok[p2], Token::RBracket) {
                        let folded = Expr::IndexExpr {
                            array: Box::new(left),
                            index: Box::new(ix),
                        };
                        parse_infix_loop(toks, p2 + 1, folded, prec, fuel - 1)
                    } else {
                        None
                    }
                },
                None => None,
            }
        } else {
            match token_infix(&toks.tok[pos]) {
                Some(op) => {
                    match parse_expr(toks, pos + 1, tp, fuel - 1) {
                        Some((right, p2)) => {
                            let folded = Expr::InfixExpr(op, Box::new(left), Box::new(right));
                            parse_infix_loop(toks, p2, folded, prec, fuel - 1)
                        },
                        None => None,
                    }
                },
                None => None,
            }
        }
    } else {
        Some((left, pos))
    }
}

/// Reads one prefix production.
fn parse_prefix(toks: &Tokens, pos: usize, fuel: u128) -> (r: Option<(Expr, usize)>)
    ensures
        match r {
            Some(p) => sp_parse_prefix(toks@, pos as int, fuel as nat) == Some((p.0@, p.1 as int)),
            None => sp_parse_prefix(toks@, pos as int, fuel as nat) is None,
        },
    decreases fuel,
{
    if fuel == 0 {
        return None;
    }
    let n = toks.tok.len();
    if pos >= n {
        return None;
    }
    match &toks.tok[pos] {
        Token::Ident(name) => Some((Expr::IdentExpr(Ident(name.clone())), pos + 1)),
        Token::IntLiteral(i) => Some((Expr::LiteralExpr(Literal::IntLiteral(*i)), pos + 1)),
        Token::StringLiteral(s) => Some(
            (Expr::LiteralExpr(Literal::StringLiteral(s.clone())), pos + 1),
        ),
        Token::BoolLiteral(b) => Some((Expr::LiteralExpr(Literal::BoolLiteral(*b)), pos + 1)),
        Token::Not => parse_prefix_operand(toks, pos, Prefix::Not, fuel - 1),
        Token::Minus => parse_prefix_operand(toks, pos, Prefix::PrefixMinus, fuel - 1),
        Token::Plus => parse_prefix_operand(toks, pos, Prefix::PrefixPlus, fuel - 1),
        Token::LParen => {
            match parse_expr(toks, pos + 1, Precedence::PLowest, fuel - 1) {
                Some((e, p)) => {
                    if p < n && matches!(&toks.tok[p], Token::RParen) {
                        Some((e, p + 1))
                    } else {
                        None
                    }
                },
                None => None,
            }
        },
        Token::If => parse_if(toks, pos, fuel - 1),
        Token::Function => parse_fn(toks, pos, fuel - 1),
        Token::LBracket => {
            match parse_expr_list(toks, pos + 1, false, fuel - 1) {
                Some((items, p)) => Some((Expr::ArrayExpr(items), p)),
                None => None,
            }
        },
        Token::LBrace => {
            match parse_hash_entries(toks, pos + 1, fuel - 1) {
                Some((entries, p)) => Some((Expr::HashExpr(entries), p)),
                None => None,
            }
        },
        _ => None,
    }
}

/// Reads a prefix operator's operand.
fn parse_prefix_operand(toks: &Tokens, pos: usize, op: Prefix, fuel: u128) -> (r: Option<
    (Expr, usize),
>)
    requires
        pos < toks.tok@.len(),
    ensures
        match r {
            Some(p) => sp_parse_prefix_operand(toks@, pos as int, op, fuel as nat) == Some(
                (p.0@, p.1 as int),
            ),
            None => sp_parse_prefix_operand(toks@, pos as int, op, fuel as nat) is None,
        },
    decreases fuel,
{
    if fuel == 0 {
        return None;
    }
    let n = toks.tok.len();
    match parse_expr(toks, pos + 1, Precedence::PProduct, fuel - 1) {
        Some((e, p)) => Some((Expr::PrefixExpr(op, Box::new(e)), p)),
        None => None,
    }
}

/// Reads an `if` production.
fn parse_if(toks: &Tokens, pos: usize, fuel: u128) -> (r: Option<(Expr, usize)>)
    requires
        pos < toks.tok@.len(),
    ensures
        match r {
            Some(p) => sp_parse_if(toks@, pos as int, fuel as nat) == Some((p.0@, p.1 as int)),
            None => sp_parse_if(toks@, pos as int, fuel as nat) is None,
        },
    decreases fuel,
{
    if fuel == 0 {
        return None;
    }
    let n = toks.tok.len();
    if pos + 1 < n && matches!(&toks.tok[pos + 1], Token::LParen) {
        match parse_expr(toks, pos + 2, Precedence::PLowest, fuel - 1) {
            Some((cond, p)) => {
                if p < n && matches!(&toks.tok[p], Token::RParen) && p + 1 < n && matches!(
                    &toks.tok[p + 1],
                    Token::LBrace,
                ) {
                    match parse_block(toks, p + 2, fuel - 1) {
                        Some((consequence, p2)) => {
                            if p2 < n && matches!(&toks.tok[p2], Token::Else) {
                                if p2 + 1 < n && matches!(&toks.tok[p2 + 1], Token::LBrace) {
                                    match parse_block(toks, p2 + 2, fuel - 1) {
                                        Some((alt, p3)) => Some(
                                            (
                                                Expr::IfExpr {
                                                    cond: Box::new(cond),
                                                    consequence,
                                                    alternative: Some(alt),
                                                },
                                                p3,
                                            ),
                                        ),
                                        None => None,
                                    }
                                } else {
                                    None
                                }
                            } else {
                                Some(
                                    (
                                        Expr::IfExpr {
                                            cond: Box::new(cond),
                                            consequence,
                                            alternative: None,
                                        },
                                        p2,
                                    ),
                                )
                            }
                        },
                        None => None,
                    }
                } else {
                    None
                }
            },
            None => None,
        }
    } else {
        None
    }
}

/// Reads a function literal.
fn parse_fn(toks: &Tokens, pos: usize, fuel: u128) -> (r: Option<(Expr, usize)>)
    requires
        pos < toks.tok@.len(),
    ensures
        match r {
            Some(p) => sp_parse_fn(toks@, pos as int, fuel as nat) == Some((p.0@, p.1 as int)),
            None => sp_parse_fn(toks@, pos as int, fuel as nat) is None,
        },
    decreases fuel,
{
    if fuel == 0 {
        return None;
    }
    let n = toks.tok.len();
    if pos + 1 < n && matches!(&toks.tok[pos + 1], Token::LParen) {
        match parse_params(toks, pos + 2, fuel - 1) {
            Some((params, p)) => {
                if p < n && matches!(&toks.tok[p], Token::LBrace) {
                    match parse_block(toks, p + 1, fuel - 1) {
                        Some((body, p2)) => Some((Expr::FnExpr { params, body }, p2)),
                        None => None,
                    }
                } else {
                    None
                }
            },
            None => None,
        }
    } else {
        None
    }
}

/// Reads a parameter list.
fn parse_params(toks: &Tokens, pos: usize, fuel: u128) -> (r: Option<(Vec<Ident>, usize)>)
    ensures
        match r {
            Some(p) => sp_parse_params(toks@, pos as int, fuel as nat) == Some(
                (view_params(p.0), p.1 as int),
            ),
            None => sp_parse_params(toks@, pos as int, fuel as nat) is None,
        },
    decreases fuel,
{
    if fuel == 0 {
        return None;
    }
    let n = toks.tok.len();
    if pos < n && matches!(&toks.tok[pos], Token::RParen) {
        let empty: Vec<Ident> = Vec::new();
        proof {
            assert(view_params(empty) =~= Seq::<Seq<char>>::empty());
        }
        Some((empty, pos + 1))
    } else {
        match parse_ident(toks, pos) {
            Some((name, p)) => {
                match parse_params_rest(toks, p, fuel - 1) {
                    Some((mut rest, p2)) => {
                        let ghost rest0 = view_params(rest);
                        rest.insert(0, name);
                        proof {
                            assert(view_params(rest) =~= seq![name@] + rest0);
                        }
                        Some((rest, p2))
                    },
                    None => None,
                }
            },
            None => None,
        }
    }
}

/// Reads the remainder of a parameter list.
fn parse_params_rest(toks: &Tokens, pos: usize, fuel: u128) -> (r: Option<(Vec<Ident>, usize)>)
    ensures
        match r {
            Some(p) => sp_parse_params_rest(toks@, pos as int, fuel as nat) == Some(
                (view_params(p.0), p.1 as int),
            ),
            None => sp_parse_params_rest(toks@, pos as int, fuel as nat) is None,
        },
    decreases fuel,
{
    if fuel == 0 {
        return None;
    }
    let n = toks.tok.len();
    if pos < n && matches!(&toks.tok[pos], Token::RParen) {
        let empty: Vec<Ident> = Vec::new();
        proof {
            assert(view_params(empty) =~= Seq::<Seq<char>>::empty());
        }
        Some((empty, pos + 1))
    } else if pos < n && matches!(&toks.tok[pos], Token::Comma) {
        match parse_ident(toks, pos + 1) {
            Some((name, p)) => {
                match parse_params_rest(toks, p, fuel - 1) {
                    Some((mut rest, p2)) => {
                        let ghost rest0 = view_params(rest);
                        rest.insert(0, name);
                        proof {
                            assert(view_params(rest) =~= seq![name@] + rest0);
                        }
                        Some((rest, p2))
                    },
                    None => None,
                }
            },
            None => None,
        }
    } else {
        None
    }
}

/// Whether the list's closing token stands at `pos`.
fn list_closes(toks: &Tokens, pos: usize, paren: bool) -> (r: bool)
    ensures
        r == sp_list_closes(toks@, pos as int, paren),
{
    if pos < toks.tok.len() {
        if paren {
            matches!(&toks.tok[pos], Token::RParen)
        } else {
            matches!(&toks.tok[pos], Token::RBracket)
        }
    } else {
        false
    }
}

/// Reads a comma-separated expression list.
fn parse_expr_list(toks: &Tokens, pos: usize, paren: bool, fuel: u128) -> (r: Option<
    (Vec<Expr>, usize),
>)
    ensures
        match r {
            Some(p) => sp_parse_expr_list(toks@, pos as int, paren, fuel as nat) == Some(
                (view_exprs(p.0), p.1 as int),
            ),
            None => sp_parse_expr_list(toks@, pos as int, paren, fuel as nat) is None,
        },
    decreases fuel,
{
    if fuel == 0 {
        return None;
    }
    let n = toks.tok.len();
    if list_closes(toks, pos, paren) {
        let empty: Vec<Expr> = Vec::new();
        proof {
            assert(pos < n);
            assert(view_exprs(empty) =~= Seq::<SpecExpr>::empty());
        }
        Some((empty, pos + 1))
    } else {
        match parse_expr(toks, pos, Precedence::PLowest, fuel - 1) {
            Some((e, p)) => {
                match parse_expr_list_rest(toks, p, paren, fuel - 1) {
                    Some((mut rest, p2)) => {
                        let ghost rest0 = view_exprs(rest);
                        let ghost ev = e@;
                        rest.insert(0, e);
                        proof {
                            assert(view_exprs(rest) =~= seq![ev] + rest0);
                        }
                        Some((rest, p2))
                    },
                    None => None,
                }
            },
            None => None,
        }
    }
}

/// Reads the remainder of an expression list.
fn parse_expr_list_rest(toks: &Tokens, pos: usize, paren: bool, fuel: u128) -> (r: Option<
    (Vec<Expr>, usize),
>)
    ensures
        match r {
            Some(p) => sp_parse_expr_list_rest(toks@, pos as int, paren, fuel as nat) == Some(
                (view_exprs(p.0), p.1 as int),
            ),
            None => sp_parse_expr_list_rest(toks@, pos as int, paren, fuel as nat) is None,
        },
    decreases fuel,
{
    if fuel == 0 {
        return None;
    }
    let n = toks.tok.len();
    let n = toks.tok.len();
    if list_closes(toks, pos, paren) {
        let empty: Vec<Expr> = Vec::new();
        proof {
            assert(pos < n);
            assert(view_exprs(empty) =~= Seq::<SpecExpr>::empty());
        }
        Some((empty, pos + 1))
    } else if pos < n && matches!(&toks.tok[pos], Token::Comma) {
        match parse_expr(toks, pos + 1, Precedence::PLowest, fuel - 1) {
            Some((e, p)) => {
                match parse_expr_list_rest(toks, p, paren, fuel - 1) {
                    Some((mut rest, p2)) => {
                        let ghost rest0 = view_exprs(rest);
                        let ghost ev = e@;
                        rest.insert(0, e);
                        proof {
                            assert(view_exprs(rest) =~= seq![ev] + rest0);
                        }
                        Some((rest, p2))
                    },
                    None => None,
                }
            },
            None => None,
        }
    } else {
        None
    }
}

/// Reads one hash entry.
fn parse_hash_entry(toks: &Tokens, pos: usize, fuel: u128) -> (r: Option<((Literal, Expr), usize)>)
    ensures
        match r {
            Some(p) => sp_parse_hash_entry(toks@, pos as int, fuel as nat) == Some(
                ((p.0.0@, p.0.1@), p.1 as int),
            ),
            None => sp_parse_hash_entry(toks@, pos as int, fuel as nat) is None,
        },
    decreases fuel,
{
    if fuel == 0 {
        return None;
    }
    let n = toks.tok.len();
    match parse_literal(toks, pos) {
        Some((k, p)) => {
            if p < n && matches!(&toks.tok[p], Token::Colon) {
                match parse_expr(toks, p + 1, Precedence::PLowest, fuel - 1) {
                    Some((v, p2)) => Some(((k, v), p2)),
                    None => None,
                }
            } else {
                None
            }
        },
        None => None,
    }
}

/// Reads a hash entry list.
fn parse_hash_entries(toks: &Tokens, pos: usize, fuel: u128) -> (r: Option<
    (Vec<(Literal, Expr)>, usize),
>)
    ensures
        match r {
            Some(p) => sp_parse_hash_entries(toks@, pos as int, fuel as nat) == Some(
                (view_pairs(p.0), p.1 as int),
            ),
            None => sp_parse_hash_entries(toks@, pos as int, fuel as nat) is None,
        },
    decreases fuel,
{
    if fuel == 0 {
        return None;
    }
    let n = toks.tok.len();
    if pos < n && matches!(&toks.tok[pos], Token::RBrace) {
        let empty: Vec<(Literal, Expr)> = Vec::new();
        proof {
            assert(view_pairs(empty) =~= Seq::<(SpecLiteral, SpecExpr)>::empty());
        }
        Some((empty, pos + 1))
    } else {
        match parse_hash_entry(toks, pos, fuel - 1) {
            Some((kv, p)) => {
                match parse_hash_rest(toks, p, fuel - 1) {
                    Some((mut rest, p2)) => {
                        let ghost rest0 = view_pairs(rest);
                        let ghost kv0 = (kv.0@, kv.1@);
                        rest.insert(0, kv);
                        proof {
                            assert(view_pairs(rest) =~= seq![kv0] + rest0);
                        }
                        Some((rest, p2))
                    },
                    None => None,
                }
            },
            None => None,
        }
    }
}

/// Reads the remainder of a hash entry list.
fn parse_hash_rest(toks: &Tokens, pos: usize, fuel: u128) -> (r: Option<
    (Vec<(Literal, Expr)>, usize),
>)
    ensures
        match r {
            Some(p) => sp_parse_hash_rest(toks@, pos as int, fuel as nat) == Some(
                (view_pairs(p.0), p.1 as int),
            ),
            None => sp_parse_hash_rest(toks@, pos as int, fuel as nat) is None,
        },
    decreases fuel,
{
    if fuel == 0 {
        return None;
    }
    let n = toks.tok.len();
    if pos < n && matches!(&toks.tok[pos], Token::RBrace) {
        let empty: Vec<(Literal, Expr)> = Vec::new();
        proof {
            assert(view_pairs(empty) =~= Seq::<(SpecLiteral, SpecExpr)>::empty());
        }
        Some((empty, pos + 1))
    } else if pos < n && matches!(&toks.tok[pos], Token::Comma) {
        match parse_hash_entry(toks, pos + 1, fuel - 1) {
            Some((kv, p)) => {
                match parse_hash_rest(toks, p, fuel - 1) {
                    Some((mut rest, p2)) => {
                        let ghost rest0 = view_pairs(rest);
                        let ghost kv0 = (kv.0@, kv.1@);
                        rest.insert(0, kv);
                        proof {
                            assert(view_pairs(rest) =~= seq![kv0] + rest0);
                        }
                        Some((rest, p2))
                    },
                    None => None,
                }
            },
            None => None,
        }
    } else {
        None
    }
}

/// Reads a braced block's statements.
fn parse_block(toks: &Tokens, pos: usize, fuel: u128) -> (r: Option<(Vec<Stmt>, usize)>)
    ensures
        match r {
            Some(p) => sp_parse_block(toks@, pos as int, fuel as nat) == Some(
                (view_program(p.0), p.1 as int),
            ),
            None => sp_parse_block(toks@, pos as int, fuel as nat) is None,
        },
    decreases fuel,
{
    if fuel == 0 {
        return None;
    }
    let n = toks.tok.len();
    if pos < n && matches!(&toks.tok[pos], Token::RBrace) {
        let empty: Vec<Stmt> = Vec::new();
        proof {
            assert(view_program(empty) =~= Seq::<SpecStmt>::empty());
        }
        Some((empty, pos + 1))
    } else {
        match parse_stmt(toks, pos, fuel - 1) {
            Some((st, p)) => {
                match parse_block(toks, p, fuel - 1) {
                    Some((mut rest, p2)) => {
                        let ghost rest0 = view_program(rest);
                        let ghost sv = st@;
                        rest.insert(0, st);
                        proof {
                            assert(view_program(rest) =~= seq![sv] + rest0);
                        }
                        Some((rest, p2))
                    },
                    None => None,
                }
            },
            None => None,
        }
    }
}

/// Reads a whole program's statements.
fn parse_program(toks: &Tokens, pos: usize, fuel: u128) -> (r: Option<(Vec<Stmt>, usize)>)
    ensures
        match r {
            Some(p) => sp_parse_program(toks@, pos as int, fuel as nat) == Some(
                (view_program(p.0), p.1 as int),
            ),
            None => sp_parse_program(toks@, pos as int, fuel as nat) is None,
        },
    decreases fuel,
{
    if fuel == 0 {
        return None;
    }
    let n = toks.tok.len();
    if pos >= n || matches!(&toks.tok[pos], Token::EOF) {
        let empty: Vec<Stmt> = Vec::new();
        proof {
            assert(view_program(empty) =~= Seq::<SpecStmt>::empty());
        }
        Some((empty, pos))
    } else {
        match parse_stmt(toks, pos, fuel - 1) {
            Some((st, p)) => {
                match parse_program(toks, p, fuel - 1) {
                    Some((mut rest, p2)) => {
                        let ghost rest0 = view_program(rest);
                        let ghost sv = st@;
                        rest.insert(0, st);
                        proof {
                            assert(view_program(rest) =~= seq![sv] + rest0);
                        }
                        Some((rest, p2))
                    },
                    None => None,
                }
            },
            None => None,
        }
    }
}

/// The parser.
pub struct Parser;

impl Parser {
    /// Turns a token stream into a program: exactly what `sp_parse` says,
    /// or nothing exactly when the model rejects the stream.  Parsing the
    /// same stream twice therefore yields identical programs.
    pub fn parse_tokens(tokens: Tokens) -> (r: Option<Program>)
        ensures
            match r {
                Some(p) => sp_parse(tokens@) == Some(view_program(p)),
                None => sp_parse(tokens@) is None,
            },
    {
        let n = tokens.tok.len();
        let fuel: u128 = 8 * (n as u128) + 16;
        match parse_program(&tokens, 0, fuel) {
            Some((prog, _)) => Some(prog),
            None => None,
        }
    }
}

} // verus!
