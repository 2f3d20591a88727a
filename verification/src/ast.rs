//! Abstract syntax tree of the language, and its mathematical model.

use vstd::prelude::*;

verus! {

broadcast use vstd::std_specs::vec::group_vec_axioms;

/// A parsed program: an ordered sequence of statements.
pub type Program = Vec<Stmt>;

/// An identifier; equality is byte-exact on the name.
#[derive(Debug, PartialEq, Eq)]
pub struct Ident(pub String);

/// A statement.
#[derive(Debug, PartialEq)]
pub enum Stmt {
    LetStmt(Ident, Expr),
    ReturnStmt(Expr),
    ExprStmt(Expr),
}

/// An expression.
#[derive(Debug, PartialEq)]
pub enum Expr {
    IdentExpr(Ident),
    LiteralExpr(Literal),
    PrefixExpr(Prefix, Box<Expr>),
    InfixExpr(Infix, Box<Expr>, Box<Expr>),
    IfExpr { cond: Box<Expr>, consequence: Program, alternative: Option<Program> },
    FnExpr { params: Vec<Ident>, body: Program },
    CallExpr { function: Box<Expr>, arguments: Vec<Expr> },
    ArrayExpr(Vec<Expr>),
    HashExpr(Vec<(Literal, Expr)>),
    IndexExpr { array: Box<Expr>, index: Box<Expr> },
}

/// A literal; hash-literal keys are restricted to these at parse time.
#[derive(Debug, PartialEq)]
pub enum Literal {
    IntLiteral(i64),
    BoolLiteral(bool),
    StringLiteral(String),
}

/// A prefix operator.
#[derive(Debug, Clone, Copy, PartialEq, Eq, Structural)]
pub enum Prefix {
    PrefixPlus,
    PrefixMinus,
    Not,
}

/// An infix operator.
#[derive(Debug, Clone, Copy, PartialEq, Eq, Structural)]
pub enum Infix {
    Plus,
    Minus,
    Divide,
    Multiply,
    Equal,
    NotEqual,
    GreaterThanEqual,
    LessThanEqual,
    GreaterThan,
    LessThan,
}

/// Operator binding power of the Pratt parser, weakest first.
#[derive(Debug, Clone, Copy, PartialEq, PartialOrd)]
pub enum Precedence {
    PLowest,
    PEquals,
    PLessGreater,
    PSum,
    PProduct,
    PCall,
    PIndex,
}

/// Numeric rank of a binding power; the parser folds an infix operator
/// only while its rank is strictly above the caller's.
pub open spec fn spec_prec_rank(p: Precedence) -> int {
    match p {
        Precedence::PLowest => 0,
        Precedence::PEquals => 1,
        Precedence::PLessGreater => 2,
        Precedence::PSum => 3,
        Precedence::PProduct => 4,
        Precedence::PCall => 5,
        Precedence::PIndex => 6,
    }
}

/// Executable rank of a binding power.
pub fn prec_rank(p: Precedence) -> (r: u8)
    ensures
        r as int == spec_prec_rank(p),
{
    match p {
        Precedence::PLowest => 0,
        Precedence::PEquals => 1,
        Precedence::PLessGreater => 2,
        Precedence::PSum => 3,
        Precedence::PProduct => 4,
        Precedence::PCall => 5,
        Precedence::PIndex => 6,
    }
}

/// The model of a statement.
pub enum SpecStmt {
    LetStmt(Seq<char>, SpecExpr),
    ReturnStmt(SpecExpr),
    ExprStmt(SpecExpr),
}

/// The model of an expression: string payloads become character sequences,
/// vectors become sequences.
pub enum SpecExpr {
    IdentExpr(Seq<char>),
    LiteralExpr(SpecLiteral),
    PrefixExpr(Prefix, Box<SpecExpr>),
    InfixExpr(Infix, Box<SpecExpr>, Box<SpecExpr>),
    IfExpr { cond: Box<SpecExpr>, consequence: Seq<SpecStmt>, alternative: Option<Seq<SpecStmt>> },
    FnExpr { params: Seq<Seq<char>>, body: Seq<SpecStmt> },
    CallExpr { function: Box<SpecExpr>, arguments: Seq<SpecExpr> },
    ArrayExpr(Seq<SpecExpr>),
    HashExpr(Seq<(SpecLiteral, SpecExpr)>),
    IndexExpr { array: Box<SpecExpr>, index: Box<SpecExpr> },
}

/// The model of a literal.
pub enum SpecLiteral {
    IntLiteral(i64),
    BoolLiteral(bool),
    StringLiteral(Seq<char>),
}

impl View for Ident {
    type V = Seq<char>;

    open spec fn view(&self) -> Seq<char> {
        self.0@
    }
}

impl View for Literal {
    type V = SpecLiteral;

    open spec fn view(&self) -> SpecLiteral {
        match self {
            Literal::IntLiteral(i) => SpecLiteral::IntLiteral(*i),
            Literal::BoolLiteral(b) => SpecLiteral::BoolLiteral(*b),
            Literal::StringLiteral(s) => SpecLiteral::StringLiteral(s@),
        }
    }
}

/// The model of an expression.
pub open spec fn view_expr(e: Expr) -> SpecExpr
    decreases e,
{
    match e {
        Expr::IdentExpr(id) => SpecExpr::IdentExpr(id.0@),
        Expr::LiteralExpr(l) => SpecExpr::LiteralExpr(l@),
        Expr::PrefixExpr(op, inner) => SpecExpr::PrefixExpr(op, Box::new(view_expr(*inner))),
        Expr::InfixExpr(op, l, r) => SpecExpr::InfixExpr(
            op,
            Box::new(view_expr(*l)),
            Box::new(view_expr(*r)),
        ),
        Expr::IfExpr { cond, consequence, alternative } => SpecExpr::IfExpr {
            cond: Box::new(view_expr(*cond)),
            consequence: view_program(consequence),
            alternative: match alternative {
                Option::Some(p) => Option::Some(view_program(p)),
                Option::None => Option::None,
            },
        },
        Expr::FnExpr { params, body } => SpecExpr::FnExpr {
            params: view_params(params),
            body: view_program(body),
        },
        Expr::CallExpr { function, arguments } => SpecExpr::CallExpr {
            function: Box::new(view_expr(*function)),
            arguments: view_exprs(arguments),
        },
        Expr::ArrayExpr(v) => SpecExpr::ArrayExpr(view_exprs(v)),
        Expr::HashExpr(v) => SpecExpr::HashExpr(view_pairs(v)),
        Expr::IndexExpr { array, index } => SpecExpr::IndexExpr {
            array: Box::new(view_expr(*array)),
            index: Box::new(view_expr(*index)),
        },
    }
}

/// The model of an expression vector.
pub open spec fn view_exprs(v: Vec<Expr>) -> Seq<SpecExpr>
    decreases v,
{
    Seq::new(
        v.len() as nat,
        |i: int|
            if 0 <= i < v.len() {
                view_expr(v[i])
            } else {
                vstd::pervasive::arbitrary()
            },
    )
}

/// The model of a hash-literal entry vector.
pub open spec fn view_pairs(v: Vec<(Literal, Expr)>) -> Seq<(SpecLiteral, SpecExpr)>
    decreases v,
{
    Seq::new(
        v.len() as nat,
        |i: int|
            if 0 <= i < v.len() {
                (v[i].0@, view_expr(v[i].1))
            } else {
                vstd::pervasive::arbitrary()
            },
    )
}

/// The model of a parameter list.
pub open spec fn view_params(v: Vec<Ident>) -> Seq<Seq<char>> {
    Seq::new(v.len() as nat, |i: int| v[i]@)
}

/// The model of a statement.
pub open spec fn view_stmt(s: Stmt) -> SpecStmt
    decreases s,
{
    match s {
        Stmt::LetStmt(id, e) => SpecStmt::LetStmt(id.0@, view_expr(e)),
        Stmt::ReturnStmt(e) => SpecStmt::ReturnStmt(view_expr(e)),
        Stmt::ExprStmt(e) => SpecStmt::ExprStmt(view_expr(e)),
    }
}

/// The model of a program.
pub open spec fn view_program(p: Vec<Stmt>) -> Seq<SpecStmt>
    decreases p,
{
    Seq::new(
        p.len() as nat,
        |i: int|
            if 0 <= i < p.len() {
                view_stmt(p[i])
            } else {
                vstd::pervasive::arbitrary()
            },
    )
}

impl View for Expr {
    type V = SpecExpr;

    open spec fn view(&self) -> SpecExpr {
        view_expr(*self)
    }
}

impl View for Stmt {
    type V = SpecStmt;

    open spec fn view(&self) -> SpecStmt {
        view_stmt(*self)
    }
}

impl Clone for Ident {
    /// Cloning an identifier keeps its name.
    fn clone(&self) -> (r: Ident)
        ensures
            r@ == self@,
    {
        Ident(self.0.clone())
    }
}

impl Clone for Literal {
    /// Cloning a literal keeps its model.
    fn clone(&self) -> (r: Literal)
        ensures
            r@ == self@,
    {
        match self {
            Literal::IntLiteral(i) => Literal::IntLiteral(*i),
            Literal::BoolLiteral(b) => Literal::BoolLiteral(*b),
            Literal::StringLiteral(s) => Literal::StringLiteral(s.clone()),
        }
    }
}

/// Clones an expression; the copy has the same model.
pub fn clone_expr(e: &Expr) -> (r: Expr)
    ensures
        r@ == e@,
    decreases *e,
{
    match e {
        Expr::IdentExpr(id) => Expr::IdentExpr(id.clone()),
        Expr::LiteralExpr(l) => Expr::LiteralExpr(l.clone()),
        Expr::PrefixExpr(op, inner) => Expr::PrefixExpr(*op, Box::new(clone_expr(inner))),
        Expr::InfixExpr(op, l, r) => Expr::InfixExpr(
            *op,
            Box::new(clone_expr(l)),
            Box::new(clone_expr(r)),
        ),
        Expr::IfExpr { cond, consequence, alternative } => Expr::IfExpr {
            cond: Box::new(clone_expr(cond)),
            consequence: clone_program(consequence),
            alternative: match alternative {
                Option::Some(p) => Option::Some(clone_program(p)),
                Option::None => Option::None,
            },
        },
        Expr::FnExpr { params, body } => Expr::FnExpr {
            params: clone_params(params),
            body: clone_program(body),
        },
        Expr::CallExpr { function, arguments } => Expr::CallExpr {
            function: Box::new(clone_expr(function)),
            arguments: clone_exprs(arguments),
        },
        Expr::ArrayExpr(v) => Expr::ArrayExpr(clone_exprs(v)),
        Expr::HashExpr(v) => Expr::HashExpr(clone_pairs(v)),
        Expr::IndexExpr { array, index } => Expr::IndexExpr {
            array: Box::new(clone_expr(array)),
            index: Box::new(clone_expr(index)),
        },
    }
}

/// Clones an expression vector; the copy has the same model.
pub fn clone_exprs(v: &Vec<Expr>) -> (r: Vec<Expr>)
    ensures
        view_exprs(r) == view_exprs(*v),
    decreases *v,
{
    let mut r: Vec<Expr> = Vec::new();
    let mut i: usize = 0;
    while i < v.len()
        invariant
            i <= v.len(),
            r.len() == i,
            forall|j: int| 0 <= j < i ==> view_expr(r[j]) == view_expr(v[j]),
        decreases v.len() - i,
    {
        r.push(clone_expr(&v[i]));
        i = i + 1;
    }
    proof {
        assert(view_exprs(r) =~= view_exprs(*v));
    }
    r
}

/// Clones a hash-literal entry vector; the copy has the same model.
pub fn clone_pairs(v: &Vec<(Literal, Expr)>) -> (r: Vec<(Literal, Expr)>)
    ensures
        view_pairs(r) == view_pairs(*v),
    decreases *v,
{
    let mut r: Vec<(Literal, Expr)> = Vec::new();
    let mut i: usize = 0;
    while i < v.len()
        invariant
            i <= v.len(),
            r.len() == i,
            forall|j: int| 0 <= j < i ==> r[j].0@ == v[j].0@ && view_expr(r[j].1) == view_expr(
                v[j].1,
            ),
        decreases v.len() - i,
    {
        let pair = (v[i].0.clone(), clone_expr(&v[i].1));
        r.push(pair);
        i = i + 1;
    }
    proof {
        assert(view_pairs(r) =~= view_pairs(*v));
    }
    r
}

/// Clones a parameter list; the copy has the same model.
pub fn clone_params(v: &Vec<Ident>) -> (r: Vec<Ident>)
    ensures
        view_params(r) == view_params(*v),
{
    let mut r: Vec<Ident> = Vec::new();
    let mut i: usize = 0;
    while i < v.len()
        invariant
            i <= v.len(),
            r.len() == i,
            forall|j: int| 0 <= j < i ==> r[j]@ == v[j]@,
        decreases v.len() - i,
    {
        r.push(v[i].clone());
        i = i + 1;
    }
    proof {
        assert(view_params(r) =~= view_params(*v));
    }
    r
}

/// Clones a statement; the copy has the same model.
pub fn clone_stmt(s: &Stmt) -> (r: Stmt)
    ensures
        r@ == s@,
    decreases *s,
{
    match s {
        Stmt::LetStmt(id, e) => Stmt::LetStmt(id.clone(), clone_expr(e)),
        Stmt::ReturnStmt(e) => Stmt::ReturnStmt(clone_expr(e)),
        Stmt::ExprStmt(e) => Stmt::ExprStmt(clone_expr(e)),
    }
}

/// Whether two identifiers hold the same name.
pub fn ident_eq(a: &Ident, b: &Ident) -> (r: bool)
    ensures
        r == (a@ == b@),
{
    crate::lexer::eq_str(a.0.as_str(), b.0.as_str())
}

/// Whether two literals have the same model.
pub fn literal_eq(a: &Literal, b: &Literal) -> (r: bool)
    ensures
        r == (a@ == b@),
{
    match (a, b) {
        (Literal::IntLiteral(x), Literal::IntLiteral(y)) => x == y,
        (Literal::BoolLiteral(x), Literal::BoolLiteral(y)) => x == y,
        (Literal::StringLiteral(x), Literal::StringLiteral(y)) => crate::lexer::eq_str(
            x.as_str(),
            y.as_str(),
        ),
        _ => false,
    }
}

/// Whether two expressions have the same model.
pub fn expr_eq(a: &Expr, b: &Expr) -> (r: bool)
    ensures
        r == (a@ == b@),
    decreases *a,
{
    match (a, b) {
        (Expr::IdentExpr(x), Expr::IdentExpr(y)) => ident_eq(x, y),
        (Expr::LiteralExpr(x), Expr::LiteralExpr(y)) => literal_eq(x, y),
        (Expr::PrefixExpr(op1, e1), Expr::PrefixExpr(op2, e2)) => *op1 == *op2 && expr_eq(e1, e2),
        (Expr::InfixExpr(op1, l1, r1), Expr::InfixExpr(op2, l2, r2)) => *op1 == *op2 && expr_eq(
            l1,
            l2,
        ) && expr_eq(r1, r2),
        (
            Expr::IfExpr { cond: c1, consequence: q1, alternative: a1 },
            Expr::IfExpr { cond: c2, consequence: q2, alternative: a2 },
        ) => expr_eq(c1, c2) && program_eq(q1, q2) && match (a1, a2) {
            (Option::Some(p1), Option::Some(p2)) => program_eq(p1, p2),
            (Option::None, Option::None) => true,
            _ => false,
        },
        (
            Expr::FnExpr { params: p1, body: b1 },
            Expr::FnExpr { params: p2, body: b2 },
        ) => params_eq(p1, p2) && program_eq(b1, b2),
        (
            Expr::CallExpr { function: f1, arguments: g1 },
            Expr::CallExpr { function: f2, arguments: g2 },
        ) => expr_eq(f1, f2) && exprs_eq(g1, g2),
        (Expr::ArrayExpr(v1), Expr::ArrayExpr(v2)) => exprs_eq(v1, v2),
        (Expr::HashExpr(v1), Expr::HashExpr(v2)) => pairs_eq(v1, v2),
        (
            Expr::IndexExpr { array: x1, index: i1 },
            Expr::IndexExpr { array: x2, index: i2 },
        ) => expr_eq(x1, x2) && expr_eq(i1, i2),
        _ => false,
    }
}

/// Whether two expression vectors have the same model.
pub fn exprs_eq(a: &Vec<Expr>, b: &Vec<Expr>) -> (r: bool)
    ensures
        r == (view_exprs(*a) == view_exprs(*b)),
    decreases *a,
{
    if a.len() != b.len() {
        proof {
            assert(view_exprs(*a).len() != view_exprs(*b).len());
        }
        return false;
    }
    let mut i: usize = 0;
    while i < a.len()
        invariant
            i <= a.len(),
            a.len() == b.len(),
            forall|j: int| 0 <= j < i ==> view_exprs(*a)[j] == view_exprs(*b)[j],
        decreases a.len() - i,
    {
        if !expr_eq(&a[i], &b[i]) {
            proof {
                assert(view_exprs(*a)[i as int] != view_exprs(*b)[i as int]);
            }
            return false;
        }
        i = i + 1;
    }
    proof {
        assert(view_exprs(*a) =~= view_exprs(*b));
    }
    true
}

/// Whether two hash-literal entry vectors have the same model.
pub fn pairs_eq(a: &Vec<(Literal, Expr)>, b: &Vec<(Literal, Expr)>) -> (r: bool)
    ensures
        r == (view_pairs(*a) == view_pairs(*b)),
    decreases *a,
{
    if a.len() != b.len() {
        proof {
            assert(view_pairs(*a).len() != view_pairs(*b).len());
        }
        return false;
    }
    let mut i: usize = 0;
    while i < a.len()
        invariant
            i <= a.len(),
            a.len() == b.len(),
            forall|j: int| 0 <= j < i ==> view_pairs(*a)[j] == view_pairs(*b)[j],
        decreases a.len() - i,
    {
        if !(literal_eq(&a[i].0, &b[i].0) && expr_eq(&a[i].1, &b[i].1)) {
            proof {
                assert(view_pairs(*a)[i as int] != view_pairs(*b)[i as int]);
            }
            return false;
        }
        i = i + 1;
    }
    proof {
        assert(view_pairs(*a) =~= view_pairs(*b));
    }
    true
}

/// Whether two parameter lists have the same model.
pub fn params_eq(a: &Vec<Ident>, b: &Vec<Ident>) -> (r: bool)
    ensures
        r == (view_params(*a) == view_params(*b)),
{
    if a.len() != b.len() {
        proof {
            assert(view_params(*a).len() != view_params(*b).len());
        }
        return false;
    }
    let mut i: usize = 0;
    while i < a.len()
        invariant
            i <= a.len(),
            a.len() == b.len(),
            forall|j: int| 0 <= j < i ==> view_params(*a)[j] == view_params(*b)[j],
        decreases a.len() - i,
    {
        if !ident_eq(&a[i], &b[i]) {
            proof {
                assert(view_params(*a)[i as int] != view_params(*b)[i as int]);
            }
            return false;
        }
        i = i + 1;
    }
    proof {
        assert(view_params(*a) =~= view_params(*b));
    }
    true
}

/// Whether two statements have the same model.
pub fn stmt_eq(a: &Stmt, b: &Stmt) -> (r: bool)
    ensures
        r == (a@ == b@),
    decreases *a,
{
    match (a, b) {
        (Stmt::LetStmt(i1, e1), Stmt::LetStmt(i2, e2)) => ident_eq(i1, i2) && expr_eq(e1, e2),
        (Stmt::ReturnStmt(e1), Stmt::ReturnStmt(e2)) => expr_eq(e1, e2),
        (Stmt::ExprStmt(e1), Stmt::ExprStmt(e2)) => expr_eq(e1, e2),
        _ => false,
    }
}

/// Whether two programs have the same model.
pub fn program_eq(a: &Vec<Stmt>, b: &Vec<Stmt>) -> (r: bool)
    ensures
        r == (view_program(*a) == view_program(*b)),
    decreases *a,
{
    if a.len() != b.len() {
        proof {
            assert(view_program(*a).len() != view_program(*b).len());
        }
        return false;
    }
    let mut i: usize = 0;
    while i < a.len()
        invariant
            i <= a.len(),
            a.len() == b.len(),
            forall|j: int| 0 <= j < i ==> view_program(*a)[j] == view_program(*b)[j],
        decreases a.len() - i,
    {
        if !stmt_eq(&a[i], &b[i]) {
            proof {
                assert(view_program(*a)[i as int] != view_program(*b)[i as int]);
            }
            return false;
        }
        i = i + 1;
    }
    proof {
        assert(view_program(*a) =~= view_program(*b));
    }
    true
}

/// Clones a program; the copy has the same model.
pub fn clone_program(p: &Vec<Stmt>) -> (r: Vec<Stmt>)
    ensures
        view_program(r) == view_program(*p),
    decreases *p,
{
    let mut r: Vec<Stmt> = Vec::new();
    let mut i: usize = 0;
    while i < p.len()
        invariant
            i <= p.len(),
            r.len() == i,
            forall|j: int| 0 <= j < i ==> view_stmt(r[j]) == view_stmt(p[j]),
        decreases p.len() - i,
    {
        r.push(clone_stmt(&p[i]));
        i = i + 1;
    }
    proof {
        assert(view_program(r) =~= view_program(*p));
    }
    r
}

} // verus!
