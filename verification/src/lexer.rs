//! The lexer: source characters to a token stream.
//!
//! The model is `spec_lex`: it skips whitespace, reads one token at a time
//! in a fixed order of alternatives (two-character operators before
//! one-character ones, then punctuation, string literal, identifier or
//! keyword, integer, and a one-character illegal token), and ends the
//! stream with an end-of-input sentinel.  Lexing fails only on an
//! unterminated string literal or an integer literal outside the signed
//! 64-bit range.  The executable lexer returns exactly what the model says,
//! so lexing the same source twice yields identical tokens.

use crate::token::{view_tokens, SpecToken, Token};
use vstd::prelude::*;
use vstd::string::StrSliceExecFns;

verus! {

/// Whitespace: space, tab, carriage return, line feed.
pub open spec fn spec_is_whitespace(c: char) -> bool {
    c == ' ' || c == '\t' || c == '\r' || c == '\n'
}

/// A letter or underscore, as may start an identifier.
pub open spec fn spec_is_letter(c: char) -> bool {
    ('a' <= c && c <= 'z') || ('A' <= c && c <= 'Z') || c == '_'
}

/// A decimal digit.
pub open spec fn spec_is_digit(c: char) -> bool {
    '0' <= c && c <= '9'
}

/// A character that may continue an identifier.
pub open spec fn spec_is_ident_char(c: char) -> bool {
    spec_is_letter(c) || spec_is_digit(c)
}

fn is_whitespace(c: char) -> (r: bool)
    ensures
        r == spec_is_whitespace(c),
{
    c == ' ' || c == '\t' || c == '\r' || c == '\n'
}

fn is_letter(c: char) -> (r: bool)
    ensures
        r == spec_is_letter(c),
{
    ('a' <= c && c <= 'z') || ('A' <= c && c <= 'Z') || c == '_'
}

fn is_digit(c: char) -> (r: bool)
    ensures
        r == spec_is_digit(c),
{
    '0' <= c && c <= '9'
}

/// The first position at or after `i` that holds no whitespace.
pub open spec fn spec_ws_end(s: Seq<char>, i: int) -> int
    decreases s.len() - i,
{
    if 0 <= i < s.len() && spec_is_whitespace(s[i]) {
        spec_ws_end(s, i + 1)
    } else {
        i
    }
}

proof fn lemma_ws_end_bounds(s: Seq<char>, i: int)
    requires
        0 <= i <= s.len(),
    ensures
        i <= spec_ws_end(s, i) <= s.len(),
    decreases s.len() - i,
{
    if i < s.len() && spec_is_whitespace(s[i]) {
        lemma_ws_end_bounds(s, i + 1);
    }
}

/// The first position at or after `i` that cannot continue an identifier.
pub open spec fn spec_ident_end(s: Seq<char>, i: int) -> int
    decreases s.len() - i,
{
    if 0 <= i < s.len() && spec_is_ident_char(s[i]) {
        spec_ident_end(s, i + 1)
    } else {
        i
    }
}

proof fn lemma_ident_end_bounds(s: Seq<char>, i: int)
    requires
        0 <= i <= s.len(),
    ensures
        i <= spec_ident_end(s, i) <= s.len(),
    decreases s.len() - i,
{
    if i < s.len() && spec_is_ident_char(s[i]) {
        lemma_ident_end_bounds(s, i + 1);
    }
}

fn ws_end(s: &str, n: usize, pos: usize) -> (r: usize)
    requires
        n == s@.len(),
        pos <= n,
    ensures
        r == spec_ws_end(s@, pos as int),
        pos <= r <= n,
{
    let mut i = pos;
    while i < n && is_whitespace(s.get_char(i))
        invariant
            pos <= i <= n,
            n == s@.len(),
            spec_ws_end(s@, pos as int) == spec_ws_end(s@, i as int),
        decreases n - i,
    {
        i = i + 1;
    }
    i
}

fn ident_end(s: &str, n: usize, pos: usize) -> (r: usize)
    requires
        n == s@.len(),
        pos <= n,
    ensures
        r == spec_ident_end(s@, pos as int),
        pos <= r <= n,
{
    let mut i = pos;
    loop
        invariant
            pos <= i <= n,
            n == s@.len(),
            spec_ident_end(s@, pos as int) == spec_ident_end(s@, i as int),
        ensures
            i == spec_ident_end(s@, pos as int),
        decreases n - i,
    {
        if i >= n {
            return i;
        }
        let c = s.get_char(i);
        if !(is_letter(c) || is_digit(c)) {
            return i;
        }
        i = i + 1;
    }
}

/// Whether two string slices hold the same characters.
pub fn eq_str(a: &str, b: &str) -> (r: bool)
    ensures
        r == (a@ == b@),
{
    let na = a.unicode_len();
    let nb = b.unicode_len();
    if na != nb {
        proof {
            assert(a@ != b@);
        }
        return false;
    }
    let mut i: usize = 0;
    while i < na
        invariant
            i <= na,
            na == a@.len(),
            na == b@.len(),
            forall|j: int| 0 <= j < i ==> a@[j] == b@[j],
        decreases na - i,
    {
        if s_get(a, i) != s_get(b, i) {
            return false;
        }
        i = i + 1;
    }
    proof {
        assert(a@ =~= b@);
    }
    true
}

fn s_get(s: &str, i: usize) -> (c: char)
    requires
        i < s@.len(),
    ensures
        c == s@[i as int],
{
    s.get_char(i)
}

/// The operator token starting at `i`, if any; two-character operators are
/// recognised before one-character ones.
pub open spec fn spec_lex_operator(s: Seq<char>, i: int) -> Option<(SpecToken, int)> {
    if 0 <= i < s.len() {
        let c = s[i];
        let has2 = i + 1 < s.len();
        if c == '=' && has2 && s[i + 1] == '=' {
            Some((SpecToken::Equal, i + 2))
        } else if c == '!' && has2 && s[i + 1] == '=' {
            Some((SpecToken::NotEqual, i + 2))
        } else if c == '>' && has2 && s[i + 1] == '=' {
            Some((SpecToken::GreaterThanEqual, i + 2))
        } else if c == '<' && has2 && s[i + 1] == '=' {
            Some((SpecToken::LessThanEqual, i + 2))
        } else if c == '=' {
            Some((SpecToken::Assign, i + 1))
        } else if c == '+' {
            Some((SpecToken::Plus, i + 1))
        } else if c == '-' {
            Some((SpecToken::Minus, i + 1))
        } else if c == '*' {
            Some((SpecToken::Multiply, i + 1))
        } else if c == '/' {
            Some((SpecToken::Divide, i + 1))
        } else if c == '!' {
            Some((SpecToken::Not, i + 1))
        } else if c == '>' {
            Some((SpecToken::GreaterThan, i + 1))
        } else if c == '<' {
            Some((SpecToken::LessThan, i + 1))
        } else {
            None
        }
    } else {
        None
    }
}

/// Reads an operator token at `pos`, if one starts there.
pub fn lex_operator(s: &str, n: usize, pos: usize) -> (r: Option<(Token, usize)>)
    requires
        n == s@.len(),
        pos < n,
    ensures
        match r {
            Some(p) => spec_lex_operator(s@, pos as int) == Some((p.0@, p.1 as int)),
            None => spec_lex_operator(s@, pos as int) is None,
        },
{
    let c = s_get(s, pos);
    let c2 = if pos + 1 < n {
        Some(s_get(s, pos + 1))
    } else {
        None
    };
    let eq2 = match c2 {
        Some(d) => d == '=',
        None => false,
    };
    if c == '=' && eq2 {
        Some((Token::Equal, pos + 2))
    } else if c == '!' && eq2 {
        Some((Token::NotEqual, pos + 2))
    } else if c == '>' && eq2 {
        Some((Token::GreaterThanEqual, pos + 2))
    } else if c == '<' && eq2 {
        Some((Token::LessThanEqual, pos + 2))
    } else if c == '=' {
        Some((Token::Assign, pos + 1))
    } else if c == '+' {
        Some((Token::Plus, pos + 1))
    } else if c == '-' {
        Some((Token::Minus, pos + 1))
    } else if c == '*' {
        Some((Token::Multiply, pos + 1))
    } else if c == '/' {
        Some((Token::Divide, pos + 1))
    } else if c == '!' {
        Some((Token::Not, pos + 1))
    } else if c == '>' {
        Some((Token::GreaterThan, pos + 1))
    } else if c == '<' {
        Some((Token::LessThan, pos + 1))
    } else {
        None
    }
}

/// The punctuation token at `i`, if any.
pub open spec fn spec_lex_punctuations(s: Seq<char>, i: int) -> Option<(SpecToken, int)> {
    if 0 <= i < s.len() {
        let c = s[i];
        if c == ',' {
            Some((SpecToken::Comma, i + 1))
        } else if c == ';' {
            Some((SpecToken::SemiColon, i + 1))
        } else if c == ':' {
            Some((SpecToken::Colon, i + 1))
        } else if c == '(' {
            Some((SpecToken::LParen, i + 1))
        } else if c == ')' {
            Some((SpecToken::RParen, i + 1))
        } else if c == '{' {
            Some((SpecToken::LBrace, i + 1))
        } else if c == '}' {
            Some((SpecToken::RBrace, i + 1))
        } else if c == '[' {
            Some((SpecToken::LBracket, i + 1))
        } else if c == ']' {
            Some((SpecToken::RBracket, i + 1))
        } else {
            None
        }
    } else {
        None
    }
}

/// Reads a punctuation token at `pos`, if one stands there.
pub fn lex_punctuations(s: &str, n: usize, pos: usize) -> (r: Option<(Token, usize)>)
    requires
        n == s@.len(),
        pos < n,
    ensures
        match r {
            Some(p) => spec_lex_punctuations(s@, pos as int) == Some((p.0@, p.1 as int)),
            None => spec_lex_punctuations(s@, pos as int) is None,
        },
{
    let c = s_get(s, pos);
    if c == ',' {
        Some((Token::Comma, pos + 1))
    } else if c == ';' {
        Some((Token::SemiColon, pos + 1))
    } else if c == ':' {
        Some((Token::Colon, pos + 1))
    } else if c == '(' {
        Some((Token::LParen, pos + 1))
    } else if c == ')' {
        Some((Token::RParen, pos + 1))
    } else if c == '{' {
        Some((Token::LBrace, pos + 1))
    } else if c == '}' {
        Some((Token::RBrace, pos + 1))
    } else if c == '[' {
        Some((Token::LBracket, pos + 1))
    } else if c == ']' {
        Some((Token::RBracket, pos + 1))
    } else {
        None
    }
}

/// Scans a string literal's body from `i` to its closing quote.  A
/// backslash before a quote yields the quote alone; before any other
/// character it is kept together with that character.  Reaching the end of
/// input first is a lexing failure.
pub open spec fn spec_scan_string(s: Seq<char>, i: int, acc: Seq<char>) -> Option<
    (Seq<char>, int),
>
    decreases s.len() - i,
{
    if i < 0 || i >= s.len() {
        None
    } else if s[i] == '"' {
        Some((acc, i + 1))
    } else if s[i] == '\\' {
        if i + 1 >= s.len() {
            None
        } else if s[i + 1] == '"' {
            spec_scan_string(s, i + 2, acc.push('"'))
        } else {
            spec_scan_string(s, i + 2, acc.push('\\').push(s[i + 1]))
        }
    } else {
        spec_scan_string(s, i + 1, acc.push(s[i]))
    }
}

proof fn lemma_scan_string_bounds(s: Seq<char>, i: int, acc: Seq<char>)
    requires
        0 <= i <= s.len(),
        spec_scan_string(s, i, acc) is Some,
    ensures
        i < (spec_scan_string(s, i, acc)->0).1 <= s.len(),
    decreases s.len() - i,
{
    if i < s.len() && s[i] == '"' {
    } else if i < s.len() && s[i] == '\\' && i + 1 < s.len() {
        if s[i + 1] == '"' {
            lemma_scan_string_bounds(s, i + 2, acc.push('"'));
        } else {
            lemma_scan_string_bounds(s, i + 2, acc.push('\\').push(s[i + 1]));
        }
    } else if i < s.len() {
        lemma_scan_string_bounds(s, i + 1, acc.push(s[i]));
    }
}

/// Reads a string literal whose opening quote stands at `pos`.
fn lex_string(s: &str, n: usize, pos: usize) -> (r: Option<(Token, usize)>)
    requires
        n == s@.len(),
        pos < n,
        s@[pos as int] == '"',
    ensures
        match r {
            Some(p) => spec_scan_string(s@, pos + 1, Seq::empty()) matches Some(q) && p.0@
                == SpecToken::StringLiteral(q.0) && p.1 == q.1,
            None => spec_scan_string(s@, pos + 1, Seq::empty()) is None,
        },
{
    let mut acc = String::new();
    let mut i = pos + 1;
    loop
        invariant
            pos + 1 <= i <= n,
            n == s@.len(),
            spec_scan_string(s@, pos + 1, Seq::empty()) == spec_scan_string(s@, i as int, acc@),
        decreases n - i,
    {
        if i >= n {
            return None;
        }
        let c = s_get(s, i);
        let ghost acc0 = acc@;
        if c == '"' {
            return Some((Token::StringLiteral(acc), i + 1));
        } else if c == '\\' {
            if i + 1 >= n {
                return None;
            }
            let c2 = s_get(s, i + 1);
            if c2 == '"' {
                let piece = s.substring_char(i + 1, i + 2);
                acc.append(piece);
                proof {
                    assert(acc@ =~= acc0.push('"'));
                }
            } else {
                let piece = s.substring_char(i, i + 2);
                acc.append(piece);
                proof {
                    assert(acc@ =~= acc0.push('\\').push(s@[i + 1]));
                }
            }
            i = i + 2;
        } else {
            let piece = s.substring_char(i, i + 1);
            acc.append(piece);
            proof {
                assert(acc@ =~= acc0.push(s@[i as int]));
            }
            i = i + 1;
        }
    }
}

/// The token a bare word denotes: a keyword, a boolean literal, or an
/// identifier.
pub open spec fn spec_keyword_token(word: Seq<char>) -> SpecToken {
    if word == "let"@ {
        SpecToken::Let
    } else if word == "fn"@ {
        SpecToken::Function
    } else if word == "if"@ {
        SpecToken::If
    } else if word == "else"@ {
        SpecToken::Else
    } else if word == "return"@ {
        SpecToken::Return
    } else if word == "true"@ {
        SpecToken::BoolLiteral(true)
    } else if word == "false"@ {
        SpecToken::BoolLiteral(false)
    } else {
        SpecToken::Ident(word)
    }
}

/// The keyword, boolean or identifier token starting at `i`; the word runs
/// to the first character that cannot continue an identifier.
pub open spec fn spec_lex_reserved_ident(s: Seq<char>, i: int) -> (SpecToken, int) {
    let j = spec_ident_end(s, i);
    (spec_keyword_token(s.subrange(i, j)), j)
}

/// Reads the keyword, boolean or identifier token starting at `pos`.
fn lex_reserved_ident(s: &str, n: usize, pos: usize) -> (r: (Token, usize))
    requires
        n == s@.len(),
        pos < n,
        spec_is_letter(s@[pos as int]),
    ensures
        spec_lex_reserved_ident(s@, pos as int) == (r.0@, r.1 as int),
{
    let j = ident_end(s, n, pos);
    let word = s.substring_char(pos, j);
    let tok = if eq_str(word, "let") {
        Token::Let
    } else if eq_str(word, "fn") {
        Token::Function
    } else if eq_str(word, "if") {
        Token::If
    } else if eq_str(word, "else") {
        Token::Else
    } else if eq_str(word, "return") {
        Token::Return
    } else if eq_str(word, "true") {
        Token::BoolLiteral(true)
    } else if eq_str(word, "false") {
        Token::BoolLiteral(false)
    } else {
        Token::Ident(word.to_owned())
    };
    (tok, j)
}

/// The value of a digit character.
pub open spec fn spec_digit_val(c: char) -> int {
    c as u32 - '0' as u32
}

/// Accumulates the decimal digits running from `i` onto `acc`; yields the
/// value and the position after the run, or nothing when the value leaves
/// the signed 64-bit range.
pub open spec fn spec_int_rec(s: Seq<char>, i: int, acc: i64) -> Option<(i64, int)>
    decreases s.len() - i,
{
    if 0 <= i < s.len() && spec_is_digit(s[i]) {
        let d = spec_digit_val(s[i]);
        if acc > (i64::MAX - d) / 10 {
            None
        } else {
            spec_int_rec(s, i + 1, (acc * 10 + d) as i64)
        }
    } else {
        Some((acc, i))
    }
}

proof fn lemma_int_rec_bounds(s: Seq<char>, i: int, acc: i64)
    requires
        0 <= i <= s.len(),
        spec_int_rec(s, i, acc) is Some,
    ensures
        i <= (spec_int_rec(s, i, acc)->0).1 <= s.len(),
    decreases s.len() - i,
{
    if i < s.len() && spec_is_digit(s[i]) {
        let d = spec_digit_val(s[i]);
        if !(acc > (i64::MAX - d) / 10) {
            lemma_int_rec_bounds(s, i + 1, (acc * 10 + d) as i64);
        }
    }
}

/// Reads the integer literal starting at `pos`; fails on a value outside
/// the signed 64-bit range.
fn lex_integer(s: &str, n: usize, pos: usize) -> (r: Option<(Token, usize)>)
    requires
        n == s@.len(),
        pos < n,
        spec_is_digit(s@[pos as int]),
    ensures
        match r {
            Some(p) => spec_int_rec(s@, pos as int, 0) matches Some(q) && p.0@
                == SpecToken::IntLiteral(q.0) && p.1 == q.1,
            None => spec_int_rec(s@, pos as int, 0) is None,
        },
{
    let mut val: i64 = 0;
    let mut i = pos;
    loop
        invariant
            pos <= i <= n,
            n == s@.len(),
            0 <= val,
            spec_int_rec(s@, pos as int, 0) == spec_int_rec(s@, i as int, val),
        decreases n - i,
    {
        if i >= n {
            return Some((Token::IntLiteral(val), i));
        }
        let c = s_get(s, i);
        if !is_digit(c) {
            return Some((Token::IntLiteral(val), i));
        }
        let d = (c as u32 - 48) as i64;
        proof {
            assert(d == spec_digit_val(s@[i as int]));
        }
        if val > (i64::MAX - d) / 10 {
            return None;
        }
        val = val * 10 + d;
        i = i + 1;
    }
}

/// The token starting at `i`, with the alternatives tried in the fixed
/// order: operators, punctuation, string literal, word, integer, and a
/// one-character illegal token.  Nothing means the lexing of the whole
/// input fails.
pub open spec fn spec_lex_token(s: Seq<char>, i: int) -> Option<(SpecToken, int)> {
    match spec_lex_operator(s, i) {
        Some(r) => Some(r),
        None => match spec_lex_punctuations(s, i) {
            Some(r) => Some(r),
            None => if 0 <= i < s.len() {
                if s[i] == '"' {
                    match spec_scan_string(s, i + 1, Seq::empty()) {
                        Some((content, j)) => Some((SpecToken::StringLiteral(content), j)),
                        None => None,
                    }
                } else if spec_is_letter(s[i]) {
                    Some(spec_lex_reserved_ident(s, i))
                } else if spec_is_digit(s[i]) {
                    match spec_int_rec(s, i, 0) {
                        Some((v, j)) => Some((SpecToken::IntLiteral(v), j)),
                        None => None,
                    }
                } else {
                    Some((SpecToken::Illegal, i + 1))
                }
            } else {
                None
            },
        },
    }
}

proof fn lemma_lex_token_advances(s: Seq<char>, i: int)
    requires
        0 <= i < s.len(),
        spec_lex_token(s, i) is Some,
    ensures
        i < (spec_lex_token(s, i)->0).1 <= s.len(),
{
    if spec_lex_operator(s, i) is Some {
    } else if spec_lex_punctuations(s, i) is Some {
    } else if s[i] == '"' {
        lemma_scan_string_bounds(s, i + 1, Seq::empty());
    } else if spec_is_letter(s[i]) {
        lemma_ident_end_bounds(s, i + 1);
        assert(spec_ident_end(s, i) == spec_ident_end(s, i + 1));
    } else if spec_is_digit(s[i]) {
        lemma_int_rec_bounds(s, i + 1, (spec_digit_val(s[i])) as i64);
    }
}

/// Reads the token starting at `pos`.
fn lex_token(s: &str, n: usize, pos: usize) -> (r: Option<(Token, usize)>)
    requires
        n == s@.len(),
        pos < n,
    ensures
        match r {
            Some(p) => spec_lex_token(s@, pos as int) == Some((p.0@, p.1 as int)),
            None => spec_lex_token(s@, pos as int) is None,
        },
{
    if let Some(r) = lex_operator(s, n, pos) {
        return Some(r);
    }
    if let Some(r) = lex_punctuations(s, n, pos) {
        return Some(r);
    }
    let c = s_get(s, pos);
    if c == '"' {
        lex_string(s, n, pos)
    } else if is_letter(c) {
        Some(lex_reserved_ident(s, n, pos))
    } else if is_digit(c) {
        lex_integer(s, n, pos)
    } else {
        Some((Token::Illegal, pos + 1))
    }
}

/// Prepends already-read tokens onto the outcome of lexing the rest.
pub open spec fn spec_prepend(ts: Seq<SpecToken>, rest: Option<Seq<SpecToken>>) -> Option<
    Seq<SpecToken>,
> {
    match rest {
        Some(r) => Some(ts + r),
        None => None,
    }
}

/// The model of lexing: the token sequence of the source from position
/// `pos` on, ending with the end-of-input sentinel, or nothing when a
/// string literal is unterminated or an integer literal overflows.
pub open spec fn spec_lex(s: Seq<char>, pos: int) -> Option<Seq<SpecToken>>
    decreases s.len() - pos,
{
    if pos < 0 {
        None
    } else {
        let i = spec_ws_end(s, pos);
        if i >= s.len() {
            Some(seq![SpecToken::EOF])
        } else {
            match spec_lex_token(s, i) {
                None => None,
                Some((t, j)) => if j <= pos || j > s.len() {
                    None
                } else {
                    spec_prepend(seq![t], spec_lex(s, j))
                },
            }
        }
    }
}

/// The lexer.
pub struct Lexer;

impl Lexer {
    /// Turns source text into its token stream: exactly the tokens of
    /// `spec_lex`, or nothing exactly when the model fails.  Lexing the
    /// same source twice therefore yields identical tokens.
    pub fn lex_tokens(input: &str) -> (r: Option<Vec<Token>>)
        ensures
            match r {
                Some(v) => spec_lex(input@, 0) == Some(view_tokens(v@)),
                None => spec_lex(input@, 0) is None,
            },
    {
        let n = input.unicode_len();
        let mut toks: Vec<Token> = Vec::new();
        let mut pos: usize = 0;
        loop
            invariant
                pos <= n,
                n == input@.len(),
                spec_lex(input@, 0) == spec_prepend(
                    view_tokens(toks@),
                    spec_lex(input@, pos as int),
                ),
            decreases n - pos,
        {
            let ghost toks0 = toks@;
            let i = ws_end(input, n, pos);
            if i >= n {
                toks.push(Token::EOF);
                proof {
                    assert(view_tokens(toks@) =~= view_tokens(toks0) + seq![SpecToken::EOF]);
                }
                return Some(toks);
            }
            match lex_token(input, n, i) {
                None => {
                    return None;
                },
                Some((t, j)) => {
                    proof {
                        lemma_ws_end_bounds(input@, pos as int);
                        lemma_lex_token_advances(input@, i as int);
                    }
                    let ghost tv = t@;
                    toks.push(t);
                    proof {
                        assert(view_tokens(toks@) =~= view_tokens(toks0) + seq![tv]);
                        if spec_lex(input@, j as int) is Some {
                            assert(view_tokens(toks0) + (seq![tv] + spec_lex(
                                input@,
                                j as int,
                            )->0) =~= view_tokens(toks@) + spec_lex(input@, j as int)->0);
                        }
                    }
                    pos = j;
                },
            }
        }
    }
}

} // verus!
