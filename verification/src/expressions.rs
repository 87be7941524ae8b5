//! The rule expression language: a tokenizer, a recursive-descent parser and
//! a tree-walking evaluator for small boolean/comparison expressions over a
//! metrics map.
//!
//! Grammar, loosest-binding first: `or` over `and` over `not` over a
//! comparison (`==`, `!=`, `>`, `>=`, `<`, `<=`) over a parenthesized
//! expression, literal or identifier. Comparisons require same-type operands
//! (integer with integer, string with string); identifiers resolve against
//! the metrics map; `and`/`or` short-circuit left to right after boolean
//! coercion of their operands.

use vstd::prelude::*;

verus! {

use crate::metrics::MetricsMap;
use crate::strutil::{chars_to_string, str_to_chars, subvec_chars};
use crate::value::{as_bool_v, lex_lt, lex_lt_str, Value, ValueV};

/// An error found while turning expression text into tokens or a syntax
/// tree. A rule with such an error is reported and treated as false.
#[derive(Clone, Copy, Debug, PartialEq, Eq, Structural)]
pub enum ParseError {
    /// A character that can start no token, or a lone `=` or `!`.
    UnexpectedChar,
    /// A string literal with no closing quote.
    UnterminatedString,
    /// An integer literal beyond the representable range.
    NumberTooLarge,
    /// A token that fits no grammar rule at its position.
    UnexpectedToken,
    /// Input ended where the grammar needs more.
    UnexpectedEnd,
    /// Tokens left over after a complete expression.
    TrailingInput,
}

/// An error found while evaluating a well-formed expression. A rule with
/// such an error is reported and treated as false.
#[derive(Clone, Copy, Debug, PartialEq, Eq, Structural)]
pub enum EvalError {
    /// An identifier that names no metric in the map.
    UnknownMetric,
    /// A comparison whose operands are not both integers or both strings.
    TypeMismatch,
}

/// A comparison operator.
#[derive(Clone, Copy, Debug, PartialEq, Eq, Structural)]
pub enum CmpOp {
    Eq,
    Ne,
    Gt,
    Ge,
    Lt,
    Le,
}

/// One token of expression text.
#[derive(Debug)]
pub enum Token {
    IntLit(i64),
    StrLit(String),
    Ident(String),
    LParen,
    RParen,
    Op(CmpOp),
    KwOr,
    KwAnd,
    KwNot,
    KwTrue,
    KwFalse,
}

/// Mathematical model of a [`Token`].
pub enum TokenV {
    IntLit(int),
    StrLit(Seq<char>),
    Ident(Seq<char>),
    LParen,
    RParen,
    Op(CmpOp),
    KwOr,
    KwAnd,
    KwNot,
    KwTrue,
    KwFalse,
}

/// The model of one token.
pub open spec fn token_v(t: Token) -> TokenV {
    match t {
        Token::IntLit(n) => TokenV::IntLit(n as int),
        Token::StrLit(s) => TokenV::StrLit(s@),
        Token::Ident(s) => TokenV::Ident(s@),
        Token::LParen => TokenV::LParen,
        Token::RParen => TokenV::RParen,
        Token::Op(op) => TokenV::Op(op),
        Token::KwOr => TokenV::KwOr,
        Token::KwAnd => TokenV::KwAnd,
        Token::KwNot => TokenV::KwNot,
        Token::KwTrue => TokenV::KwTrue,
        Token::KwFalse => TokenV::KwFalse,
    }
}

/// The model of a token sequence.
pub open spec fn tokens_v(s: Seq<Token>) -> Seq<TokenV> {
    Seq::new(s.len(), |i: int| token_v(s[i]))
}

/// Whitespace between tokens.
pub open spec fn is_space(c: char) -> bool {
    c == ' ' || c == '\t' || c == '\r' || c == '\n'
}

/// A decimal digit.
pub open spec fn is_digit(c: char) -> bool {
    48 <= (c as u32) <= 57
}

/// The numeric value of a digit.
pub open spec fn digit_val(c: char) -> int {
    (c as u32) - 48
}

/// A character that can start an identifier or keyword.
pub open spec fn is_ident_start(c: char) -> bool {
    (65 <= (c as u32) <= 90) || (97 <= (c as u32) <= 122) || c == '_'
}

/// A character that can continue an identifier or keyword.
pub open spec fn is_ident_char(c: char) -> bool {
    is_ident_start(c) || is_digit(c)
}

/// The first position at or after `i` whose character cannot continue an
/// identifier (or the end of input).
pub open spec fn scan_ident_end(s: Seq<char>, i: int) -> int
    decreases s.len() - i,
    when 0 <= i <= s.len()
{
    if i < s.len() && is_ident_char(s[i]) {
        scan_ident_end(s, i + 1)
    } else {
        i
    }
}

/// The first position at or after `i` whose character is no digit (or the
/// end of input).
pub open spec fn scan_num_end(s: Seq<char>, i: int) -> int
    decreases s.len() - i,
    when 0 <= i <= s.len()
{
    if i < s.len() && is_digit(s[i]) {
        scan_num_end(s, i + 1)
    } else {
        i
    }
}

/// The value of the digit run `s[i..j)`, read as a decimal number.
pub open spec fn num_val(s: Seq<char>, i: int, j: int) -> int
    decreases j - i,
{
    if i >= j {
        0
    } else {
        num_val(s, i, j - 1) * 10 + digit_val(s[j - 1])
    }
}

/// The position of the closing quote `q` at or after `i`, if any.
pub open spec fn scan_str_end(s: Seq<char>, i: int, q: char) -> Option<int>
    decreases s.len() - i,
    when 0 <= i <= s.len()
{
    if i >= s.len() {
        None
    } else if s[i] == q {
        Some(i)
    } else {
        scan_str_end(s, i + 1, q)
    }
}

/// The token for an identifier spelling, turning the reserved words into
/// their keywords.
pub open spec fn kw_of(w: Seq<char>) -> TokenV {
    if w == seq!['o', 'r'] {
        TokenV::KwOr
    } else if w == seq!['a', 'n', 'd'] {
        TokenV::KwAnd
    } else if w == seq!['n', 'o', 't'] {
        TokenV::KwNot
    } else if w == seq!['t', 'r', 'u', 'e'] {
        TokenV::KwTrue
    } else if w == seq!['f', 'a', 'l', 's', 'e'] {
        TokenV::KwFalse
    } else {
        TokenV::Ident(w)
    }
}

/// The token starting at the non-space position `i`, with the position just
/// after it.
pub open spec fn scan_token(s: Seq<char>, i: int) -> Result<(TokenV, int), ParseError>
    decreases s.len() - i,
    when 0 <= i < s.len()
{
    let c = s[i];
    if is_digit(c) {
        let j = scan_num_end(s, i);
        if num_val(s, i, j) <= i64::MAX {
            Ok((TokenV::IntLit(num_val(s, i, j)), j))
        } else {
            Err(ParseError::NumberTooLarge)
        }
    } else if is_ident_start(c) {
        let j = scan_ident_end(s, i);
        Ok((kw_of(s.subrange(i, j)), j))
    } else if c == '"' || c == '\'' {
        match scan_str_end(s, i + 1, c) {
            Some(j) => Ok((TokenV::StrLit(s.subrange(i + 1, j)), j + 1)),
            None => Err(ParseError::UnterminatedString),
        }
    } else if c == '(' {
        Ok((TokenV::LParen, i + 1))
    } else if c == ')' {
        Ok((TokenV::RParen, i + 1))
    } else if c == '=' {
        if i + 1 < s.len() && s[i + 1] == '=' {
            Ok((TokenV::Op(CmpOp::Eq), i + 2))
        } else {
            Err(ParseError::UnexpectedChar)
        }
    } else if c == '!' {
        if i + 1 < s.len() && s[i + 1] == '=' {
            Ok((TokenV::Op(CmpOp::Ne), i + 2))
        } else {
            Err(ParseError::UnexpectedChar)
        }
    } else if c == '>' {
        if i + 1 < s.len() && s[i + 1] == '=' {
            Ok((TokenV::Op(CmpOp::Ge), i + 2))
        } else {
            Ok((TokenV::Op(CmpOp::Gt), i + 1))
        }
    } else if c == '<' {
        if i + 1 < s.len() && s[i + 1] == '=' {
            Ok((TokenV::Op(CmpOp::Le), i + 2))
        } else {
            Ok((TokenV::Op(CmpOp::Lt), i + 1))
        }
    } else {
        Err(ParseError::UnexpectedChar)
    }
}

/// The tokens of `s` from position `i` on.
pub open spec fn tok_from(s: Seq<char>, i: int) -> Result<Seq<TokenV>, ParseError>
    decreases s.len() - i,
    when 0 <= i <= s.len()
{
    if i >= s.len() {
        Ok(Seq::empty())
    } else if is_space(s[i]) {
        tok_from(s, i + 1)
    } else {
        match scan_token(s, i) {
            Ok((t, j)) => if i < j <= s.len() {
                match tok_from(s, j) {
                    Ok(rest) => Ok(seq![t] + rest),
                    Err(e) => Err(e),
                }
            } else {
                Err(ParseError::UnexpectedChar)
            },
            Err(e) => Err(e),
        }
    }
}

/// The tokens of the whole of `s`.
pub open spec fn tokens_of(s: Seq<char>) -> Result<Seq<TokenV>, ParseError> {
    tok_from(s, 0)
}

proof fn lemma_scan_ident_end_bounds(s: Seq<char>, i: int)
    requires
        0 <= i <= s.len(),
    ensures
        i <= scan_ident_end(s, i) <= s.len(),
    decreases s.len() - i,
{
    if i < s.len() && is_ident_char(s[i]) {
        lemma_scan_ident_end_bounds(s, i + 1);
    }
}

proof fn lemma_scan_num_end_bounds(s: Seq<char>, i: int)
    requires
        0 <= i <= s.len(),
    ensures
        i <= scan_num_end(s, i) <= s.len(),
        forall|k: int| i <= k < scan_num_end(s, i) ==> is_digit(s[k]),
    decreases s.len() - i,
{
    if i < s.len() && is_digit(s[i]) {
        lemma_scan_num_end_bounds(s, i + 1);
    }
}

proof fn lemma_scan_str_end_bounds(s: Seq<char>, i: int, q: char)
    requires
        0 <= i <= s.len(),
    ensures
        match scan_str_end(s, i, q) {
            Some(j) => i <= j < s.len(),
            None => true,
        },
    decreases s.len() - i,
{
    if i < s.len() && s[i] != q {
        lemma_scan_str_end_bounds(s, i + 1, q);
    }
}

/// The value of a digit run is never negative.
pub proof fn lemma_num_val_nonneg(s: Seq<char>, i: int, j: int)
    requires
        forall|k: int| i <= k < j ==> is_digit(s[k]),
    ensures
        num_val(s, i, j) >= 0,
    decreases j - i,
{
    if i < j {
        lemma_num_val_nonneg(s, i, j - 1);
        assert(is_digit(s[j - 1]));
    }
}

proof fn lemma_scan_token_advances(s: Seq<char>, i: int)
    requires
        0 <= i < s.len(),
    ensures
        match scan_token(s, i) {
            Ok((t, j)) => i < j <= s.len(),
            Err(_) => true,
        },
{
    let c = s[i];
    if is_digit(c) {
        lemma_scan_num_end_bounds(s, i + 1);
        assert(scan_num_end(s, i) == scan_num_end(s, i + 1));
    } else if is_ident_start(c) {
        lemma_scan_ident_end_bounds(s, i + 1);
        assert(scan_ident_end(s, i) == scan_ident_end(s, i + 1));
    } else if c == '"' || c == '\'' {
        lemma_scan_str_end_bounds(s, i + 1, c);
    }
}

fn scan_ident_end_x(s: &Vec<char>, i: usize) -> (r: usize)
    requires
        i <= s@.len(),
    ensures
        r as int == scan_ident_end(s@, i as int),
        i <= r <= s@.len(),
    decreases s@.len() - i,
{
    if i < s.len() {
        let c = s[i];
        let cu = c as u32;
        if (65 <= cu && cu <= 90) || (97 <= cu && cu <= 122) || c == '_' || (48 <= cu && cu <= 57) {
            scan_ident_end_x(s, i + 1)
        } else {
            i
        }
    } else {
        i
    }
}

fn scan_num_end_x(s: &Vec<char>, i: usize) -> (r: usize)
    requires
        i <= s@.len(),
    ensures
        r as int == scan_num_end(s@, i as int),
        i <= r <= s@.len(),
    decreases s@.len() - i,
{
    if i < s.len() {
        let cu = s[i] as u32;
        if 48 <= cu && cu <= 57 {
            scan_num_end_x(s, i + 1)
        } else {
            i
        }
    } else {
        i
    }
}

fn scan_str_end_x(s: &Vec<char>, i: usize, q: char) -> (r: Option<usize>)
    requires
        i <= s@.len(),
    ensures
        match r {
            Some(j) => i <= j < s@.len() && scan_str_end(s@, i as int, q) == Some(j as int),
            None => scan_str_end(s@, i as int, q) is None,
        },
    decreases s@.len() - i,
{
    if i >= s.len() {
        None
    } else if s[i] == q {
        Some(i)
    } else {
        scan_str_end_x(s, i + 1, q)
    }
}

/// The saturation value used while reading an integer literal: one more
/// than the largest representable value.
const NUM_SAT: u64 = 9223372036854775808;

fn num_val_sat(s: &Vec<char>, i: usize, j: usize) -> (r: u64)
    requires
        i <= j <= s@.len(),
        forall|k: int| i <= k < j ==> is_digit(s@[k]),
    ensures
        num_val(s@, i as int, j as int) <= i64::MAX ==> r as int == num_val(s@, i as int, j as int),
        num_val(s@, i as int, j as int) > i64::MAX ==> r as int > i64::MAX,
    decreases j - i,
{
    proof {
        lemma_num_val_nonneg(s@, i as int, j as int - 1);
    }
    if i >= j {
        0
    } else {
        let prev = num_val_sat(s, i, j - 1);
        if prev >= NUM_SAT {
            proof {
                assert(is_digit(s@[j as int - 1]));
                assert(num_val(s@, i as int, j as int - 1) * 10 >= num_val(
                    s@,
                    i as int,
                    j as int - 1,
                ));
            }
            NUM_SAT
        } else {
            proof {
                assert(is_digit(s@[j as int - 1]));
            }
            let d = (s[j - 1] as u32 - 48) as u64;
            let t: u128 = prev as u128 * 10 + d as u128;
            if t > i64::MAX as u128 {
                NUM_SAT
            } else {
                t as u64
            }
        }
    }
}

fn scan_token_x(s: &Vec<char>, i: usize) -> (r: Result<(Token, usize), ParseError>)
    requires
        i < s@.len(),
    ensures
        match r {
            Ok((t, j)) => i < j <= s@.len() && scan_token(s@, i as int) == Ok::<
                (TokenV, int),
                ParseError,
            >((token_v(t), j as int)),
            Err(e) => scan_token(s@, i as int) == Err::<(TokenV, int), ParseError>(e),
        },
{
    let n = s.len();
    let c = s[i];
    let cu = c as u32;
    if 48 <= cu && cu <= 57 {
        let j = scan_num_end_x(s, i);
        proof {
            lemma_scan_num_end_bounds(s@, i as int);
            lemma_scan_num_end_bounds(s@, i as int + 1);
            assert(scan_num_end(s@, i as int) == scan_num_end(s@, i as int + 1));
        }
        let v = num_val_sat(s, i, j);
        if v <= i64::MAX as u64 {
            Ok((Token::IntLit(v as i64), j))
        } else {
            Err(ParseError::NumberTooLarge)
        }
    } else if (65 <= cu && cu <= 90) || (97 <= cu && cu <= 122) || c == '_' {
        let j = scan_ident_end_x(s, i);
        proof {
            lemma_scan_ident_end_bounds(s@, i as int + 1);
            assert(scan_ident_end(s@, i as int) == scan_ident_end(s@, i as int + 1));
        }
        let w = subvec_chars(s, i, j);
        let ghost wv = s@.subrange(i as int, j as int);
        let n = w.len();
        // Keyword spellings are checked character by character.
        if n == 2 && w[0] == 'o' && w[1] == 'r' {
            proof {
                assert(wv =~= seq!['o', 'r']);
            }
            Ok((Token::KwOr, j))
        } else if n == 3 && w[0] == 'a' && w[1] == 'n' && w[2] == 'd' {
            proof {
                assert(wv =~= seq!['a', 'n', 'd']);
            }
            Ok((Token::KwAnd, j))
        } else if n == 3 && w[0] == 'n' && w[1] == 'o' && w[2] == 't' {
            proof {
                assert(wv =~= seq!['n', 'o', 't']);
            }
            Ok((Token::KwNot, j))
        } else if n == 4 && w[0] == 't' && w[1] == 'r' && w[2] == 'u' && w[3] == 'e' {
            proof {
                assert(wv =~= seq!['t', 'r', 'u', 'e']);
            }
            Ok((Token::KwTrue, j))
        } else if n == 5 && w[0] == 'f' && w[1] == 'a' && w[2] == 'l' && w[3] == 's' && w[4]
            == 'e' {
            proof {
                assert(wv =~= seq!['f', 'a', 'l', 's', 'e']);
            }
            Ok((Token::KwFalse, j))
        } else {
            proof {
                assert(wv != seq!['o', 'r'] && wv != seq!['a', 'n', 'd'] && wv != seq!['n', 'o', 't']
                    && wv != seq!['t', 'r', 'u', 'e'] && wv != seq!['f', 'a', 'l', 's', 'e']) by {
                    if wv == seq!['o', 'r'] {
                        assert(wv.len() == 2 && wv[0] == 'o' && wv[1] == 'r');
                    }
                    if wv == seq!['a', 'n', 'd'] {
                        assert(wv.len() == 3 && wv[0] == 'a' && wv[1] == 'n' && wv[2] == 'd');
                    }
                    if wv == seq!['n', 'o', 't'] {
                        assert(wv.len() == 3 && wv[0] == 'n' && wv[1] == 'o' && wv[2] == 't');
                    }
                    if wv == seq!['t', 'r', 'u', 'e'] {
                        assert(wv.len() == 4 && wv[0] == 't' && wv[1] == 'r' && wv[2] == 'u'
                            && wv[3] == 'e');
                    }
                    if wv == seq!['f', 'a', 'l', 's', 'e'] {
                        assert(wv.len() == 5 && wv[0] == 'f' && wv[1] == 'a' && wv[2] == 'l'
                            && wv[3] == 's' && wv[4] == 'e');
                    }
                }
            }
            Ok((Token::Ident(chars_to_string(&w)), j))
        }
    } else if c == '"' || c == '\'' {
        match scan_str_end_x(s, i + 1, c) {
            Some(j) => {
                let w = subvec_chars(s, i + 1, j);
                Ok((Token::StrLit(chars_to_string(&w)), j + 1))
            },
            None => Err(ParseError::UnterminatedString),
        }
    } else if c == '(' {
        Ok((Token::LParen, i + 1))
    } else if c == ')' {
        Ok((Token::RParen, i + 1))
    } else if c == '=' {
        if i + 1 < s.len() && s[i + 1] == '=' {
            Ok((Token::Op(CmpOp::Eq), i + 2))
        } else {
            Err(ParseError::UnexpectedChar)
        }
    } else if c == '!' {
        if i + 1 < s.len() && s[i + 1] == '=' {
            Ok((Token::Op(CmpOp::Ne), i + 2))
        } else {
            Err(ParseError::UnexpectedChar)
        }
    } else if c == '>' {
        if i + 1 < s.len() && s[i + 1] == '=' {
            Ok((Token::Op(CmpOp::Ge), i + 2))
        } else {
            Ok((Token::Op(CmpOp::Gt), i + 1))
        }
    } else if c == '<' {
        if i + 1 < s.len() && s[i + 1] == '=' {
            Ok((Token::Op(CmpOp::Le), i + 2))
        } else {
            Ok((Token::Op(CmpOp::Lt), i + 1))
        }
    } else {
        Err(ParseError::UnexpectedChar)
    }
}

fn tokenize_from(s: &Vec<char>, i: usize) -> (r: Result<Vec<Token>, ParseError>)
    requires
        i <= s@.len(),
    ensures
        match r {
            Ok(v) => tok_from(s@, i as int) == Ok::<Seq<TokenV>, ParseError>(tokens_v(v@)),
            Err(e) => tok_from(s@, i as int) == Err::<Seq<TokenV>, ParseError>(e),
        },
    decreases s@.len() - i,
{
    if i >= s.len() {
        let v: Vec<Token> = Vec::new();
        proof {
            assert(tokens_v(v@) =~= Seq::<TokenV>::empty());
        }
        Ok(v)
    } else {
        let c = s[i];
        if c == ' ' || c == '\t' || c == '\r' || c == '\n' {
            tokenize_from(s, i + 1)
        } else {
            match scan_token_x(s, i) {
                Ok((t, j)) => match tokenize_from(s, j) {
                    Ok(mut rest) => {
                        let ghost rest0 = rest@;
                        rest.insert(0, t);
                        proof {
                            assert(tokens_v(rest@) =~= seq![token_v(t)] + tokens_v(rest0));
                        }
                        Ok(rest)
                    },
                    Err(e) => Err(e),
                },
                Err(e) => Err(e),
            }
        }
    }
}

/// The syntax tree of an expression.
#[derive(Debug)]
pub enum Expr {
    Lit(Value),
    Ident(String),
    Cmp(CmpOp, Box<Expr>, Box<Expr>),
    Not(Box<Expr>),
    And(Box<Expr>, Box<Expr>),
    Or(Box<Expr>, Box<Expr>),
}

/// Mathematical model of an [`Expr`].
pub enum ExprV {
    Lit(ValueV),
    Ident(Seq<char>),
    Cmp(CmpOp, Box<ExprV>, Box<ExprV>),
    Not(Box<ExprV>),
    And(Box<ExprV>, Box<ExprV>),
    Or(Box<ExprV>, Box<ExprV>),
}

/// The model of a syntax tree.
pub open spec fn expr_v(e: Expr) -> ExprV
    decreases e,
{
    match e {
        Expr::Lit(v) => ExprV::Lit(v@),
        Expr::Ident(s) => ExprV::Ident(s@),
        Expr::Cmp(op, l, r) => ExprV::Cmp(op, Box::new(expr_v(*l)), Box::new(expr_v(*r))),
        Expr::Not(b) => ExprV::Not(Box::new(expr_v(*b))),
        Expr::And(l, r) => ExprV::And(Box::new(expr_v(*l)), Box::new(expr_v(*r))),
        Expr::Or(l, r) => ExprV::Or(Box::new(expr_v(*l)), Box::new(expr_v(*r))),
    }
}

/// The comparison operator a token stands for, if any.
pub open spec fn cmp_op_of(t: TokenV) -> Option<CmpOp> {
    match t {
        TokenV::Op(op) => Some(op),
        _ => None,
    }
}

/// Parse a parenthesized expression, literal or identifier at `i`.
pub open spec fn parse_primary_v(t: Seq<TokenV>, i: int) -> Result<(ExprV, int), ParseError>
    decreases t.len() - i, 0int,
    when 0 <= i <= t.len()
{
    if i >= t.len() {
        Err(ParseError::UnexpectedEnd)
    } else {
        match t[i] {
            TokenV::IntLit(n) => Ok((ExprV::Lit(ValueV::Int(n)), i + 1)),
            TokenV::StrLit(s) => Ok((ExprV::Lit(ValueV::Str(s)), i + 1)),
            TokenV::KwTrue => Ok((ExprV::Lit(ValueV::Bool(true)), i + 1)),
            TokenV::KwFalse => Ok((ExprV::Lit(ValueV::Bool(false)), i + 1)),
            TokenV::Ident(name) => Ok((ExprV::Ident(name), i + 1)),
            TokenV::LParen => match parse_or_v(t, i + 1) {
                Ok((e, j)) => if i + 1 < j <= t.len() {
                    if j < t.len() && t[j] == TokenV::RParen {
                        Ok((e, j + 1))
                    } else {
                        Err(ParseError::UnexpectedToken)
                    }
                } else {
                    Err(ParseError::UnexpectedToken)
                },
                Err(e) => Err(e),
            },
            _ => Err(ParseError::UnexpectedToken),
        }
    }
}

/// Parse at most one comparison between two primaries at `i`.
pub open spec fn parse_cmp_v(t: Seq<TokenV>, i: int) -> Result<(ExprV, int), ParseError>
    decreases t.len() - i, 1int,
    when 0 <= i <= t.len()
{
    match parse_primary_v(t, i) {
        Ok((l, j)) => if i < j <= t.len() {
            if j < t.len() && cmp_op_of(t[j]) is Some {
                match parse_primary_v(t, j + 1) {
                    Ok((r, k)) => Ok(
                        (ExprV::Cmp(cmp_op_of(t[j])->0, Box::new(l), Box::new(r)), k),
                    ),
                    Err(e) => Err(e),
                }
            } else {
                Ok((l, j))
            }
        } else {
            Err(ParseError::UnexpectedToken)
        },
        Err(e) => Err(e),
    }
}

/// Parse a run of `not` over a comparison at `i`.
pub open spec fn parse_not_v(t: Seq<TokenV>, i: int) -> Result<(ExprV, int), ParseError>
    decreases t.len() - i, 2int,
    when 0 <= i <= t.len()
{
    if i < t.len() && t[i] == TokenV::KwNot {
        match parse_not_v(t, i + 1) {
            Ok((e, j)) => Ok((ExprV::Not(Box::new(e)), j)),
            Err(e) => Err(e),
        }
    } else {
        parse_cmp_v(t, i)
    }
}

/// Parse a conjunction at `i`.
pub open spec fn parse_and_v(t: Seq<TokenV>, i: int) -> Result<(ExprV, int), ParseError>
    decreases t.len() - i, 3int,
    when 0 <= i <= t.len()
{
    match parse_not_v(t, i) {
        Ok((l, j)) => if i < j <= t.len() {
            if j < t.len() && t[j] == TokenV::KwAnd {
                match parse_and_v(t, j + 1) {
                    Ok((r, k)) => Ok((ExprV::And(Box::new(l), Box::new(r)), k)),
                    Err(e) => Err(e),
                }
            } else {
                Ok((l, j))
            }
        } else {
            Err(ParseError::UnexpectedToken)
        },
        Err(e) => Err(e),
    }
}

/// Parse a disjunction at `i`.
pub open spec fn parse_or_v(t: Seq<TokenV>, i: int) -> Result<(ExprV, int), ParseError>
    decreases t.len() - i, 4int,
    when 0 <= i <= t.len()
{
    match parse_and_v(t, i) {
        Ok((l, j)) => if i < j <= t.len() {
            if j < t.len() && t[j] == TokenV::KwOr {
                match parse_or_v(t, j + 1) {
                    Ok((r, k)) => Ok((ExprV::Or(Box::new(l), Box::new(r)), k)),
                    Err(e) => Err(e),
                }
            } else {
                Ok((l, j))
            }
        } else {
            Err(ParseError::UnexpectedToken)
        },
        Err(e) => Err(e),
    }
}

/// Parse a whole token sequence into a syntax tree.
pub open spec fn parse_v(t: Seq<TokenV>) -> Result<ExprV, ParseError> {
    match parse_or_v(t, 0) {
        Ok((e, j)) => if j == t.len() {
            Ok(e)
        } else {
            Err(ParseError::TrailingInput)
        },
        Err(e) => Err(e),
    }
}

proof fn lemma_parse_primary_pos(t: Seq<TokenV>, i: int)
    requires
        0 <= i <= t.len(),
    ensures
        match parse_primary_v(t, i) {
            Ok((e, j)) => i < j <= t.len(),
            Err(_) => true,
        },
    decreases t.len() - i, 0int,
{
    if i < t.len() && t[i] is LParen {
        lemma_parse_or_pos(t, i + 1);
    }
}

proof fn lemma_parse_cmp_pos(t: Seq<TokenV>, i: int)
    requires
        0 <= i <= t.len(),
    ensures
        match parse_cmp_v(t, i) {
            Ok((e, j)) => i < j <= t.len(),
            Err(_) => true,
        },
    decreases t.len() - i, 1int,
{
    lemma_parse_primary_pos(t, i);
    match parse_primary_v(t, i) {
        Ok((l, j)) => {
            if i < j <= t.len() && j < t.len() && cmp_op_of(t[j]) is Some {
                lemma_parse_primary_pos(t, j + 1);
            }
        },
        Err(_) => {},
    }
}

proof fn lemma_parse_not_pos(t: Seq<TokenV>, i: int)
    requires
        0 <= i <= t.len(),
    ensures
        match parse_not_v(t, i) {
            Ok((e, j)) => i < j <= t.len(),
            Err(_) => true,
        },
    decreases t.len() - i, 2int,
{
    if i < t.len() && t[i] == TokenV::KwNot {
        lemma_parse_not_pos(t, i + 1);
    } else {
        lemma_parse_cmp_pos(t, i);
    }
}

proof fn lemma_parse_and_pos(t: Seq<TokenV>, i: int)
    requires
        0 <= i <= t.len(),
    ensures
        match parse_and_v(t, i) {
            Ok((e, j)) => i < j <= t.len(),
            Err(_) => true,
        },
    decreases t.len() - i, 3int,
{
    lemma_parse_not_pos(t, i);
    match parse_not_v(t, i) {
        Ok((l, j)) => {
            if i < j <= t.len() && j < t.len() && t[j] == TokenV::KwAnd {
                lemma_parse_and_pos(t, j + 1);
            }
        },
        Err(_) => {},
    }
}

proof fn lemma_parse_or_pos(t: Seq<TokenV>, i: int)
    requires
        0 <= i <= t.len(),
    ensures
        match parse_or_v(t, i) {
            Ok((e, j)) => i < j <= t.len(),
            Err(_) => true,
        },
    decreases t.len() - i, 4int,
{
    lemma_parse_and_pos(t, i);
    match parse_and_v(t, i) {
        Ok((l, j)) => {
            if i < j <= t.len() && j < t.len() && t[j] == TokenV::KwOr {
                lemma_parse_or_pos(t, j + 1);
            }
        },
        Err(_) => {},
    }
}

fn parse_primary(t: &Vec<Token>, i: usize) -> (r: Result<(Expr, usize), ParseError>)
    requires
        i <= t@.len(),
    ensures
        match r {
            Ok((e, j)) => i < j <= t@.len() && parse_primary_v(tokens_v(t@), i as int) == Ok::<
                (ExprV, int),
                ParseError,
            >((expr_v(e), j as int)),
            Err(er) => parse_primary_v(tokens_v(t@), i as int) == Err::<(ExprV, int), ParseError>(
                er,
            ),
        },
    decreases t@.len() - i, 0int,
{
    let ghost tv = tokens_v(t@);
    let n = t.len();
    if i >= n {
        Err(ParseError::UnexpectedEnd)
    } else {
        proof {
            assert(tv[i as int] == token_v(t@[i as int]));
        }
        match &t[i] {
            Token::IntLit(v) => Ok((Expr::Lit(Value::Int(*v)), i + 1)),
            Token::StrLit(s) => Ok((Expr::Lit(Value::Str(s.clone())), i + 1)),
            Token::KwTrue => Ok((Expr::Lit(Value::Bool(true)), i + 1)),
            Token::KwFalse => Ok((Expr::Lit(Value::Bool(false)), i + 1)),
            Token::Ident(s) => Ok((Expr::Ident(s.clone()), i + 1)),
            Token::LParen => {
                match parse_or(t, i + 1) {
                    Ok((e, j)) => {
                        proof {
                            if j < n {
                                assert(tv[j as int] == token_v(t@[j as int]));
                            }
                        }
                        if j < n {
                            if matches!(&t[j], Token::RParen) {
                                Ok((e, j + 1))
                            } else {
                                Err(ParseError::UnexpectedToken)
                            }
                        } else {
                            Err(ParseError::UnexpectedToken)
                        }
                    },
                    Err(er) => Err(er),
                }
            },
            _ => Err(ParseError::UnexpectedToken),
        }
    }
}

fn parse_cmp(t: &Vec<Token>, i: usize) -> (r: Result<(Expr, usize), ParseError>)
    requires
        i <= t@.len(),
    ensures
        match r {
            Ok((e, j)) => i < j <= t@.len() && parse_cmp_v(tokens_v(t@), i as int) == Ok::<
                (ExprV, int),
                ParseError,
            >((expr_v(e), j as int)),
            Err(er) => parse_cmp_v(tokens_v(t@), i as int) == Err::<(ExprV, int), ParseError>(er),
        },
    decreases t@.len() - i, 1int,
{
    let ghost tv = tokens_v(t@);
    let n = t.len();
    match parse_primary(t, i) {
        Ok((l, j)) => {
            proof {
                if j < n {
                    assert(tv[j as int] == token_v(t@[j as int]));
                }
            }
            if j < n {
                let op_opt = match &t[j] {
                    Token::Op(op) => Some(*op),
                    _ => None,
                };
                match op_opt {
                    Some(op) => match parse_primary(t, j + 1) {
                        Ok((r2, k)) => Ok((Expr::Cmp(op, Box::new(l), Box::new(r2)), k)),
                        Err(er) => Err(er),
                    },
                    None => Ok((l, j)),
                }
            } else {
                Ok((l, j))
            }
        },
        Err(er) => Err(er),
    }
}

fn parse_not(t: &Vec<Token>, i: usize) -> (r: Result<(Expr, usize), ParseError>)
    requires
        i <= t@.len(),
    ensures
        match r {
            Ok((e, j)) => i < j <= t@.len() && parse_not_v(tokens_v(t@), i as int) == Ok::<
                (ExprV, int),
                ParseError,
            >((expr_v(e), j as int)),
            Err(er) => parse_not_v(tokens_v(t@), i as int) == Err::<(ExprV, int), ParseError>(er),
        },
    decreases t@.len() - i, 2int,
{
    let ghost tv = tokens_v(t@);
    let n = t.len();
    proof {
        if i < n {
            assert(tv[i as int] == token_v(t@[i as int]));
        }
    }
    if i < n && matches!(&t[i], Token::KwNot) {
        match parse_not(t, i + 1) {
            Ok((e, j)) => Ok((Expr::Not(Box::new(e)), j)),
            Err(er) => Err(er),
        }
    } else {
        parse_cmp(t, i)
    }
}

fn parse_and(t: &Vec<Token>, i: usize) -> (r: Result<(Expr, usize), ParseError>)
    requires
        i <= t@.len(),
    ensures
        match r {
            Ok((e, j)) => i < j <= t@.len() && parse_and_v(tokens_v(t@), i as int) == Ok::<
                (ExprV, int),
                ParseError,
            >((expr_v(e), j as int)),
            Err(er) => parse_and_v(tokens_v(t@), i as int) == Err::<(ExprV, int), ParseError>(er),
        },
    decreases t@.len() - i, 3int,
{
    let ghost tv = tokens_v(t@);
    let n = t.len();
    match parse_not(t, i) {
        Ok((l, j)) => {
            proof {
                if j < n {
                    assert(tv[j as int] == token_v(t@[j as int]));
                }
            }
            if j < n && matches!(&t[j], Token::KwAnd) {
                match parse_and(t, j + 1) {
                    Ok((r2, k)) => Ok((Expr::And(Box::new(l), Box::new(r2)), k)),
                    Err(er) => Err(er),
                }
            } else {
                Ok((l, j))
            }
        },
        Err(er) => Err(er),
    }
}

fn parse_or(t: &Vec<Token>, i: usize) -> (r: Result<(Expr, usize), ParseError>)
    requires
        i <= t@.len(),
    ensures
        match r {
            Ok((e, j)) => i < j <= t@.len() && parse_or_v(tokens_v(t@), i as int) == Ok::<
                (ExprV, int),
                ParseError,
            >((expr_v(e), j as int)),
            Err(er) => parse_or_v(tokens_v(t@), i as int) == Err::<(ExprV, int), ParseError>(er),
        },
    decreases t@.len() - i, 4int,
{
    let ghost tv = tokens_v(t@);
    let n = t.len();
    match parse_and(t, i) {
        Ok((l, j)) => {
            proof {
                if j < n {
                    assert(tv[j as int] == token_v(t@[j as int]));
                }
            }
            if j < n && matches!(&t[j], Token::KwOr) {
                match parse_or(t, j + 1) {
                    Ok((r2, k)) => Ok((Expr::Or(Box::new(l), Box::new(r2)), k)),
                    Err(er) => Err(er),
                }
            } else {
                Ok((l, j))
            }
        },
        Err(er) => Err(er),
    }
}

/// Parse a token sequence into a syntax tree.
pub fn parse(t: &Vec<Token>) -> (r: Result<Expr, ParseError>)
    ensures
        match r {
            Ok(e) => parse_v(tokens_v(t@)) == Ok::<ExprV, ParseError>(expr_v(e)),
            Err(er) => parse_v(tokens_v(t@)) == Err::<ExprV, ParseError>(er),
        },
{
    match parse_or(t, 0) {
        Ok((e, j)) => if j == t.len() {
            Ok(e)
        } else {
            Err(ParseError::TrailingInput)
        },
        Err(er) => Err(er),
    }
}

/// The outcome of one comparison: a boolean value, or a type-mismatch error
/// for operands that are not both integers or both strings.
pub open spec fn cmp_vals(op: CmpOp, a: ValueV, b: ValueV) -> Result<ValueV, EvalError> {
    match (a, b) {
        (ValueV::Int(x), ValueV::Int(y)) => Ok(
            ValueV::Bool(
                match op {
                    CmpOp::Eq => x == y,
                    CmpOp::Ne => x != y,
                    CmpOp::Gt => x > y,
                    CmpOp::Ge => x >= y,
                    CmpOp::Lt => x < y,
                    CmpOp::Le => x <= y,
                },
            ),
        ),
        (ValueV::Str(x), ValueV::Str(y)) => Ok(
            ValueV::Bool(
                match op {
                    CmpOp::Eq => x == y,
                    CmpOp::Ne => x != y,
                    CmpOp::Gt => lex_lt(y, x),
                    CmpOp::Ge => !lex_lt(x, y),
                    CmpOp::Lt => lex_lt(x, y),
                    CmpOp::Le => !lex_lt(y, x),
                },
            ),
        ),
        _ => Err(EvalError::TypeMismatch),
    }
}

/// Evaluate a syntax tree against a metrics map.
pub open spec fn eval_v(e: ExprV, m: Map<Seq<char>, ValueV>) -> Result<ValueV, EvalError>
    decreases e,
{
    match e {
        ExprV::Lit(v) => Ok(v),
        ExprV::Ident(name) => if m.contains_key(name) {
            Ok(m[name])
        } else {
            Err(EvalError::UnknownMetric)
        },
        ExprV::Not(b) => match eval_v(*b, m) {
            Ok(v) => Ok(ValueV::Bool(!as_bool_v(v))),
            Err(e) => Err(e),
        },
        ExprV::And(l, r) => match eval_v(*l, m) {
            Ok(lv) => if !as_bool_v(lv) {
                Ok(ValueV::Bool(false))
            } else {
                match eval_v(*r, m) {
                    Ok(rv) => Ok(ValueV::Bool(as_bool_v(rv))),
                    Err(e) => Err(e),
                }
            },
            Err(e) => Err(e),
        },
        ExprV::Or(l, r) => match eval_v(*l, m) {
            Ok(lv) => if as_bool_v(lv) {
                Ok(ValueV::Bool(true))
            } else {
                match eval_v(*r, m) {
                    Ok(rv) => Ok(ValueV::Bool(as_bool_v(rv))),
                    Err(e) => Err(e),
                }
            },
            Err(e) => Err(e),
        },
        ExprV::Cmp(op, l, r) => match eval_v(*l, m) {
            Ok(lv) => match eval_v(*r, m) {
                Ok(rv) => cmp_vals(op, lv, rv),
                Err(e) => Err(e),
            },
            Err(e) => Err(e),
        },
    }
}

fn cmp_values(op: CmpOp, a: &Value, b: &Value) -> (r: Result<Value, EvalError>)
    ensures
        match r {
            Ok(v) => cmp_vals(op, a@, b@) == Ok::<ValueV, EvalError>(v@),
            Err(e) => cmp_vals(op, a@, b@) == Err::<ValueV, EvalError>(e),
        },
{
    match (a, b) {
        (Value::Int(x), Value::Int(y)) => Ok(
            Value::Bool(
                match op {
                    CmpOp::Eq => *x == *y,
                    CmpOp::Ne => *x != *y,
                    CmpOp::Gt => *x > *y,
                    CmpOp::Ge => *x >= *y,
                    CmpOp::Lt => *x < *y,
                    CmpOp::Le => *x <= *y,
                },
            ),
        ),
        (Value::Str(x), Value::Str(y)) => Ok(
            Value::Bool(
                match op {
                    CmpOp::Eq => x.eq(y),
                    CmpOp::Ne => !x.eq(y),
                    CmpOp::Gt => lex_lt_str(y, x),
                    CmpOp::Ge => !lex_lt_str(x, y),
                    CmpOp::Lt => lex_lt_str(x, y),
                    CmpOp::Le => !lex_lt_str(y, x),
                },
            ),
        ),
        _ => Err(EvalError::TypeMismatch),
    }
}

/// Evaluate a syntax tree against a metrics map, resolving identifiers by
/// lookup, coercing `not`/`and`/`or` operands to booleans and
/// short-circuiting `and`/`or` left to right.
pub fn evaluate(e: &Expr, m: &MetricsMap) -> (r: Result<Value, EvalError>)
    ensures
        match r {
            Ok(v) => eval_v(expr_v(*e), m@) == Ok::<ValueV, EvalError>(v@),
            Err(er) => eval_v(expr_v(*e), m@) == Err::<ValueV, EvalError>(er),
        },
    decreases *e,
{
    match e {
        Expr::Lit(v) => Ok(v.clone()),
        Expr::Ident(name) => match m.get(name) {
            Some(v) => Ok(v.clone()),
            None => Err(EvalError::UnknownMetric),
        },
        Expr::Not(b) => match evaluate(b, m) {
            Ok(v) => Ok(Value::Bool(!v.as_bool())),
            Err(er) => Err(er),
        },
        Expr::And(l, r) => match evaluate(l, m) {
            Ok(lv) => if !lv.as_bool() {
                Ok(Value::Bool(false))
            } else {
                match evaluate(r, m) {
                    Ok(rv) => Ok(Value::Bool(rv.as_bool())),
                    Err(er) => Err(er),
                }
            },
            Err(er) => Err(er),
        },
        Expr::Or(l, r) => match evaluate(l, m) {
            Ok(lv) => if lv.as_bool() {
                Ok(Value::Bool(true))
            } else {
                match evaluate(r, m) {
                    Ok(rv) => Ok(Value::Bool(rv.as_bool())),
                    Err(er) => Err(er),
                }
            },
            Err(er) => Err(er),
        },
        Expr::Cmp(op, l, r) => match evaluate(l, m) {
            Ok(lv) => match evaluate(r, m) {
                Ok(rv) => cmp_values(*op, &lv, &rv),
                Err(er) => Err(er),
            },
            Err(er) => Err(er),
        },
    }
}

/// The outcome of parsing and evaluating expression text against a metrics
/// map: a parse error outside, an evaluation error inside.
pub open spec fn calc_v(s: Seq<char>, m: Map<Seq<char>, ValueV>) -> Result<
    Result<ValueV, EvalError>,
    ParseError,
> {
    match tokens_of(s) {
        Ok(toks) => match parse_v(toks) {
            Ok(e) => Ok(eval_v(e, m)),
            Err(er) => Err(er),
        },
        Err(er) => Err(er),
    }
}

/// Parse and evaluate expression text against a metrics map. Parse errors
/// come in the outer `Result`, evaluation errors in the inner one.
pub fn calculate(expression: &str, metadata: &MetricsMap) -> (r: Result<
    Result<Value, EvalError>,
    ParseError,
>)
    ensures
        match r {
            Ok(Ok(v)) => calc_v(expression@, metadata@) == Ok::<
                Result<ValueV, EvalError>,
                ParseError,
            >(Ok(v@)),
            Ok(Err(e)) => calc_v(expression@, metadata@) == Ok::<
                Result<ValueV, EvalError>,
                ParseError,
            >(Err(e)),
            Err(e) => calc_v(expression@, metadata@) == Err::<
                Result<ValueV, EvalError>,
                ParseError,
            >(e),
        },
{
    match tokenize(expression) {
        Ok(toks) => match parse(&toks) {
            Ok(ast) => Ok(evaluate(&ast, metadata)),
            Err(er) => Err(er),
        },
        Err(er) => Err(er),
    }
}

/// The boolean a rule expression settles to: its value coerced to a
/// boolean, or `false` on any parse or evaluation failure.
pub open spec fn calc_bool_v(s: Seq<char>, m: Map<Seq<char>, ValueV>) -> bool {
    match calc_v(s, m) {
        Ok(Ok(v)) => as_bool_v(v),
        _ => false,
    }
}

/// Evaluate a rule expression to a boolean; any parse or evaluation failure
/// makes the rule false rather than fatal.
pub fn calculate_bool(expression: &str, metadata: &MetricsMap) -> (r: bool)
    ensures
        r == calc_bool_v(expression@, metadata@),
{
    match calculate(expression, metadata) {
        Ok(Ok(value)) => value.as_bool(),
        Ok(Err(_)) => false,
        Err(_) => false,
    }
}

/// Turn expression text into tokens.
pub fn tokenize(expression: &str) -> (r: Result<Vec<Token>, ParseError>)
    ensures
        match r {
            Ok(v) => tokens_of(expression@) == Ok::<Seq<TokenV>, ParseError>(tokens_v(v@)),
            Err(e) => tokens_of(expression@) == Err::<Seq<TokenV>, ParseError>(e),
        },
{
    let chars = str_to_chars(expression);
    tokenize_from(&chars, 0)
}

} // verus!
