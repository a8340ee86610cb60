//! The parser: tokens to an abstract syntax tree, by recursive descent with
//! precedence climbing.

use vstd::prelude::*;
use vstd::slice::slice_index_get;
use crate::tokenizer::{Keyword, Token, TokenV};
use std::rc::Rc;

verus! {

broadcast use vstd::std_specs::vec::axiom_vec_index_decreases, vstd::seq::axiom_seq_index_decreases, vstd::seq::axiom_seq_subrange_decreases;

/// The syntax tree. A node owns its children outright: the tree has no
/// sharing and no cycles. The pieces of a function definition sit behind
/// `Rc` so that registering the function in a context can keep them without
/// copying the tree.
#[derive(Debug)]
pub enum AST {
    Lines(Vec<Option<AST>>),
    Number(String),
    Variable(String),
    Add(Box<AST>, Box<AST>),
    Subtract(Box<AST>, Box<AST>),
    Multiply(Box<AST>, Box<AST>),
    Divide(Box<AST>, Box<AST>),
    Modulo(Box<AST>, Box<AST>),
    Power(Box<AST>, Box<AST>),
    UnaryMinus(Box<AST>),
    Brackets(Box<AST>),
    Assign(String, Box<AST>),
    FunctionCall(String, Vec<AST>),
    FunctionDefinition { name: String, arg_names: Rc<Vec<String>>, body: Rc<AST> },
    IfStatement { condition: Box<AST>, body: Box<AST>, else_body: Option<Box<AST>> },
}

#[derive(Debug, Clone)]
pub enum ParseError {
    UnexpectedToken(Token),
    ExpectedToken(Token),
    ExpectedIdentifier,
    NoTokensLeft,
}

/// The mathematical value of a syntax tree: each text as its character
/// sequence.
pub enum ASTV {
    Lines(Seq<Option<ASTV>>),
    Number(Seq<char>),
    Variable(Seq<char>),
    Add(Box<ASTV>, Box<ASTV>),
    Subtract(Box<ASTV>, Box<ASTV>),
    Multiply(Box<ASTV>, Box<ASTV>),
    Divide(Box<ASTV>, Box<ASTV>),
    Modulo(Box<ASTV>, Box<ASTV>),
    Power(Box<ASTV>, Box<ASTV>),
    UnaryMinus(Box<ASTV>),
    Brackets(Box<ASTV>),
    Assign(Seq<char>, Box<ASTV>),
    FunctionCall(Seq<char>, Seq<ASTV>),
    FunctionDefinition { name: Seq<char>, arg_names: Seq<Seq<char>>, body: Box<ASTV> },
    IfStatement { condition: Box<ASTV>, body: Box<ASTV>, else_body: Option<Box<ASTV>> },
}

pub open spec fn names_view(s: Seq<String>) -> Seq<Seq<char>> {
    s.map_values(|n: String| n@)
}

pub open spec fn ast_view(a: AST) -> ASTV
    decreases a, 1int,
{
    match a {
        AST::Lines(ls) => ASTV::Lines(lines_view(ls@)),
        AST::Number(s) => ASTV::Number(s@),
        AST::Variable(s) => ASTV::Variable(s@),
        AST::Add(l, r) => ASTV::Add(Box::new(ast_view(*l)), Box::new(ast_view(*r))),
        AST::Subtract(l, r) => ASTV::Subtract(Box::new(ast_view(*l)), Box::new(ast_view(*r))),
        AST::Multiply(l, r) => ASTV::Multiply(Box::new(ast_view(*l)), Box::new(ast_view(*r))),
        AST::Divide(l, r) => ASTV::Divide(Box::new(ast_view(*l)), Box::new(ast_view(*r))),
        AST::Modulo(l, r) => ASTV::Modulo(Box::new(ast_view(*l)), Box::new(ast_view(*r))),
        AST::Power(l, r) => ASTV::Power(Box::new(ast_view(*l)), Box::new(ast_view(*r))),
        AST::UnaryMinus(e) => ASTV::UnaryMinus(Box::new(ast_view(*e))),
        AST::Brackets(e) => ASTV::Brackets(Box::new(ast_view(*e))),
        AST::Assign(n, e) => ASTV::Assign(n@, Box::new(ast_view(*e))),
        AST::FunctionCall(n, args) => ASTV::FunctionCall(n@, args_view(args@)),
        AST::FunctionDefinition { name, arg_names, body } => ASTV::FunctionDefinition {
            name: name@,
            arg_names: names_view(arg_names@),
            body: Box::new(ast_view(*body)),
        },
        AST::IfStatement { condition, body, else_body } => ASTV::IfStatement {
            condition: Box::new(ast_view(*condition)),
            body: Box::new(ast_view(*body)),
            else_body: match else_body {
                Some(e) => Some(Box::new(ast_view(*e))),
                None => None,
            },
        },
    }
}

pub open spec fn lines_view(s: Seq<Option<AST>>) -> Seq<Option<ASTV>>
    decreases s, 0int,
{
    if s.len() == 0 {
        Seq::empty()
    } else {
        lines_view(s.drop_last()).push(
            match s.last() {
                Some(a) => Some(ast_view(a)),
                None => None,
            },
        )
    }
}

pub open spec fn args_view(s: Seq<AST>) -> Seq<ASTV>
    decreases s, 0int,
{
    if s.len() == 0 {
        Seq::empty()
    } else {
        args_view(s.drop_last()).push(ast_view(s.last()))
    }
}

pub proof fn lemma_lines_view(s: Seq<Option<AST>>)
    ensures
        lines_view(s).len() == s.len(),
        forall|i: int| 0 <= i < s.len() ==> #[trigger] lines_view(s)[i] == (match s[i] {
            Some(a) => Some(ast_view(a)),
            None => None::<ASTV>,
        }),
    decreases s.len(),
{
    if s.len() > 0 {
        lemma_lines_view(s.drop_last());
        assert(forall|i: int| 0 <= i < s.len() - 1 ==> s.drop_last()[i] == s[i]);
    }
}

pub proof fn lemma_args_view(s: Seq<AST>)
    ensures
        args_view(s).len() == s.len(),
        forall|i: int| 0 <= i < s.len() ==> #[trigger] args_view(s)[i] == ast_view(s[i]),
    decreases s.len(),
{
    if s.len() > 0 {
        lemma_args_view(s.drop_last());
        assert(forall|i: int| 0 <= i < s.len() - 1 ==> s.drop_last()[i] == s[i]);
    }
}

pub proof fn lemma_lines_view_push(s: Seq<Option<AST>>, x: Option<AST>)
    ensures
        lines_view(s.push(x)) == lines_view(s).push(
            match x {
                Some(a) => Some(ast_view(a)),
                None => None,
            },
        ),
{
    assert(s.push(x).drop_last() =~= s);
    assert(s.push(x).last() == x);
}

pub proof fn lemma_args_view_push(s: Seq<AST>, x: AST)
    ensures
        args_view(s.push(x)) == args_view(s).push(ast_view(x)),
{
    assert(s.push(x).drop_last() =~= s);
    assert(s.push(x).last() == x);
}

pub proof fn lemma_names_view_push(s: Seq<String>, x: String)
    ensures
        names_view(s.push(x)) == names_view(s).push(x@),
{
    assert(names_view(s.push(x)) =~= names_view(s).push(x@));
}

/// The mathematical value of a parse error.
pub enum ParseErrorV {
    UnexpectedToken(TokenV),
    ExpectedToken(TokenV),
    ExpectedIdentifier,
    NoTokensLeft,
}

pub open spec fn perr_view(e: ParseError) -> ParseErrorV {
    match e {
        ParseError::UnexpectedToken(t) => ParseErrorV::UnexpectedToken(t@),
        ParseError::ExpectedToken(t) => ParseErrorV::ExpectedToken(t@),
        ParseError::ExpectedIdentifier => ParseErrorV::ExpectedIdentifier,
        ParseError::NoTokensLeft => ParseErrorV::NoTokensLeft,
    }
}

/// The views of a token sequence.
pub open spec fn tv(ts: Seq<Token>) -> Seq<TokenV> {
    ts.map_values(|t: Token| t@)
}

/// An expression node: what `parse_expression` may return.
pub open spec fn is_expr(a: AST) -> bool
    decreases a, 0int,
{
    match a {
        AST::Number(_) => true,
        AST::Variable(_) => true,
        AST::Add(l, r) => is_expr(*l) && is_expr(*r),
        AST::Subtract(l, r) => is_expr(*l) && is_expr(*r),
        AST::Multiply(l, r) => is_expr(*l) && is_expr(*r),
        AST::Divide(l, r) => is_expr(*l) && is_expr(*r),
        AST::Modulo(l, r) => is_expr(*l) && is_expr(*r),
        AST::Power(l, r) => is_expr(*l) && is_expr(*r),
        AST::UnaryMinus(e) => is_expr(*e),
        AST::Brackets(e) => is_expr(*e),
        AST::FunctionCall(_, args) => forall|i: int|
            0 <= i < args@.len() ==> is_expr(#[trigger] args@[i]),
        _ => false,
    }
}

/// A statement node: one line of a block.
pub open spec fn is_stmt(a: AST) -> bool
    decreases a, 1int,
{
    match a {
        AST::Assign(_, e) => is_expr(*e),
        AST::FunctionDefinition { body, .. } => is_block(*body),
        AST::IfStatement { condition, body, else_body } => is_expr(*condition) && is_block(*body)
            && (else_body matches Some(e) ==> is_block(*e)),
        _ => is_expr(a),
    }
}

/// A block node: a `Lines` sequence of statements and blanks.
pub open spec fn is_block(a: AST) -> bool
    decreases a, 0int,
{
    match a {
        AST::Lines(ls) => forall|i: int|
            0 <= i < ls@.len() ==> ((#[trigger] ls@[i]) matches Some(st) ==> is_stmt(st)),
        _ => false,
    }
}

/// Every token from `from` on is a newline.
pub open spec fn all_newlines(toks: Seq<Token>, from: int) -> bool {
    forall|k: int| from <= k < toks.len() ==> (#[trigger] toks[k])@ is Newline
}

/// The tokens an operand may begin with: a minus chain, a group, a name or
/// a literal.
pub open spec fn can_start_operand(t: TokenV) -> bool {
    t is Minus || t is LParen || t is Identifier || t is Number
}

pub open spec fn is_binary_op_v(t: TokenV) -> bool {
    t is Plus || t is Minus || t is Star || t is Slash || t is Percent || t is Caret
}

/// Binding strength of a binary operator: `+ -` lowest, then `* / %`, then
/// `^`; a chain of leading minus signs binds tightest of all.
pub open spec fn spec_precedence(t: TokenV) -> int {
    if t is Plus || t is Minus {
        1
    } else if t is Star || t is Slash || t is Percent {
        2
    } else if t is Caret {
        3
    } else {
        0
    }
}

/// Token equality, with the texts of number and identifier tokens compared
/// as character sequences.
pub open spec fn tok_eq(a: TokenV, b: TokenV) -> bool {
    match (a, b) {
        (TokenV::Number(x), TokenV::Number(y)) => x == y,
        (TokenV::Identifier(x), TokenV::Identifier(y)) => x == y,
        (TokenV::Keyword(x), TokenV::Keyword(y)) => x == y,
        (TokenV::Plus, TokenV::Plus) => true,
        (TokenV::Minus, TokenV::Minus) => true,
        (TokenV::Star, TokenV::Star) => true,
        (TokenV::Slash, TokenV::Slash) => true,
        (TokenV::Percent, TokenV::Percent) => true,
        (TokenV::Caret, TokenV::Caret) => true,
        (TokenV::LParen, TokenV::LParen) => true,
        (TokenV::RParen, TokenV::RParen) => true,
        (TokenV::LBrace, TokenV::LBrace) => true,
        (TokenV::RBrace, TokenV::RBrace) => true,
        (TokenV::Comma, TokenV::Comma) => true,
        (TokenV::Equal, TokenV::Equal) => true,
        (TokenV::Newline, TokenV::Newline) => true,
        _ => false,
    }
}

fn keyword_same(a: &Keyword, b: &Keyword) -> (r: bool)
    ensures
        r == (a == b),
{
    match (a, b) {
        (Keyword::Fn, Keyword::Fn) => true,
        (Keyword::If, Keyword::If) => true,
        (Keyword::Else, Keyword::Else) => true,
        _ => false,
    }
}

fn token_same(a: &Token, b: &Token) -> (r: bool)
    ensures
        r == tok_eq(a@, b@),
{
    match (a, b) {
        (Token::Number(x), Token::Number(y)) => x.eq(y),
        (Token::Identifier(x), Token::Identifier(y)) => x.eq(y),
        (Token::Keyword(x), Token::Keyword(y)) => keyword_same(x, y),
        (Token::Plus, Token::Plus) => true,
        (Token::Minus, Token::Minus) => true,
        (Token::Star, Token::Star) => true,
        (Token::Slash, Token::Slash) => true,
        (Token::Percent, Token::Percent) => true,
        (Token::Caret, Token::Caret) => true,
        (Token::LParen, Token::LParen) => true,
        (Token::RParen, Token::RParen) => true,
        (Token::LBrace, Token::LBrace) => true,
        (Token::RBrace, Token::RBrace) => true,
        (Token::Comma, Token::Comma) => true,
        (Token::Equal, Token::Equal) => true,
        (Token::Newline, Token::Newline) => true,
        _ => false,
    }
}

fn is_binary_token(t: &Token) -> (r: bool)
    ensures
        r == is_binary_op_v(t@),
{
    matches!(t, Token::Plus | Token::Minus | Token::Star | Token::Slash | Token::Percent
        | Token::Caret)
}

/// A copy of a token with the same text.
fn clone_token(t: &Token) -> (r: Token)
    ensures
        r@ == t@,
{
    match t {
        Token::Number(s) => Token::Number(s.clone()),
        Token::Identifier(s) => Token::Identifier(s.clone()),
        Token::Keyword(k) => Token::Keyword(*k),
        Token::Plus => Token::Plus,
        Token::Minus => Token::Minus,
        Token::Star => Token::Star,
        Token::Slash => Token::Slash,
        Token::Percent => Token::Percent,
        Token::Caret => Token::Caret,
        Token::LParen => Token::LParen,
        Token::RParen => Token::RParen,
        Token::LBrace => Token::LBrace,
        Token::RBrace => Token::RBrace,
        Token::Comma => Token::Comma,
        Token::Equal => Token::Equal,
        Token::Newline => Token::Newline,
    }
}

/// A fresh copy of a binary operator token; such tokens carry no text.
fn copy_op(t: &Token) -> (r: Token)
    requires
        is_binary_op_v(t@),
    ensures
        r@ == t@,
{
    match t {
        Token::Plus => Token::Plus,
        Token::Minus => Token::Minus,
        Token::Star => Token::Star,
        Token::Slash => Token::Slash,
        Token::Percent => Token::Percent,
        _ => Token::Caret,
    }
}


/// Outcome of parsing one construct at the mathematical level: the node, or
/// the error, and the position after it.
pub struct ParseOutcome {
    pub result: Result<ASTV, ParseErrorV>,
    pub pos: int,
}

/// Outcome of parsing a call's argument list.
pub struct ArgsParseOutcome {
    pub result: Result<Seq<ASTV>, ParseErrorV>,
    pub pos: int,
}

/// Outcome of parsing a parameter-name list, which never fails by itself.
pub struct NamesOutcome {
    pub names: Seq<Seq<char>>,
    pub pos: int,
}

pub open spec fn sp_peek(ts: Seq<TokenV>, pos: int) -> Option<TokenV> {
    if 0 <= pos < ts.len() {
        Some(ts[pos])
    } else {
        None
    }
}

pub open spec fn sp_expect(ts: Seq<TokenV>, pos: int, t: TokenV) -> Result<int, ParseErrorV> {
    if 0 <= pos < ts.len() && tok_eq(ts[pos], t) {
        Ok(pos + 1)
    } else {
        Err(ParseErrorV::ExpectedToken(t))
    }
}

pub open spec fn sp_expect_ident(ts: Seq<TokenV>, pos: int) -> Result<
    (Seq<char>, int),
    ParseErrorV,
> {
    if 0 <= pos < ts.len() {
        match ts[pos] {
            TokenV::Identifier(n) => Ok((n, pos + 1)),
            _ => Err(ParseErrorV::ExpectedIdentifier),
        }
    } else {
        Err(ParseErrorV::ExpectedIdentifier)
    }
}

pub open spec fn sp_skip_nl(ts: Seq<TokenV>, pos: int) -> int
    decreases ts.len() - pos when 0 <= pos <= ts.len()
{
    if pos < ts.len() && ts[pos] is Newline {
        sp_skip_nl(ts, pos + 1)
    } else {
        pos
    }
}

pub open spec fn sp_combine(op: TokenV, lhs: ASTV, rhs: ASTV) -> Result<ASTV, ParseErrorV> {
    match op {
        TokenV::Plus => Ok(ASTV::Add(Box::new(lhs), Box::new(rhs))),
        TokenV::Minus => Ok(ASTV::Subtract(Box::new(lhs), Box::new(rhs))),
        TokenV::Star => Ok(ASTV::Multiply(Box::new(lhs), Box::new(rhs))),
        TokenV::Slash => Ok(ASTV::Divide(Box::new(lhs), Box::new(rhs))),
        TokenV::Percent => Ok(ASTV::Modulo(Box::new(lhs), Box::new(rhs))),
        TokenV::Caret => Ok(ASTV::Power(Box::new(lhs), Box::new(rhs))),
        _ => Err(ParseErrorV::UnexpectedToken(op)),
    }
}

/// The grammar at the mathematical level, mirroring the recursive descent:
/// an operand preceded by a minus chain, a parenthesized group, a call, or a
/// leaf, combined with one following operator of at least `min_prec`. Each
/// recursion into a sub-parse is guarded by the progress it must have made;
/// the guards never fire on positions the verified parser produces.
pub open spec fn sp_expr_min(ts: Seq<TokenV>, pos: int, min_prec: int) -> ParseOutcome
    decreases ts.len() - pos, 5int when 0 <= pos <= ts.len()
{
    match sp_peek(ts, pos) {
        None => ParseOutcome { result: Err(ParseErrorV::NoTokensLeft), pos },
        Some(t) => {
            if t is Minus {
                let o = sp_expr_min(ts, pos + 1, 4);
                match o.result {
                    Err(_) => o,
                    Ok(a) => ParseOutcome {
                        result: Ok(ASTV::UnaryMinus(Box::new(a))),
                        pos: o.pos,
                    },
                }
            } else if t is LParen {
                let o = sp_expression(ts, pos + 1);
                match o.result {
                    Err(_) => o,
                    Ok(inner) => match sp_expect(ts, o.pos, TokenV::RParen) {
                        Err(e) => ParseOutcome { result: Err(e), pos: o.pos },
                        Ok(p2) => ParseOutcome {
                            result: Ok(ASTV::Brackets(Box::new(inner))),
                            pos: p2,
                        },
                    },
                }
            } else if t is Identifier || t is Number {
                let is_call = sp_peek(ts, pos + 1) matches Some(t2) && t2 is LParen;
                if is_call {
                    sp_fcall(ts, pos)
                } else {
                    let leaf = match t {
                        TokenV::Identifier(n) => ASTV::Variable(n),
                        TokenV::Number(n) => ASTV::Number(n),
                        _ => vstd::pervasive::arbitrary(),
                    };
                    let p1 = pos + 1;
                    match sp_peek(ts, p1) {
                        None => ParseOutcome { result: Ok(leaf), pos: p1 },
                        Some(op) => if is_binary_op_v(op) && spec_precedence(op) >= min_prec {
                            let o = sp_expr_min(ts, p1 + 1, spec_precedence(op) + 1);
                            match o.result {
                                Err(_) => o,
                                Ok(rhs) => ParseOutcome {
                                    result: sp_combine(op, leaf, rhs),
                                    pos: o.pos,
                                },
                            }
                        } else {
                            ParseOutcome { result: Ok(leaf), pos: p1 }
                        },
                    }
                }
            } else {
                ParseOutcome { result: Err(ParseErrorV::UnexpectedToken(t)), pos }
            }
        },
    }
}

/// One expression: a first climb, then operators of any precedence folded in
/// from the left.
pub open spec fn sp_expression(ts: Seq<TokenV>, pos: int) -> ParseOutcome
    decreases ts.len() - pos, 6int when 0 <= pos <= ts.len()
{
    let o = sp_expr_min(ts, pos, 0);
    match o.result {
        Err(_) => o,
        Ok(lhs) => if pos < o.pos <= ts.len() {
            sp_expr_loop(ts, o.pos, lhs)
        } else {
            ParseOutcome { result: Err(ParseErrorV::NoTokensLeft), pos: o.pos }
        },
    }
}

pub open spec fn sp_expr_loop(ts: Seq<TokenV>, pos: int, lhs: ASTV) -> ParseOutcome
    decreases ts.len() - pos, 1int when 0 <= pos <= ts.len()
{
    match sp_peek(ts, pos) {
        None => ParseOutcome { result: Ok(lhs), pos },
        Some(op) => if !is_binary_op_v(op) {
            ParseOutcome { result: Ok(lhs), pos }
        } else {
            let o = sp_expr_min(ts, pos + 1, spec_precedence(op) + 1);
            match o.result {
                Err(_) => o,
                Ok(rhs) => match sp_combine(op, lhs, rhs) {
                    Err(e) => ParseOutcome { result: Err(e), pos: o.pos },
                    Ok(newlhs) => if pos < o.pos <= ts.len() {
                        sp_expr_loop(ts, o.pos, newlhs)
                    } else {
                        ParseOutcome { result: Err(ParseErrorV::NoTokensLeft), pos: o.pos }
                    },
                },
            }
        },
    }
}

/// A call: name, opening paren, comma-separated arguments, closing paren.
pub open spec fn sp_fcall(ts: Seq<TokenV>, pos: int) -> ParseOutcome
    decreases ts.len() - pos, 4int when 0 <= pos <= ts.len()
{
    match sp_expect_ident(ts, pos) {
        Err(e) => ParseOutcome { result: Err(e), pos },
        Ok((name, p1)) => match sp_expect(ts, p1, TokenV::LParen) {
            Err(e) => ParseOutcome { result: Err(e), pos: p1 },
            Ok(p2) => {
                let o = sp_call_args(ts, p2, Seq::empty());
                match o.result {
                    Err(e) => ParseOutcome { result: Err(e), pos: o.pos },
                    Ok(argsv) => match sp_expect(ts, o.pos, TokenV::RParen) {
                        Err(e) => ParseOutcome { result: Err(e), pos: o.pos },
                        Ok(p3) => ParseOutcome {
                            result: Ok(ASTV::FunctionCall(name, argsv)),
                            pos: p3,
                        },
                    },
                }
            },
        },
    }
}

pub open spec fn sp_call_args(ts: Seq<TokenV>, pos: int, acc: Seq<ASTV>) -> ArgsParseOutcome
    decreases ts.len() - pos, 7int when 0 <= pos <= ts.len()
{
    match sp_peek(ts, pos) {
        None => ArgsParseOutcome { result: Ok(acc), pos },
        Some(t) => if t is RParen {
            ArgsParseOutcome { result: Ok(acc), pos }
        } else {
            let o = sp_expression(ts, pos);
            match o.result {
                Err(e) => ArgsParseOutcome { result: Err(e), pos: o.pos },
                Ok(arg) => if pos < o.pos <= ts.len() {
                    let acc2 = acc.push(arg);
                    let has_comma = sp_peek(ts, o.pos) matches Some(t2) && t2 is Comma;
                    let two_rparen = sp_peek(ts, o.pos + 1) matches Some(t3) && t3 is RParen;
                    if has_comma && !two_rparen {
                        sp_call_args(ts, o.pos + 1, acc2)
                    } else {
                        ArgsParseOutcome { result: Ok(acc2), pos: o.pos }
                    }
                } else {
                    ArgsParseOutcome { result: Err(ParseErrorV::NoTokensLeft), pos: o.pos }
                },
            }
        },
    }
}

/// An assignment statement: a name, an equals sign, an expression.
pub open spec fn sp_assign(ts: Seq<TokenV>, pos: int) -> ParseOutcome
    decreases ts.len() - pos, 3int when 0 <= pos <= ts.len()
{
    match sp_expect_ident(ts, pos) {
        Err(e) => ParseOutcome { result: Err(e), pos },
        Ok((name, p1)) => match sp_expect(ts, p1, TokenV::Equal) {
            Err(e) => ParseOutcome { result: Err(e), pos: p1 },
            Ok(p2) => {
                let o = sp_expression(ts, p2);
                match o.result {
                    Err(_) => o,
                    Ok(rhs) => ParseOutcome {
                        result: Ok(ASTV::Assign(name, Box::new(rhs))),
                        pos: o.pos,
                    },
                }
            },
        },
    }
}

pub open spec fn sp_params(ts: Seq<TokenV>, pos: int, acc: Seq<Seq<char>>) -> NamesOutcome
    decreases ts.len() - pos, 2int when 0 <= pos <= ts.len()
{
    match sp_peek(ts, pos) {
        Some(t) => match t {
            TokenV::Identifier(n) => {
                let p1 = pos + 1;
                let has_comma = sp_peek(ts, p1) matches Some(t2) && t2 is Comma;
                let two_rparen = sp_peek(ts, p1 + 1) matches Some(t3) && t3 is RParen;
                if has_comma && !two_rparen {
                    sp_params(ts, p1 + 1, acc.push(n))
                } else {
                    NamesOutcome { names: acc.push(n), pos: p1 }
                }
            },
            _ => NamesOutcome { names: acc, pos },
        },
        None => NamesOutcome { names: acc, pos },
    }
}

/// A function definition: `fn`, name, parameter list, braced body; a newline
/// may stand before the opening brace.
pub open spec fn sp_fn_def(ts: Seq<TokenV>, pos: int) -> ParseOutcome
    decreases ts.len() - pos, 3int when 0 <= pos <= ts.len()
{
    match sp_expect(ts, pos, TokenV::Keyword(Keyword::Fn)) {
        Err(e) => ParseOutcome { result: Err(e), pos },
        Ok(p1) => match sp_expect_ident(ts, p1) {
            Err(e) => ParseOutcome { result: Err(e), pos: p1 },
            Ok((name, p2)) => match sp_expect(ts, p2, TokenV::LParen) {
                Err(e) => ParseOutcome { result: Err(e), pos: p2 },
                Ok(p3) => {
                    let no = sp_params(ts, p3, Seq::empty());
                    match sp_expect(ts, no.pos, TokenV::RParen) {
                        Err(e) => ParseOutcome { result: Err(e), pos: no.pos },
                        Ok(p4) => {
                            let p5 = sp_skip_nl(ts, p4);
                            match sp_expect(ts, p5, TokenV::LBrace) {
                                Err(e) => ParseOutcome { result: Err(e), pos: p5 },
                                Ok(p6) => if !(pos < p6 <= ts.len()) {
                                    ParseOutcome { result: Err(ParseErrorV::NoTokensLeft), pos: p6 }
                                } else {
                                    let bo = sp_block(ts, p6, false, Seq::empty());
                                    match bo.result {
                                        Err(_) => bo,
                                        Ok(body) => match sp_expect(ts, bo.pos, TokenV::RBrace) {
                                            Err(e) => ParseOutcome {
                                                result: Err(e),
                                                pos: bo.pos,
                                            },
                                            Ok(p7) => ParseOutcome {
                                                result: Ok(
                                                    ASTV::FunctionDefinition {
                                                        name,
                                                        arg_names: no.names,
                                                        body: Box::new(body),
                                                    },
                                                ),
                                                pos: p7,
                                            },
                                        },
                                    }
                                },
                            }
                        },
                    }
                },
            },
        },
    }
}

/// An if statement with an optional else branch; newlines may stand around
/// the braces, and before an `else` they are consumed only when the `else`
/// is there.
pub open spec fn sp_if(ts: Seq<TokenV>, pos: int) -> ParseOutcome
    decreases ts.len() - pos, 3int when 0 <= pos <= ts.len()
{
    match sp_expect(ts, pos, TokenV::Keyword(Keyword::If)) {
        Err(e) => ParseOutcome { result: Err(e), pos },
        Ok(p1) => match sp_expect(ts, p1, TokenV::LParen) {
            Err(e) => ParseOutcome { result: Err(e), pos: p1 },
            Ok(p2) => {
                let co = sp_expression(ts, p2);
                match co.result {
                    Err(_) => co,
                    Ok(cond) => match sp_expect(ts, co.pos, TokenV::RParen) {
                        Err(e) => ParseOutcome { result: Err(e), pos: co.pos },
                        Ok(p3) => {
                            let p4 = sp_skip_nl(ts, p3);
                            match sp_expect(ts, p4, TokenV::LBrace) {
                                Err(e) => ParseOutcome { result: Err(e), pos: p4 },
                                Ok(p5) => if !(pos < p5 <= ts.len()) {
                                    ParseOutcome { result: Err(ParseErrorV::NoTokensLeft), pos: p5 }
                                } else {
                                    let bo = sp_block(ts, p5, false, Seq::empty());
                                    match bo.result {
                                        Err(_) => bo,
                                        Ok(body) => match sp_expect(ts, bo.pos, TokenV::RBrace) {
                                            Err(e) => ParseOutcome { result: Err(e), pos: bo.pos },
                                            Ok(p6) => {
                                                let j = sp_skip_nl(ts, p6);
                                                let has_else = sp_peek(ts, j) matches Some(t)
                                                    && t is Keyword && (t matches TokenV::Keyword(
                                                    k,
                                                ) && k == Keyword::Else);
                                                if has_else && pos < j + 1 <= ts.len() {
                                                    sp_else(ts, j + 1, cond, body)
                                                } else if has_else {
                                                    ParseOutcome {
                                                        result: Err(ParseErrorV::NoTokensLeft),
                                                        pos: j,
                                                    }
                                                } else {
                                                    ParseOutcome {
                                                        result: Ok(
                                                            ASTV::IfStatement {
                                                                condition: Box::new(cond),
                                                                body: Box::new(body),
                                                                else_body: None,
                                                            },
                                                        ),
                                                        pos: p6,
                                                    }
                                                }
                                            },
                                        },
                                    }
                                },
                            }
                        },
                    },
                }
            },
        },
    }
}

pub open spec fn sp_else(ts: Seq<TokenV>, pos: int, cond: ASTV, body: ASTV) -> ParseOutcome
    decreases ts.len() - pos, 2int when 0 <= pos <= ts.len()
{
    let p1 = sp_skip_nl(ts, pos);
    match sp_expect(ts, p1, TokenV::LBrace) {
        Err(e) => ParseOutcome { result: Err(e), pos: p1 },
        Ok(p2) => if !(pos < p2 <= ts.len()) {
            ParseOutcome { result: Err(ParseErrorV::NoTokensLeft), pos: p2 }
        } else {
            let bo = sp_block(ts, p2, false, Seq::empty());
            match bo.result {
                Err(_) => bo,
                Ok(eb) => match sp_expect(ts, bo.pos, TokenV::RBrace) {
                    Err(e) => ParseOutcome { result: Err(e), pos: bo.pos },
                    Ok(p3) => ParseOutcome {
                        result: Ok(
                            ASTV::IfStatement {
                                condition: Box::new(cond),
                                body: Box::new(body),
                                else_body: Some(Box::new(eb)),
                            },
                        ),
                        pos: p3,
                    },
                },
            }
        },
    }
}

/// A block: blank lines and statements up to a closing brace or the end,
/// with two statements on one line refused.
pub open spec fn sp_block(ts: Seq<TokenV>, pos: int, last_stmt: bool, acc: Seq<Option<ASTV>>) -> ParseOutcome
    decreases ts.len() - pos, 8int when 0 <= pos <= ts.len()
{
    match sp_peek(ts, pos) {
        None => ParseOutcome { result: Ok(ASTV::Lines(acc)), pos },
        Some(t) => if t is Newline {
            sp_block(ts, pos + 1, false, acc.push(None))
        } else if t is RBrace {
            ParseOutcome { result: Ok(ASTV::Lines(acc)), pos }
        } else if last_stmt {
            ParseOutcome { result: Err(ParseErrorV::UnexpectedToken(t)), pos }
        } else {
            let so = if t matches TokenV::Keyword(k) && k == Keyword::Fn {
                sp_fn_def(ts, pos)
            } else if t matches TokenV::Keyword(k2) && k2 == Keyword::If {
                sp_if(ts, pos)
            } else if t is Identifier && (sp_peek(ts, pos + 1) matches Some(t2) && t2 is Equal) {
                sp_assign(ts, pos)
            } else {
                sp_expression(ts, pos)
            };
            match so.result {
                Err(_) => so,
                Ok(st) => if pos < so.pos <= ts.len() {
                    sp_block(ts, so.pos, true, acc.push(Some(st)))
                } else {
                    ParseOutcome { result: Err(ParseErrorV::NoTokensLeft), pos: so.pos }
                },
            }
        },
    }
}

/// The whole program: one block that must consume every token.
pub open spec fn sp_parse(ts: Seq<TokenV>, pos: int) -> ParseOutcome
    decreases ts.len() - pos, 9int when 0 <= pos <= ts.len()
{
    let o = sp_block(ts, pos, false, Seq::empty());
    match o.result {
        Err(_) => o,
        Ok(a) => if 0 <= o.pos < ts.len() {
            ParseOutcome { result: Err(ParseErrorV::UnexpectedToken(ts[o.pos])), pos: o.pos }
        } else {
            o
        },
    }
}

/// The parser's result equals the spec-level outcome.
pub open spec fn parse_result_rel(r: Result<AST, ParseError>, o: ParseOutcome) -> bool {
    match (r, o.result) {
        (Ok(a), Ok(av)) => ast_view(a) == av,
        (Err(e), Err(ev)) => perr_view(e) == ev,
        _ => false,
    }
}

/// The parser's result and final position equal the spec-level outcome; an
/// error's position is the error value itself.
pub open spec fn parse_rel(r: Result<AST, ParseError>, pos: int, o: ParseOutcome) -> bool {
    match (r, o.result) {
        (Ok(a), Ok(av)) => ast_view(a) == av && pos == o.pos,
        (Err(e), Err(ev)) => perr_view(e) == ev,
        _ => false,
    }
}

/// Returns the precedence of the operator.
///
/// Higher precedence means that the operator is calculated first (e.g.
/// multiplication has higher precedence than addition). `is_binary` says
/// whether the operator is used as a binary or as a unary operator.
pub fn op_precedence(op: &Token, is_binary: bool) -> (r: u8)
    requires
        is_binary ==> is_binary_op_v(op@),
        !is_binary ==> op@ is Minus,
    ensures
        is_binary ==> r == spec_precedence(op@),
        !is_binary ==> r == 4,
{
    if !is_binary {
        4
    } else {
        match op {
            Token::Plus => 1,
            Token::Minus => 1,
            Token::Star => 2,
            Token::Slash => 2,
            Token::Percent => 2,
            _ => 3,
        }
    }
}

/// Builds the tree node of a binary operator from its two sides.
pub fn combine_lhs_rhs(op: Token, lhs: AST, rhs: AST) -> (r: Result<AST, ParseError>)
    ensures
        op@ is Plus ==> (r matches Ok(a) && a matches AST::Add(l, rr) && *l == lhs && *rr == rhs),
        op@ is Minus ==> (r matches Ok(a) && a matches AST::Subtract(l, rr) && *l == lhs && *rr
            == rhs),
        op@ is Star ==> (r matches Ok(a) && a matches AST::Multiply(l, rr) && *l == lhs && *rr
            == rhs),
        op@ is Slash ==> (r matches Ok(a) && a matches AST::Divide(l, rr) && *l == lhs && *rr
            == rhs),
        op@ is Percent ==> (r matches Ok(a) && a matches AST::Modulo(l, rr) && *l == lhs && *rr
            == rhs),
        op@ is Caret ==> (r matches Ok(a) && a matches AST::Power(l, rr) && *l == lhs && *rr
            == rhs),
        !is_binary_op_v(op@) ==> r == Err::<AST, ParseError>(ParseError::UnexpectedToken(op)),
        is_expr(lhs) && is_expr(rhs) && r is Ok ==> (r matches Ok(a) && is_expr(a)),
{
    let combined = match op {
        Token::Plus => AST::Add(Box::new(lhs), Box::new(rhs)),
        Token::Minus => AST::Subtract(Box::new(lhs), Box::new(rhs)),
        Token::Star => AST::Multiply(Box::new(lhs), Box::new(rhs)),
        Token::Slash => AST::Divide(Box::new(lhs), Box::new(rhs)),
        Token::Percent => AST::Modulo(Box::new(lhs), Box::new(rhs)),
        Token::Caret => AST::Power(Box::new(lhs), Box::new(rhs)),
        token => {
            return Err(ParseError::UnexpectedToken(token));
        },
    };
    Ok(combined)
}

/// Parses the whole token stream as one program.
pub fn parse(tokens: &[Token]) -> (r: Result<AST, ParseError>)
    ensures
        r matches Ok(a) ==> is_block(a),
        all_newlines(tokens@, 0) ==> (r matches Ok(a) && a matches AST::Lines(ls) && forall|i: int|
            0 <= i < ls@.len() ==> (#[trigger] ls@[i]) is None),
        parse_result_rel(r, sp_parse(tv(tokens@), 0)),
{
    Parser::new(tokens).parse()
}

pub struct Parser<'a> {
    pub tokens: &'a [Token],
    pub pos: usize,
}

impl<'a> Parser<'a> {
    pub open spec fn toks(&self) -> Seq<Token> {
        self.tokens@
    }

    pub open spec fn wf(&self) -> bool {
        self.pos <= self.tokens@.len()
    }

    pub fn new(tokens: &'a [Token]) -> (r: Parser<'a>)
        ensures
            r.tokens == tokens,
            r.pos == 0,
            r.wf(),
    {
        Parser { tokens, pos: 0 }
    }

    /// Entrypoint to the parser: one block, which must consume every token.
    /// A token that stops the block early, such as a stray closing brace, is
    /// an error.
    pub fn parse(&mut self) -> (r: Result<AST, ParseError>)
        requires
            old(self).wf(),
        ensures
            final(self).tokens == old(self).tokens,
            final(self).wf(),
            r is Ok ==> final(self).pos == final(self).toks().len(),
            r matches Ok(a) ==> is_block(a),
            (old(self).pos < old(self).toks().len() && old(self).toks()[old(self).pos as int]@
                is RBrace) ==> (r matches Err(e) && e matches ParseError::UnexpectedToken(_)),
            all_newlines(old(self).toks(), old(self).pos as int) ==> (r matches Ok(a)
                && a matches AST::Lines(ls) && forall|i: int|
                0 <= i < ls@.len() ==> (#[trigger] ls@[i]) is None),
            parse_rel(r, final(self).pos as int, sp_parse(tv(old(self).toks()), old(self).pos as int)),
        decreases self.tokens@.len() - self.pos, 9int,
    {
        let ast = self.parse_block()?;
        if self.pos < self.tokens.len() {
            let t = slice_index_get(self.tokens, self.pos);
            return Err(ParseError::UnexpectedToken(clone_token(t)));
        }
        Ok(ast)
    }

    /// Takes the next token, behaving like `next` of an iterator.
    fn next(&mut self) -> (r: Option<&'a Token>)
        requires
            old(self).wf(),
        ensures
            final(self).tokens == old(self).tokens,
            final(self).wf(),
            old(self).pos < old(self).toks().len() ==> (r matches Some(t) && *t == old(self).toks()[old(self).pos as int] && final(self).pos == old(self).pos + 1),
            old(self).pos >= old(self).toks().len() ==> (r is None && final(self).pos == old(self).pos),
    {
        if self.pos < self.tokens.len() {
            let t = slice_index_get(self.tokens, self.pos);
            self.pos = self.pos + 1;
            Some(t)
        } else {
            None
        }
    }

    /// Peeks the nth token. Peek with n = 1 behaves like `peek` of an
    /// iterator, peeking the next available token.
    fn peek_nth(&self, n: usize) -> (r: Option<&'a Token>)
        requires
            self.wf(),
            n == 1 || n == 2,
        ensures
            r matches Some(t) ==> self.pos + n - 1 < self.toks().len() && *t == self.toks()[
                self.pos + n - 1],
            r is None ==> self.pos + n - 1 >= self.toks().len(),
    {
        if n == 1 {
            if self.pos < self.tokens.len() {
                Some(slice_index_get(self.tokens, self.pos))
            } else {
                None
            }
        } else {
            if self.pos < self.tokens.len() && self.pos + 1 < self.tokens.len() {
                Some(slice_index_get(self.tokens, self.pos + 1))
            } else {
                None
            }
        }
    }

    /// Peeks the next token, behaving like `peek` of an iterator.
    fn peek(&self) -> (r: Option<&'a Token>)
        requires
            self.wf(),
        ensures
            r matches Some(t) ==> self.pos < self.toks().len() && *t == self.toks()[
                self.pos as int],
            r is None ==> self.pos >= self.toks().len(),
    {
        self.peek_nth(1)
    }

    /// Asserts that `expected` is the next token, while also advancing the
    /// position.
    fn expect(&mut self, expected: Token) -> (r: Result<(), ParseError>)
        requires
            old(self).wf(),
        ensures
            final(self).tokens == old(self).tokens,
            final(self).wf(),
            old(self).pos <= final(self).pos,
            r matches Ok(_) <==> (old(self).pos < old(self).toks().len() && tok_eq(
                old(self).toks()[old(self).pos as int]@,
                expected@,
            )),
            r matches Ok(_) ==> final(self).pos == old(self).pos + 1,
            r matches Err(e) ==> e == ParseError::ExpectedToken(expected),
            match sp_expect(tv(old(self).toks()), old(self).pos as int, expected@) {
                Ok(p) => r is Ok && final(self).pos == p,
                Err(ev) => r matches Err(e) && perr_view(e) == ev,
            },
    {
        proof {
            if old(self).pos < old(self).toks().len() {
                assert(tv(old(self).toks())[old(self).pos as int] == old(self).toks()[old(
                    self,
                ).pos as int]@);
            }
        }
        match self.next() {
            Some(actual) => {
                if token_same(actual, &expected) {
                    Ok(())
                } else {
                    Err(ParseError::ExpectedToken(expected))
                }
            },
            None => Err(ParseError::ExpectedToken(expected)),
        }
    }

    /// Asserts that the next token is an identifier, returning the
    /// identifier's text and advancing the position.
    fn expect_identifier(&mut self) -> (r: Result<String, ParseError>)
        requires
            old(self).wf(),
        ensures
            final(self).tokens == old(self).tokens,
            final(self).wf(),
            old(self).pos <= final(self).pos,
            r matches Ok(name) ==> (old(self).pos < old(self).toks().len() && (old(self).toks()[old(self).pos as int]@ matches TokenV::Identifier(nv) && name@ == nv) && final(self).pos == old(self).pos + 1),
            r matches Err(e) ==> e is ExpectedIdentifier,
            (old(self).pos < old(self).toks().len() && old(self).toks()[old(self).pos as int]@
                is Identifier) ==> r is Ok,
            match sp_expect_ident(tv(old(self).toks()), old(self).pos as int) {
                Ok(p) => r matches Ok(name) && name@ == p.0 && final(self).pos == p.1,
                Err(ev) => r matches Err(e) && perr_view(e) == ev,
            },
    {
        proof {
            if old(self).pos < old(self).toks().len() {
                assert(tv(old(self).toks())[old(self).pos as int] == old(self).toks()[old(
                    self,
                ).pos as int]@);
            }
        }
        match self.next() {
            Some(t) => {
                match t {
                    Token::Identifier(name) => Ok(name.clone()),
                    _ => Err(ParseError::ExpectedIdentifier),
                }
            },
            None => Err(ParseError::ExpectedIdentifier),
        }
    }

    /// Parses a sequence of lines, each blank or one statement. Two
    /// statements with no newline between them are an error. The block stops
    /// without error at a closing brace, which is left for the caller.
    fn parse_block(&mut self) -> (r: Result<AST, ParseError>)
        requires
            old(self).wf(),
        ensures
            final(self).tokens == old(self).tokens,
            final(self).wf(),
            old(self).pos <= final(self).pos,
            r matches Ok(a) ==> is_block(a),
            r matches Ok(_) ==> (final(self).pos == final(self).toks().len() || final(self).toks()[final(self).pos as int]@ is RBrace),
            all_newlines(old(self).toks(), old(self).pos as int) ==> (r matches Ok(a)
                && a matches AST::Lines(ls) && (forall|i: int|
                0 <= i < ls@.len() ==> (#[trigger] ls@[i]) is None) && final(self).pos == final(self).toks().len()),
            (old(self).pos < old(self).toks().len() && old(self).toks()[old(self).pos as int]@
                is RBrace) ==> (r is Ok && final(self).pos == old(self).pos),
            parse_rel(
                r,
                final(self).pos as int,
                sp_block(tv(old(self).toks()), old(self).pos as int, false, Seq::empty()),
            ),
        decreases self.tokens@.len() - self.pos, 8int,
    {
        let ghost t0 = self.tokens@;
        let ghost p0 = self.pos as int;
        let ghost all_nl = all_newlines(t0, p0);
        let ghost tsv = tv(t0);
        let ghost whole = sp_block(tsv, p0, false, Seq::empty());
        let mut lines: Vec<Option<AST>> = Vec::new();
        let mut parsed_statement_last = false;
        loop
            invariant
                self.wf(),
                self.tokens@ == t0,
                self.tokens == old(self).tokens,
                p0 == old(self).pos,
                p0 <= self.pos <= t0.len(),
                all_nl == all_newlines(t0, p0),
                (p0 < t0.len() && t0[p0]@ is RBrace) ==> self.pos == p0,
                tsv == tv(t0),
                whole == sp_block(tsv, p0, false, Seq::empty()),
                whole == sp_block(tsv, self.pos as int, parsed_statement_last, lines_view(lines@)),
                forall|i: int|
                    0 <= i < lines@.len() ==> ((#[trigger] lines@[i]) matches Some(st) ==> is_stmt(
                        st,
                    )),
                all_nl ==> (forall|i: int| 0 <= i < lines@.len() ==> (#[trigger] lines@[i]) is None),
            ensures
                (p0 < t0.len() && t0[p0]@ is RBrace) ==> self.pos == p0,
                whole == sp_block(tsv, self.pos as int, parsed_statement_last, lines_view(lines@)),
                whole == sp_block(tsv, p0, false, Seq::empty()),
                tsv == tv(t0),
                self.wf(),
                self.tokens@ == t0,
                p0 <= self.pos <= t0.len(),
                forall|i: int|
                    0 <= i < lines@.len() ==> ((#[trigger] lines@[i]) matches Some(st) ==> is_stmt(
                        st,
                    )),
                all_nl ==> (forall|i: int| 0 <= i < lines@.len() ==> (#[trigger] lines@[i]) is None),
                self.pos == t0.len() || t0[self.pos as int]@ is RBrace,
            decreases t0.len() - self.pos,
        {
            if self.pos >= self.tokens.len() {
                break;
            }
            let ghost posi = self.pos as int;
            proof {
                assert(tsv[posi] == t0[posi]@);
                if posi + 1 < t0.len() {
                    assert(tsv[posi + 1] == t0[posi + 1]@);
                }
            }
            let tok = slice_index_get(self.tokens, self.pos);
            let line: Option<AST>;
            if matches!(tok, Token::Newline) {
                self.next();
                line = None;
                parsed_statement_last = false;
            } else if matches!(tok, Token::RBrace) {
                break;
            } else {
                proof {
                    if all_nl {
                        assert(all_newlines(t0, p0));
                        assert(t0[self.pos as int]@ is Newline);
                    }
                }
                if parsed_statement_last {
                    return Err(ParseError::UnexpectedToken(clone_token(tok)));
                }
                if matches!(tok, Token::Keyword(Keyword::Fn)) {
                    line = Some(self.parse_function_definition()?);
                } else if matches!(tok, Token::Keyword(Keyword::If)) {
                    line = Some(self.parse_if_statement()?);
                } else {
                    let is_ident = matches!(tok, Token::Identifier(_));
                    let two = self.peek_nth(2);
                    let two_eq = match two {
                        Some(t2) => matches!(t2, Token::Equal),
                        None => false,
                    };
                    if is_ident && two_eq {
                        line = Some(self.parse_assignment()?);
                    } else {
                        line = Some(self.parse_expression()?);
                    }
                }
                parsed_statement_last = true;
            }
            proof {
                lemma_lines_view_push(
                    lines@,
                    match line {
                        Some(ref a) => Some(*a),
                        None => None,
                    },
                );
            }
            lines.push(line);
        }
        Ok(AST::Lines(lines))
    }

    /// Parses an expression.
    ///
    /// This works by calling another function that attaches expressions with
    /// operators of higher precedence to the right hand side of the current
    /// operator. Once there are no operators of higher precedence, it reads
    /// the next operator and creates a new node: the tree parsed so far
    /// becomes the left hand side, and the right hand side is again read by
    /// the other function. Same-precedence operators therefore associate to
    /// the left, for `^` as for the rest.
    #[verifier::loop_isolation(false)]
    fn parse_expression(&mut self) -> (r: Result<AST, ParseError>)
        requires
            old(self).wf(),
        ensures
            final(self).tokens == old(self).tokens,
            final(self).wf(),
            old(self).pos <= final(self).pos,
            r matches Ok(a) ==> is_expr(a) && final(self).pos > old(self).pos,
            old(self).pos >= old(self).toks().len() ==> (r matches Err(e) && e is NoTokensLeft),
            (old(self).pos < old(self).toks().len() && !can_start_operand(
                old(self).toks()[old(self).pos as int]@,
            )) ==> (r matches Err(e) && e matches ParseError::UnexpectedToken(_)),
            parse_rel(
                r,
                final(self).pos as int,
                sp_expression(tv(old(self).toks()), old(self).pos as int),
            ),
        decreases self.tokens@.len() - self.pos, 6int,
    {
        let ghost tsv = tv(self.tokens@);
        let ghost p0 = self.pos as int;
        let ghost whole = sp_expression(tsv, p0);
        let mut lhs = self.parse_expression_with_min_precedence(0)?;
        loop
            invariant
                self.wf(),
                self.tokens == old(self).tokens,
                p0 == old(self).pos,
                p0 < self.pos,
                tsv == tv(self.tokens@),
                is_expr(lhs),
                whole == sp_expression(tsv, p0),
                whole == sp_expr_loop(tsv, self.pos as int, ast_view(lhs)),
            decreases self.toks().len() - self.pos,
        {
            let ghost posi = self.pos as int;
            proof {
                if self.pos < self.tokens@.len() {
                    assert(tsv[posi] == self.toks()[posi]@);
                }
            }
            let t_opt = self.peek();
            let op_ref = match t_opt {
                None => {
                    return Ok(lhs);
                },
                Some(t) => t,
            };
            if !is_binary_token(op_ref) {
                return Ok(lhs);
            }
            let op = copy_op(op_ref);
            self.next();
            let precedence = op_precedence(&op, true);
            let rhs = self.parse_expression_with_min_precedence(precedence + 1)?;
            lhs = combine_lhs_rhs(op, lhs, rhs)?;
        }
    }

    /// Helper for `parse_expression` that parses an expression made of
    /// operators of at least `min_precedence`, recursing to build a chain of
    /// operators of increasing precedence. A leading minus sign absorbs a
    /// whole chain of minus signs after it; a signed atom then combines with
    /// a following operator at the precedence level where the chain began.
    fn parse_expression_with_min_precedence(&mut self, min_precedence: u8) -> (r: Result<
        AST,
        ParseError,
    >)
        requires
            old(self).wf(),
        ensures
            final(self).tokens == old(self).tokens,
            final(self).wf(),
            old(self).pos <= final(self).pos,
            r matches Ok(a) ==> is_expr(a) && final(self).pos > old(self).pos,
            old(self).pos >= old(self).toks().len() ==> (r matches Err(e) && e is NoTokensLeft),
            (old(self).pos < old(self).toks().len() && old(self).toks()[old(self).pos as int]@
                is Minus && r is Ok) ==> (r matches Ok(a) && a matches AST::UnaryMinus(_)),
            (old(self).pos < old(self).toks().len() && old(self).toks()[old(self).pos as int]@
                is LParen && r is Ok) ==> (r matches Ok(a) && a matches AST::Brackets(_)),
            (old(self).pos < old(self).toks().len() && !can_start_operand(
                old(self).toks()[old(self).pos as int]@,
            )) ==> (r matches Err(e) && e matches ParseError::UnexpectedToken(_)),
            parse_rel(
                r,
                final(self).pos as int,
                sp_expr_min(tv(old(self).toks()), old(self).pos as int, min_precedence as int),
            ),
        decreases self.tokens@.len() - self.pos, 5int,
    {
        proof {
            if old(self).pos < old(self).toks().len() {
                assert(tv(old(self).toks())[old(self).pos as int] == old(self).toks()[old(
                    self,
                ).pos as int]@);
            }
            if old(self).pos + 1 < old(self).toks().len() {
                assert(tv(old(self).toks())[old(self).pos + 1] == old(self).toks()[old(
                    self,
                ).pos + 1]@);
            }
        }
        let t_opt = self.peek();
        let tok = match t_opt {
            None => {
                return Err(ParseError::NoTokensLeft);
            },
            Some(t) => t,
        };
        if matches!(tok, Token::Minus) {
            self.next();
            // Not `+ 1` like in the binary case, so that several unary minus
            // signs can follow each other.
            let rhs = self.parse_expression_with_min_precedence(4)?;
            Ok(AST::UnaryMinus(Box::new(rhs)))
        } else if matches!(tok, Token::LParen) {
            self.next();
            let inner = self.parse_expression()?;
            self.expect(Token::RParen)?;
            Ok(AST::Brackets(Box::new(inner)))
        } else if matches!(tok, Token::Identifier(_)) || matches!(tok, Token::Number(_)) {
            let two = self.peek_nth(2);
            let two_lparen = match two {
                Some(t2) => matches!(t2, Token::LParen),
                None => false,
            };
            if two_lparen {
                self.parse_function_call()
            } else {
                let lhs = self.parse_identifier_or_value()?;
                let op_opt = self.peek();
                let op_ref = match op_opt {
                    None => {
                        return Ok(lhs);
                    },
                    Some(t) => t,
                };
                if !is_binary_token(op_ref) {
                    return Ok(lhs);
                }
                let precedence = op_precedence(op_ref, true);
                if precedence >= min_precedence {
                    let op = copy_op(op_ref);
                    self.next();
                    let rhs = self.parse_expression_with_min_precedence(precedence + 1)?;
                    combine_lhs_rhs(op, lhs, rhs)
                } else {
                    Ok(lhs)
                }
            }
        } else {
            Err(ParseError::UnexpectedToken(clone_token(tok)))
        }
    }

    /// Parses one identifier or numeric literal as a leaf node.
    fn parse_identifier_or_value(&mut self) -> (r: Result<AST, ParseError>)
        requires
            old(self).wf(),
        ensures
            final(self).tokens == old(self).tokens,
            final(self).wf(),
            old(self).pos <= final(self).pos,
            r matches Ok(a) ==> is_expr(a) && final(self).pos == old(self).pos + 1,
            r matches Ok(a) ==> (old(self).pos < old(self).toks().len() && match old(self).toks()[
                old(self).pos as int]@ {
                TokenV::Identifier(n) => a matches AST::Variable(s) && s@ == n,
                TokenV::Number(n) => a matches AST::Number(s) && s@ == n,
                _ => false,
            }),
            (old(self).pos < old(self).toks().len() && (old(self).toks()[old(self).pos as int]@
                is Identifier || old(self).toks()[old(self).pos as int]@ is Number)) <==> r is Ok,
    {
        match self.next() {
            Some(t) => {
                match t {
                    Token::Identifier(name) => Ok(AST::Variable(name.clone())),
                    Token::Number(num) => Ok(AST::Number(num.clone())),
                    _ => Err(ParseError::UnexpectedToken(clone_token(t))),
                }
            },
            None => Err(ParseError::NoTokensLeft),
        }
    }

    /// Parses `<name>(<arg>, <arg>, ...)`: zero or more comma-separated
    /// argument expressions. A trailing comma before the closing paren, a
    /// comma with nothing after it, and a missing comma are all errors
    /// through the close-paren expectation.
    fn parse_function_call(&mut self) -> (r: Result<AST, ParseError>)
        requires
            old(self).wf(),
        ensures
            final(self).tokens == old(self).tokens,
            final(self).wf(),
            old(self).pos <= final(self).pos,
            r matches Ok(a) ==> is_expr(a) && final(self).pos > old(self).pos,
            r matches Ok(a) ==> (a matches AST::FunctionCall(name, _) && old(self).pos < old(self).toks().len() && (old(self).toks()[old(self).pos as int]@
                matches TokenV::Identifier(nv) && name@ == nv)),
            parse_rel(
                r,
                final(self).pos as int,
                sp_fcall(tv(old(self).toks()), old(self).pos as int),
            ),
        decreases self.tokens@.len() - self.pos, 4int,
    {
        let ghost tsv = tv(self.tokens@);
        let ghost p0 = self.pos as int;
        let fn_name = self.expect_identifier()?;
        self.expect(Token::LParen)?;
        let ghost p2i = self.pos as int;
        let mut args: Vec<AST> = Vec::new();
        loop
            invariant_except_break
                sp_call_args(tsv, p2i, Seq::empty()) == sp_call_args(
                    tsv,
                    self.pos as int,
                    args_view(args@),
                ),
            invariant
                self.wf(),
                self.tokens == old(self).tokens,
                tsv == tv(self.tokens@),
                p0 == old(self).pos,
                p0 + 2 == p2i,
                p2i <= self.pos <= self.toks().len(),
                sp_expect_ident(tsv, p0) == Ok::<(Seq<char>, int), ParseErrorV>((
                    fn_name@,
                    p0 + 1,
                )),
                sp_expect(tsv, p0 + 1, TokenV::LParen) == Ok::<int, ParseErrorV>(p2i),
                p0 < tsv.len() && (tsv[p0] matches TokenV::Identifier(nv) && fn_name@ == nv),
                forall|i: int| 0 <= i < args@.len() ==> is_expr(#[trigger] args@[i]),
            ensures
                self.wf(),
                self.tokens == old(self).tokens,
                tsv == tv(self.tokens@),
                p2i <= self.pos <= self.toks().len(),
                forall|i: int| 0 <= i < args@.len() ==> is_expr(#[trigger] args@[i]),
                sp_call_args(tsv, p2i, Seq::empty()) == (ArgsParseOutcome {
                    result: Ok(args_view(args@)),
                    pos: self.pos as int,
                }),
            decreases self.toks().len() - self.pos,
        {
            let ghost posi = self.pos as int;
            proof {
                if posi < tsv.len() {
                    assert(tsv[posi] == self.toks()[posi]@);
                }
                if posi + 1 < tsv.len() {
                    assert(tsv[posi + 1] == self.toks()[posi + 1]@);
                }
            }
            let at_rparen = match self.peek() {
                Some(t) => matches!(t, Token::RParen),
                None => {
                    break;
                },
            };
            if at_rparen {
                break;
            }
            let arg = self.parse_expression()?;
            proof {
                lemma_args_view_push(args@, arg);
            }
            args.push(arg);
            let ghost posj = self.pos as int;
            proof {
                if posj < tsv.len() {
                    assert(tsv[posj] == self.toks()[posj]@);
                }
                if posj + 1 < tsv.len() {
                    assert(tsv[posj + 1] == self.toks()[posj + 1]@);
                }
            }
            let has_comma = match self.peek() {
                Some(t) => matches!(t, Token::Comma),
                None => false,
            };
            if !has_comma {
                // Let `expect` after the loop report the error.
                break;
            }
            let two_rparen = match self.peek_nth(2) {
                Some(t2) => matches!(t2, Token::RParen),
                None => false,
            };
            if two_rparen {
                // A trailing comma is not permitted; `expect` reports it.
                break;
            }
            self.next();
        }
        self.expect(Token::RParen)?;
        Ok(AST::FunctionCall(fn_name, args))
    }

    /// Parses `<identifier> = <expr>`, already identified by look-ahead.
    fn parse_assignment(&mut self) -> (r: Result<AST, ParseError>)
        requires
            old(self).wf(),
        ensures
            final(self).tokens == old(self).tokens,
            final(self).wf(),
            old(self).pos <= final(self).pos,
            r matches Ok(a) ==> is_stmt(a) && final(self).pos > old(self).pos,
            r matches Ok(a) ==> (a matches AST::Assign(name, _) && old(self).pos < old(self).toks().len() && (old(self).toks()[old(self).pos as int]@ matches TokenV::Identifier(
                nv,
            ) && name@ == nv)),
            parse_rel(
                r,
                final(self).pos as int,
                sp_assign(tv(old(self).toks()), old(self).pos as int),
            ),
        decreases self.tokens@.len() - self.pos, 3int,
    {
        let var_name = self.expect_identifier()?;
        self.expect(Token::Equal)?;
        let rhs = self.parse_expression()?;
        Ok(AST::Assign(var_name, Box::new(rhs)))
    }

    /// Parses `fn <name>(<param>, ...) { <body> }`. Parameters are plain
    /// identifiers with no trailing comma; a newline may stand between the
    /// parameter list and the opening brace, but not inside the list.
    fn parse_function_definition(&mut self) -> (r: Result<AST, ParseError>)
        requires
            old(self).wf(),
        ensures
            final(self).tokens == old(self).tokens,
            final(self).wf(),
            old(self).pos <= final(self).pos,
            r matches Ok(a) ==> is_stmt(a) && final(self).pos > old(self).pos,
            r matches Ok(a) ==> (a matches AST::FunctionDefinition { name, .. } && old(self).pos + 1
                < old(self).toks().len() && (old(self).toks()[old(self).pos + 1]@
                matches TokenV::Identifier(nv) && name@ == nv)),
            parse_rel(
                r,
                final(self).pos as int,
                sp_fn_def(tv(old(self).toks()), old(self).pos as int),
            ),
        decreases self.tokens@.len() - self.pos, 3int,
    {
        let ghost tsv = tv(self.tokens@);
        let ghost p0 = self.pos as int;
        self.expect(Token::Keyword(Keyword::Fn))?;
        let fn_name = self.expect_identifier()?;
        self.expect(Token::LParen)?;
        let ghost p3i = self.pos as int;
        let mut arg_names: Vec<String> = Vec::new();
        proof {
            assert(names_view(arg_names@) =~= Seq::<Seq<char>>::empty());
        }
        loop
            invariant_except_break
                sp_params(tsv, p3i, Seq::empty()) == sp_params(
                    tsv,
                    self.pos as int,
                    names_view(arg_names@),
                ),
            invariant
                self.wf(),
                self.tokens == old(self).tokens,
                tsv == tv(self.tokens@),
                p0 == old(self).pos,
                p0 + 3 == p3i,
                p3i <= self.pos <= self.toks().len(),
            ensures
                self.wf(),
                self.tokens == old(self).tokens,
                tsv == tv(self.tokens@),
                p3i <= self.pos <= self.toks().len(),
                sp_params(tsv, p3i, Seq::empty()) == (NamesOutcome {
                    names: names_view(arg_names@),
                    pos: self.pos as int,
                }),
            decreases self.toks().len() - self.pos,
        {
            let ghost posi = self.pos as int;
            proof {
                if posi < tsv.len() {
                    assert(tsv[posi] == self.toks()[posi]@);
                }
                if posi + 1 < tsv.len() {
                    assert(tsv[posi + 1] == self.toks()[posi + 1]@);
                }
                if posi + 2 < tsv.len() {
                    assert(tsv[posi + 2] == self.toks()[posi + 2]@);
                }
            }
            let arg: String = match self.peek() {
                Some(t) => {
                    match t {
                        Token::Identifier(name) => name.clone(),
                        _ => {
                            break;
                        },
                    }
                },
                None => {
                    break;
                },
            };
            proof {
                lemma_names_view_push(arg_names@, arg);
            }
            arg_names.push(arg);
            self.next();
            let has_comma = match self.peek() {
                Some(t) => matches!(t, Token::Comma),
                None => false,
            };
            if !has_comma {
                break;
            }
            let two_rparen = match self.peek_nth(2) {
                Some(t2) => matches!(t2, Token::RParen),
                None => false,
            };
            if two_rparen {
                // A trailing comma is not permitted; `expect` reports it.
                break;
            }
            self.next();
        }
        self.expect(Token::RParen)?;
        self.skip_newlines();
        self.expect(Token::LBrace)?;
        let body = self.parse_block()?;
        self.expect(Token::RBrace)?;
        Ok(
            AST::FunctionDefinition {
                name: fn_name,
                arg_names: Rc::new(arg_names),
                body: Rc::new(body),
            },
        )
    }

    /// Parses `if ( <condition> ) { <body> }`, optionally followed by
    /// `else { <body> }`; newlines may stand around the braces.
    #[verifier::loop_isolation(false)]
    fn parse_if_statement(&mut self) -> (r: Result<AST, ParseError>)
        requires
            old(self).wf(),
        ensures
            final(self).tokens == old(self).tokens,
            final(self).wf(),
            old(self).pos <= final(self).pos,
            r matches Ok(a) ==> is_stmt(a) && final(self).pos > old(self).pos,
            r matches Ok(a) ==> a matches AST::IfStatement { .. },
            parse_rel(
                r,
                final(self).pos as int,
                sp_if(tv(old(self).toks()), old(self).pos as int),
            ),
        decreases self.tokens@.len() - self.pos, 3int,
    {
        let ghost tsv = tv(self.tokens@);
        let ghost p0 = self.pos as int;
        self.expect(Token::Keyword(Keyword::If))?;
        self.expect(Token::LParen)?;
        let condition = self.parse_expression()?;
        self.expect(Token::RParen)?;
        self.skip_newlines();
        self.expect(Token::LBrace)?;
        let body = self.parse_block()?;
        self.expect(Token::RBrace)?;
        // Look ahead past newlines for an `else`, consuming them only when
        // the `else` is there: otherwise they separate the next statement.
        let ghost pr = self.pos as int;
        let mut j = self.pos;
        while j < self.tokens.len() && matches!(slice_index_get(self.tokens, j), Token::Newline)
            invariant
                self.pos <= j <= self.toks().len(),
                sp_skip_nl(tsv, pr) == sp_skip_nl(tsv, j as int),
            decreases self.toks().len() - j,
        {
            proof {
                assert(tsv[j as int] == self.toks()[j as int]@);
            }
            j += 1;
        }
        proof {
            if j < self.tokens@.len() {
                assert(tsv[j as int] == self.toks()[j as int]@);
            }
        }
        let has_else = if j < self.tokens.len() {
            matches!(slice_index_get(self.tokens, j), Token::Keyword(Keyword::Else))
        } else {
            false
        };
        if has_else {
            self.pos = j;
            self.next();
            self.skip_newlines();
            self.expect(Token::LBrace)?;
            let else_body = self.parse_block()?;
            self.expect(Token::RBrace)?;
            Ok(
                AST::IfStatement {
                    condition: Box::new(condition),
                    body: Box::new(body),
                    else_body: Some(Box::new(else_body)),
                },
            )
        } else {
            Ok(
                AST::IfStatement {
                    condition: Box::new(condition),
                    body: Box::new(body),
                    else_body: None,
                },
            )
        }
    }

    fn at_newline(&self) -> (r: bool)
        requires
            self.wf(),
        ensures
            r == (self.pos < self.toks().len() && self.toks()[self.pos as int]@ is Newline),
    {
        match self.peek() {
            Some(t) => matches!(t, Token::Newline),
            None => false,
        }
    }

    /// Advances the position until the next token is not a newline.
    fn skip_newlines(&mut self)
        requires
            old(self).wf(),
        ensures
            final(self).tokens == old(self).tokens,
            final(self).wf(),
            old(self).pos <= final(self).pos,
            final(self).pos < final(self).toks().len() ==> !(final(self).toks()[final(self).pos as int]@ is Newline),
            final(self).pos == sp_skip_nl(tv(old(self).toks()), old(self).pos as int),
    {
        let ghost tsv = tv(self.tokens@);
        let ghost p0 = self.pos as int;
        while self.at_newline()
            invariant
                self.wf(),
                self.tokens == old(self).tokens,
                old(self).pos <= self.pos,
                tsv == tv(self.tokens@),
                sp_skip_nl(tsv, p0) == sp_skip_nl(tsv, self.pos as int),
            decreases self.toks().len() - self.pos,
        {
            proof {
                assert(tsv[self.pos as int] == self.toks()[self.pos as int]@);
            }
            self.next();
        }
        proof {
            if self.pos < self.tokens@.len() {
                assert(tsv[self.pos as int] == self.toks()[self.pos as int]@);
            }
        }
    }
}

} // verus!
