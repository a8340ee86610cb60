//! The tokenizer: raw text to a sequence of tokens.
//!
//! `spec_tokenize` is the mathematical definition of the token stream of a
//! text; `tokenize` is proved to return exactly that stream, or exactly the
//! error the definition gives.

use vstd::prelude::*;
use vstd::string::StrSliceExecFns;

verus! {

#[derive(Clone, Copy, Debug, PartialEq, Eq, Structural)]
pub enum Keyword {
    Fn,
    If,
    Else,
}

#[derive(Clone, Debug)]
pub enum Token {
    Number(String),
    Identifier(String),
    Keyword(Keyword),
    Plus,
    Minus,
    Star,
    Slash,
    Percent,
    Caret,
    LParen,
    RParen,
    LBrace,
    RBrace,
    Comma,
    Equal,
    Newline,
}

/// The mathematical value of a token: its text as a sequence of characters.
pub enum TokenV {
    Number(Seq<char>),
    Identifier(Seq<char>),
    Keyword(Keyword),
    Plus,
    Minus,
    Star,
    Slash,
    Percent,
    Caret,
    LParen,
    RParen,
    LBrace,
    RBrace,
    Comma,
    Equal,
    Newline,
}

impl View for Token {
    type V = TokenV;

    open spec fn view(&self) -> TokenV {
        match self {
            Token::Number(s) => TokenV::Number(s@),
            Token::Identifier(s) => TokenV::Identifier(s@),
            Token::Keyword(k) => TokenV::Keyword(*k),
            Token::Plus => TokenV::Plus,
            Token::Minus => TokenV::Minus,
            Token::Star => TokenV::Star,
            Token::Slash => TokenV::Slash,
            Token::Percent => TokenV::Percent,
            Token::Caret => TokenV::Caret,
            Token::LParen => TokenV::LParen,
            Token::RParen => TokenV::RParen,
            Token::LBrace => TokenV::LBrace,
            Token::RBrace => TokenV::RBrace,
            Token::Comma => TokenV::Comma,
            Token::Equal => TokenV::Equal,
            Token::Newline => TokenV::Newline,
        }
    }
}

#[derive(Clone, Copy, Debug, PartialEq, Eq, Structural)]
pub enum TokenizeError {
    InvalidNumber,
    UnexpectedCharacter,
}

pub open spec fn is_digit(c: char) -> bool {
    '0' <= c && c <= '9'
}

pub open spec fn is_num_char(c: char) -> bool {
    is_digit(c) || c == '.'
}

pub open spec fn is_ident_start(c: char) -> bool {
    ('a' <= c && c <= 'z') || ('A' <= c && c <= 'Z') || c == '_'
}

pub open spec fn is_ident_char(c: char) -> bool {
    is_ident_start(c) || is_digit(c)
}

pub open spec fn is_space(c: char) -> bool {
    c == ' ' || c == '\t' || c == '\r'
}

/// End of the maximal run of number characters that starts at `i`.
pub open spec fn num_run_end(s: Seq<char>, i: int) -> int
    decreases s.len() - i when 0 <= i <= s.len()
{
    if i < s.len() && is_num_char(s[i]) {
        num_run_end(s, i + 1)
    } else {
        i
    }
}

/// End of the maximal run of identifier characters that starts at `i`.
pub open spec fn ident_run_end(s: Seq<char>, i: int) -> int
    decreases s.len() - i when 0 <= i <= s.len()
{
    if i < s.len() && is_ident_char(s[i]) {
        ident_run_end(s, i + 1)
    } else {
        i
    }
}

pub proof fn lemma_num_run_end(s: Seq<char>, i: int)
    requires
        0 <= i <= s.len(),
    ensures
        i <= num_run_end(s, i) <= s.len(),
        forall|k: int| i <= k < num_run_end(s, i) ==> is_num_char(#[trigger] s[k]),
        num_run_end(s, i) < s.len() ==> !is_num_char(s[num_run_end(s, i)]),
    decreases s.len() - i,
{
    if i < s.len() && is_num_char(s[i]) {
        lemma_num_run_end(s, i + 1);
    }
}

pub proof fn lemma_ident_run_end(s: Seq<char>, i: int)
    requires
        0 <= i <= s.len(),
    ensures
        i <= ident_run_end(s, i) <= s.len(),
        forall|k: int| i <= k < ident_run_end(s, i) ==> is_ident_char(#[trigger] s[k]),
        ident_run_end(s, i) < s.len() ==> !is_ident_char(s[ident_run_end(s, i)]),
    decreases s.len() - i,
{
    if i < s.len() && is_ident_char(s[i]) {
        lemma_ident_run_end(s, i + 1);
    }
}

pub open spec fn count_digits(s: Seq<char>) -> int
    decreases s.len(),
{
    if s.len() == 0 {
        0
    } else {
        count_digits(s.drop_last()) + if is_digit(s.last()) { 1int } else { 0int }
    }
}

pub open spec fn count_dots(s: Seq<char>) -> int
    decreases s.len(),
{
    if s.len() == 0 {
        0
    } else {
        count_dots(s.drop_last()) + if s.last() == '.' { 1int } else { 0int }
    }
}

/// A numeric literal is valid when it has at least one digit and at most one
/// decimal point.
pub open spec fn valid_number(s: Seq<char>) -> bool {
    count_digits(s) >= 1 && count_dots(s) <= 1
}

pub open spec fn keyword_of(s: Seq<char>) -> Option<Keyword> {
    if s.len() == 2 && s[0] == 'f' && s[1] == 'n' {
        Some(Keyword::Fn)
    } else if s.len() == 2 && s[0] == 'i' && s[1] == 'f' {
        Some(Keyword::If)
    } else if s.len() == 4 && s[0] == 'e' && s[1] == 'l' && s[2] == 's' && s[3] == 'e' {
        Some(Keyword::Else)
    } else {
        None
    }
}

pub open spec fn punct_token(c: char) -> Option<TokenV> {
    if c == '+' {
        Some(TokenV::Plus)
    } else if c == '-' {
        Some(TokenV::Minus)
    } else if c == '*' {
        Some(TokenV::Star)
    } else if c == '/' {
        Some(TokenV::Slash)
    } else if c == '%' {
        Some(TokenV::Percent)
    } else if c == '^' {
        Some(TokenV::Caret)
    } else if c == '(' {
        Some(TokenV::LParen)
    } else if c == ')' {
        Some(TokenV::RParen)
    } else if c == '{' {
        Some(TokenV::LBrace)
    } else if c == '}' {
        Some(TokenV::RBrace)
    } else if c == ',' {
        Some(TokenV::Comma)
    } else if c == '=' {
        Some(TokenV::Equal)
    } else {
        None
    }
}

pub open spec fn prepend(t: TokenV, r: Result<Seq<TokenV>, TokenizeError>) -> Result<
    Seq<TokenV>,
    TokenizeError,
> {
    match r {
        Ok(ts) => Ok(seq![t] + ts),
        Err(e) => Err(e),
    }
}

/// The token stream of the text `s` from position `i` on.
pub open spec fn spec_tokenize(s: Seq<char>, i: int) -> Result<Seq<TokenV>, TokenizeError>
    decreases s.len() - i when 0 <= i <= s.len() via spec_tokenize_decreases
{
    if i >= s.len() {
        Ok(Seq::empty())
    } else {
        let c = s[i];
        if is_space(c) {
            spec_tokenize(s, i + 1)
        } else if c == '\n' {
            prepend(TokenV::Newline, spec_tokenize(s, i + 1))
        } else if is_num_char(c) {
            let j = num_run_end(s, i);
            let text = s.subrange(i, j);
            if valid_number(text) {
                prepend(TokenV::Number(text), spec_tokenize(s, j))
            } else {
                Err(TokenizeError::InvalidNumber)
            }
        } else if is_ident_start(c) {
            let j = ident_run_end(s, i);
            let text = s.subrange(i, j);
            let t = match keyword_of(text) {
                Some(k) => TokenV::Keyword(k),
                None => TokenV::Identifier(text),
            };
            prepend(t, spec_tokenize(s, j))
        } else {
            match punct_token(c) {
                Some(t) => prepend(t, spec_tokenize(s, i + 1)),
                None => Err(TokenizeError::UnexpectedCharacter),
            }
        }
    }
}

#[via_fn]
proof fn spec_tokenize_decreases(s: Seq<char>, i: int) {
    if 0 <= i && i < s.len() {
        if is_num_char(s[i]) {
            lemma_num_run_end(s, i);
        }
        if is_ident_start(s[i]) {
            lemma_ident_run_end(s, i);
        }
    }
}

pub open spec fn toks_view(v: Vec<Token>) -> Seq<TokenV> {
    v@.map_values(|t: Token| t@)
}

/// What `tokenize` returns: the stream that `spec_tokenize` defines, or its
/// error.
pub open spec fn tokenize_post(r: Result<Vec<Token>, TokenizeError>, s: Seq<char>) -> bool {
    match (r, spec_tokenize(s, 0)) {
        (Ok(v), Ok(ts)) => toks_view(v) == ts,
        (Err(e1), Err(e2)) => e1 == e2,
        _ => false,
    }
}

pub open spec fn prepend_all(pre: Seq<TokenV>, r: Result<Seq<TokenV>, TokenizeError>) -> Result<
    Seq<TokenV>,
    TokenizeError,
> {
    match r {
        Ok(ts) => Ok(pre + ts),
        Err(e) => Err(e),
    }
}

fn is_number_char(c: char) -> (r: bool)
    ensures
        r == is_num_char(c),
{
    ('0' <= c && c <= '9') || c == '.'
}

fn is_identifier_char(c: char) -> (r: bool)
    ensures
        r == is_ident_char(c),
{
    ('a' <= c && c <= 'z') || ('A' <= c && c <= 'Z') || c == '_' || ('0' <= c && c <= '9')
}

/// One step of the stream: putting the token `t` between `pre` and the rest
/// keeps the whole stream.
proof fn lemma_prepend_step(
    pre: Seq<TokenV>,
    t: TokenV,
    rest: Result<Seq<TokenV>, TokenizeError>,
)
    ensures
        prepend_all(pre, prepend(t, rest)) == prepend_all(pre.push(t), rest),
{
    match rest {
        Ok(ts) => {
            assert(pre + (seq![t] + ts) =~= pre.push(t) + ts);
        },
        Err(_) => {},
    }
}

/// Splits the text into tokens.
///
/// Whitespace inside a line is skipped; a newline is a token of its own. A
/// maximal run of digits and points must form a valid numeric literal. A
/// letter or underscore starts an identifier or keyword. Any twelve of the
/// fixed punctuation characters map to their tokens; any other character is
/// an error.
pub fn tokenize(text: &str) -> (r: Result<Vec<Token>, TokenizeError>)
    ensures
        tokenize_post(r, text@),
{
    let n = text.unicode_len();
    let mut toks: Vec<Token> = Vec::new();
    let mut i: usize = 0;
    while i < n
        invariant
            i <= n,
            n == text@.len(),
            spec_tokenize(text@, 0) == prepend_all(toks_view(toks), spec_tokenize(text@, i as int)),
        decreases n - i,
    {
        let ghost s = text@;
        let ghost i0 = i as int;
        let ghost pre = toks_view(toks);
        let c = text.get_char(i);
        if c == ' ' || c == '\t' || c == '\r' {
            i += 1;
            proof {
                assert(spec_tokenize(s, i0) == spec_tokenize(s, i as int));
            }
        } else if c == '\n' {
            toks.push(Token::Newline);
            i += 1;
            proof {
                lemma_prepend_step(pre, TokenV::Newline, spec_tokenize(s, i as int));
                assert(toks_view(toks) =~= pre.push(TokenV::Newline));
            }
        } else if is_number_char(c) {
            let mut j = i;
            while j < n && is_number_char(text.get_char(j))
                invariant
                    i <= j <= n,
                    n == text@.len(),
                    num_run_end(text@, i as int) == num_run_end(text@, j as int),
                decreases n - j,
            {
                j += 1;
            }
            proof {
                assert(num_run_end(s, j as int) == j as int);
                lemma_num_run_end(s, i0);
            }
            let ghost text_v = s.subrange(i0, j as int);
            let mut digits: usize = 0;
            let mut dots: usize = 0;
            let mut k = i;
            while k < j
                invariant
                    i <= k <= j <= n,
                    n == text@.len(),
                    s == text@,
                    i0 == i as int,
                    digits == count_digits(text@.subrange(i as int, k as int)),
                    dots == count_dots(text@.subrange(i as int, k as int)),
                    digits <= k - i,
                    dots <= k - i,
                decreases j - k,
            {
                let cc = text.get_char(k);
                proof {
                    assert(s.subrange(i0, k + 1).drop_last() =~= s.subrange(i0, k as int));
                    assert(s.subrange(i0, k + 1).last() == s[k as int]);
                }
                if '0' <= cc && cc <= '9' {
                    digits += 1;
                } else if cc == '.' {
                    dots += 1;
                }
                k += 1;
            }
            if digits >= 1 && dots <= 1 {
                let txt = text.substring_char(i, j).to_owned();
                toks.push(Token::Number(txt));
                proof {
                    assert(spec_tokenize(s, i0) == prepend(
                        TokenV::Number(text_v),
                        spec_tokenize(s, j as int),
                    ));
                    lemma_prepend_step(pre, TokenV::Number(text_v), spec_tokenize(s, j as int));
                    assert(toks_view(toks) =~= pre.push(TokenV::Number(text_v)));
                }
                i = j;
            } else {
                proof {
                    assert(spec_tokenize(s, i0) == Err::<Seq<TokenV>, TokenizeError>(
                        TokenizeError::InvalidNumber,
                    ));
                }
                return Err(TokenizeError::InvalidNumber);
            }
        } else if ('a' <= c && c <= 'z') || ('A' <= c && c <= 'Z') || c == '_' {
            let mut j = i;
            while j < n && is_identifier_char(text.get_char(j))
                invariant
                    i <= j <= n,
                    n == text@.len(),
                    ident_run_end(text@, i as int) == ident_run_end(text@, j as int),
                decreases n - j,
            {
                j += 1;
            }
            proof {
                assert(ident_run_end(s, j as int) == j as int);
                lemma_ident_run_end(s, i0);
            }
            let ghost text_v = s.subrange(i0, j as int);
            let len = j - i;
            let tok: Token;
            if len == 2 && text.get_char(i) == 'f' && text.get_char(i + 1) == 'n' {
                tok = Token::Keyword(Keyword::Fn);
                proof {
                    assert(keyword_of(text_v) == Some(Keyword::Fn));
                }
            } else if len == 2 && text.get_char(i) == 'i' && text.get_char(i + 1) == 'f' {
                tok = Token::Keyword(Keyword::If);
                proof {
                    assert(keyword_of(text_v) == Some(Keyword::If));
                }
            } else if len == 4 && text.get_char(i) == 'e' && text.get_char(i + 1) == 'l'
                && text.get_char(i + 2) == 's' && text.get_char(i + 3) == 'e' {
                tok = Token::Keyword(Keyword::Else);
                proof {
                    assert(keyword_of(text_v) == Some(Keyword::Else));
                }
            } else {
                let txt = text.substring_char(i, j).to_owned();
                tok = Token::Identifier(txt);
                proof {
                    assert(keyword_of(text_v) is None);
                }
            }
            let ghost tv = tok@;
            toks.push(tok);
            proof {
                assert(spec_tokenize(s, i0) == prepend(tv, spec_tokenize(s, j as int)));
                lemma_prepend_step(pre, tv, spec_tokenize(s, j as int));
                assert(toks_view(toks) =~= pre.push(tv));
            }
            i = j;
        } else {
            let tok: Token;
            if c == '+' {
                tok = Token::Plus;
            } else if c == '-' {
                tok = Token::Minus;
            } else if c == '*' {
                tok = Token::Star;
            } else if c == '/' {
                tok = Token::Slash;
            } else if c == '%' {
                tok = Token::Percent;
            } else if c == '^' {
                tok = Token::Caret;
            } else if c == '(' {
                tok = Token::LParen;
            } else if c == ')' {
                tok = Token::RParen;
            } else if c == '{' {
                tok = Token::LBrace;
            } else if c == '}' {
                tok = Token::RBrace;
            } else if c == ',' {
                tok = Token::Comma;
            } else if c == '=' {
                tok = Token::Equal;
            } else {
                proof {
                    assert(spec_tokenize(s, i0) == Err::<Seq<TokenV>, TokenizeError>(
                        TokenizeError::UnexpectedCharacter,
                    ));
                }
                return Err(TokenizeError::UnexpectedCharacter);
            }
            let ghost tv = tok@;
            proof {
                assert(punct_token(s[i0]) == Some(tv));
                assert(spec_tokenize(s, i0) == prepend(tv, spec_tokenize(s, i0 + 1)));
                lemma_prepend_step(pre, tv, spec_tokenize(s, i0 + 1));
            }
            toks.push(tok);
            proof {
                assert(toks_view(toks) =~= pre.push(tv));
            }
            i += 1;
        }
    }
    proof {
        assert(spec_tokenize(text@, i as int) == Ok::<Seq<TokenV>, TokenizeError>(Seq::empty()));
        assert(toks_view(toks) + Seq::<TokenV>::empty() =~= toks_view(toks));
    }
    Ok(toks)
}

/// A text of newlines alone tokenizes to newline tokens alone.
pub proof fn lemma_tokenize_newlines(s: Seq<char>, i: int)
    requires
        0 <= i <= s.len(),
        forall|k: int| i <= k < s.len() ==> s[k] == '\n',
    ensures
        spec_tokenize(s, i) matches Ok(ts) && forall|k: int|
            0 <= k < ts.len() ==> (#[trigger] ts[k]) is Newline,
    decreases s.len() - i,
{
    if i < s.len() {
        lemma_tokenize_newlines(s, i + 1);
    }
}

} // verus!
