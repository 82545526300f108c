//! Tokens of the source language and the lexer that produces them.
use vstd::prelude::*;
use crate::text::{alphabetic, alphanumeric, chars_of, is_alphabetic, is_alphanumeric, is_decimal_digit, is_digit, push_char, str_eq};

verus! {

/// Keywords and punctuation.
#[derive(Debug, Clone, Copy, PartialEq, Eq, Structural)]
pub enum Keyword {
    Fn,
    Let,
    If,
    Else,
    While,
    Inline,
    LeftCurly,
    RightCurly,
    LeftParenthese,
    RightParenthese,
    Assign,
    Comma,
}

/// One token. A number keeps its decimal text: the logic only ever copies it.
#[derive(Debug)]
pub enum Token {
    Keyword(Keyword),
    Identifier(String),
    Number(String),
    String(String),
}

/// The mathematical value of a token.
pub enum TokV {
    Kw(Keyword),
    Ident(Seq<char>),
    Num(Seq<char>),
    Str(Seq<char>),
}

impl View for Token {
    type V = TokV;

    open spec fn view(&self) -> TokV {
        match self {
            Token::Keyword(k) => TokV::Kw(*k),
            Token::Identifier(s) => TokV::Ident(s@),
            Token::Number(s) => TokV::Num(s@),
            Token::String(s) => TokV::Str(s@),
        }
    }
}

/// The views of a token sequence.
pub open spec fn toks_view(t: Seq<Token>) -> Seq<TokV> {
    t.map_values(|x: Token| x@)
}

/// Why the source text could not be split into tokens. Lines and columns count from 1.
#[derive(Debug)]
pub enum LexError {
    /// A character that starts no token.
    UnexpectedCharacter { character: char, line: usize, column: usize },
    /// A backslash at the very end of the text, in the string literal that starts
    /// at the given position.
    UnterminatedEscape { line: usize, column: usize },
    /// A backslash followed by a character other than `\`, `"` or `n`, in the string
    /// literal that starts at the given position.
    UnknownEscape { character: char, line: usize, column: usize },
    /// A run of digits and dots that is no number (more than one dot).
    InvalidNumber { text: String, line: usize, column: usize },
}

/// The view of a lexing error.
pub enum LexErrV {
    UnexpectedCharacter(char, nat, nat),
    UnterminatedEscape(nat, nat),
    UnknownEscape(char, nat, nat),
    InvalidNumber(Seq<char>, nat, nat),
}

impl View for LexError {
    type V = LexErrV;

    open spec fn view(&self) -> LexErrV {
        match self {
            LexError::UnexpectedCharacter { character, line, column } =>
                LexErrV::UnexpectedCharacter(*character, *line as nat, *column as nat),
            LexError::UnterminatedEscape { line, column } =>
                LexErrV::UnterminatedEscape(*line as nat, *column as nat),
            LexError::UnknownEscape { character, line, column } =>
                LexErrV::UnknownEscape(*character, *line as nat, *column as nat),
            LexError::InvalidNumber { text, line, column } =>
                LexErrV::InvalidNumber(text@, *line as nat, *column as nat),
        }
    }
}

/// Whether `c` may start an identifier.
pub open spec fn starts_ident(c: char) -> bool {
    alphabetic(c) || c == '_' || c == '@'
}

/// Whether `c` may continue an identifier.
pub open spec fn continues_ident(c: char) -> bool {
    alphanumeric(c) || c == '_'
}

/// The end of the identifier characters from `k` on.
pub open spec fn ident_end(s: Seq<char>, k: int) -> int
    decreases s.len() - k,
{
    if 0 <= k < s.len() && continues_ident(s[k]) {
        ident_end(s, k + 1)
    } else {
        k
    }
}

/// The end of the digits and dots from `k` on.
pub open spec fn number_end(s: Seq<char>, k: int) -> int
    decreases s.len() - k,
{
    if 0 <= k < s.len() && (is_decimal_digit(s[k]) || s[k] == '.') {
        number_end(s, k + 1)
    } else {
        k
    }
}

/// How many dots `w` holds.
pub open spec fn dot_count(w: Seq<char>) -> nat
    decreases w.len(),
{
    if w.len() == 0 {
        0
    } else {
        dot_count(w.drop_last()) + if w.last() == '.' { 1nat } else { 0nat }
    }
}

/// A word read as a keyword, or else as an identifier.
pub open spec fn word_token(w: Seq<char>) -> TokV {
    if w == "fn"@ {
        TokV::Kw(Keyword::Fn)
    } else if w == "let"@ {
        TokV::Kw(Keyword::Let)
    } else if w == "if"@ {
        TokV::Kw(Keyword::If)
    } else if w == "else"@ {
        TokV::Kw(Keyword::Else)
    } else if w == "while"@ {
        TokV::Kw(Keyword::While)
    } else if w == "inline"@ {
        TokV::Kw(Keyword::Inline)
    } else {
        TokV::Ident(w)
    }
}

/// The punctuation token of `c`, if it is one.
pub open spec fn punct(c: char) -> Option<Keyword> {
    if c == '{' {
        Some(Keyword::LeftCurly)
    } else if c == '}' {
        Some(Keyword::RightCurly)
    } else if c == '(' {
        Some(Keyword::LeftParenthese)
    } else if c == ')' {
        Some(Keyword::RightParenthese)
    } else if c == '=' {
        Some(Keyword::Assign)
    } else if c == ',' {
        Some(Keyword::Comma)
    } else {
        None
    }
}

/// How a string literal body can fail.
pub enum StrFault {
    UnterminatedEscape,
    UnknownEscape(char),
}

/// The body of a string literal from `k` on, after the characters `content`:
/// what it holds and the position after its closing quote. A literal that the
/// text ends inside ends there.
pub open spec fn lex_string(s: Seq<char>, k: int, content: Seq<char>) -> Result<(Seq<char>, int), StrFault>
    decreases s.len() - k,
{
    if k < 0 || k >= s.len() {
        Ok((content, k))
    } else if s[k] == '\\' {
        if k + 1 >= s.len() {
            Err(StrFault::UnterminatedEscape)
        } else if s[k + 1] == '\\' {
            lex_string(s, k + 2, content.push('\\'))
        } else if s[k + 1] == '"' {
            lex_string(s, k + 2, content.push('"'))
        } else if s[k + 1] == 'n' {
            lex_string(s, k + 2, content.push('\n'))
        } else {
            Err(StrFault::UnknownEscape(s[k + 1]))
        }
    } else if s[k] == '"' {
        Ok((content, k + 1))
    } else {
        lex_string(s, k + 1, content.push(s[k]))
    }
}

/// The tokens of `s` from position `i` on, after the tokens `acc`, with the
/// cursor at `line` and `col`. Every token reads at least one character and
/// stops inside the text; the tests of `j` against `i` and the length only make
/// that evident to the termination check.
pub open spec fn lex(s: Seq<char>, i: int, line: nat, col: nat, acc: Seq<TokV>) -> Result<
    Seq<TokV>,
    LexErrV,
>
    decreases s.len() - i,
{
    if i < 0 || i >= s.len() {
        Ok(acc)
    } else {
        let c = s[i];
        if starts_ident(c) {
            let j = ident_end(s, i + 1);
            if j <= i || j > s.len() {
                Ok(acc)
            } else {
                lex(s, j, line, (col + (j - i)) as nat, acc.push(word_token(s.subrange(i, j))))
            }
        } else if c == '"' {
            match lex_string(s, i + 1, Seq::empty()) {
                Err(StrFault::UnterminatedEscape) => Err(LexErrV::UnterminatedEscape(line, col)),
                Err(StrFault::UnknownEscape(e)) => Err(LexErrV::UnknownEscape(e, line, col)),
                Ok((content, j)) => if j <= i || j > s.len() {
                    Ok(acc)
                } else {
                    lex(s, j, line, (col + (j - i)) as nat, acc.push(TokV::Str(content)))
                },
            }
        } else if is_decimal_digit(c) {
            let j = number_end(s, i);
            let w = s.subrange(i, j);
            if j <= i || j > s.len() {
                Ok(acc)
            } else if dot_count(w) > 1 {
                Err(LexErrV::InvalidNumber(w, line, col))
            } else {
                lex(s, j, line, (col + (j - i)) as nat, acc.push(TokV::Num(w)))
            }
        } else if punct(c) is Some {
            lex(s, i + 1, line, col + 1, acc.push(TokV::Kw(punct(c)->0)))
        } else if c == ' ' || c == '\t' {
            lex(s, i + 1, line, col + 1, acc)
        } else if c == '\r' {
            lex(s, i + 1, line, col, acc)
        } else if c == '\n' {
            lex(s, i + 1, line + 1, 1, acc)
        } else {
            Err(LexErrV::UnexpectedCharacter(c, line, col))
        }
    }
}

/// The tokens of a whole text.
pub open spec fn lex_all(s: Seq<char>) -> Result<Seq<TokV>, LexErrV> {
    lex(s, 0, 1, 1, Seq::empty())
}

fn word_token_exec(w: String) -> (r: Token)
    ensures
        r@ == word_token(w@),
{
    if str_eq(w.as_str(), "fn") {
        Token::Keyword(Keyword::Fn)
    } else if str_eq(w.as_str(), "let") {
        Token::Keyword(Keyword::Let)
    } else if str_eq(w.as_str(), "if") {
        Token::Keyword(Keyword::If)
    } else if str_eq(w.as_str(), "else") {
        Token::Keyword(Keyword::Else)
    } else if str_eq(w.as_str(), "while") {
        Token::Keyword(Keyword::While)
    } else if str_eq(w.as_str(), "inline") {
        Token::Keyword(Keyword::Inline)
    } else {
        Token::Identifier(w)
    }
}

fn punct_of(c: char) -> (r: Option<Keyword>)
    ensures
        r == punct(c),
{
    if c == '{' {
        Some(Keyword::LeftCurly)
    } else if c == '}' {
        Some(Keyword::RightCurly)
    } else if c == '(' {
        Some(Keyword::LeftParenthese)
    } else if c == ')' {
        Some(Keyword::RightParenthese)
    } else if c == '=' {
        Some(Keyword::Assign)
    } else if c == ',' {
        Some(Keyword::Comma)
    } else {
        None
    }
}

/// Splits source text into tokens.
pub fn tokenize(code: &str) -> (r: Result<Vec<Token>, LexError>)
    requires
        code@.len() < usize::MAX,
    ensures
        match lex_all(code@) {
            Ok(ts) => r matches Ok(v) && toks_view(v@) == ts,
            Err(e) => r matches Err(x) && x@ == e,
        },
{
    let chars = chars_of(code);
    let ghost s = code@;
    let n = chars.len();
    let mut result: Vec<Token> = Vec::new();
    let mut line: usize = 1;
    let mut col: usize = 1;
    let mut i: usize = 0;
    assert(toks_view(result@) =~= Seq::<TokV>::empty());
    while i < n
        invariant
            i <= n,
            n == s.len(),
            s == code@,
            chars@ == s,
            n < usize::MAX,
            line <= i + 1,
            col <= i + 1,
            lex_all(s) == lex(s, i as int, line as nat, col as nat, toks_view(result@)),
        decreases n - i,
    {
        let c = chars[i];
        let ghost before = toks_view(result@);
        if is_alphabetic(c) || c == '_' || c == '@' {
            let mut word = String::new();
            push_char(&mut word, c);
            let mut k = i + 1;
            assert(word@ =~= s.subrange(i as int, k as int));
            while k < n && (is_alphanumeric(chars[k]) || chars[k] == '_')
                invariant
                    i + 1 <= k <= n,
                    n == s.len(),
                    chars@ == s,
                    ident_end(s, i + 1) == ident_end(s, k as int),
                    word@ == s.subrange(i as int, k as int),
                decreases n - k,
            {
                push_char(&mut word, chars[k]);
                k += 1;
                assert(word@ =~= s.subrange(i as int, k as int));
            }
            let tok = word_token_exec(word);
            result.push(tok);
            assert(toks_view(result@) =~= before.push(word_token(s.subrange(i as int, k as int))));
            col = col + (k - i);
            i = k;
        } else if c == '"' {
            let mut content = String::new();
            let mut k = i + 1;
            loop
                invariant_except_break
                    lex_string(s, i + 1, Seq::empty()) == lex_string(s, k as int, content@),
                invariant
                    i + 1 <= k <= n,
                    n == s.len(),
                    s == code@,
                    chars@ == s,
                    i < n,
                    s[i as int] == '"',
                    !starts_ident(s[i as int]),
                    lex_all(s) == lex(s, i as int, line as nat, col as nat, toks_view(result@)),
                ensures
                    lex_string(s, i + 1, Seq::empty()) == Ok::<(Seq<char>, int), StrFault>(
                        (content@, k as int),
                    ),
                    i + 1 <= k <= n,
                decreases n - k,
            {
                if k >= n {
                    break;
                }
                let ch = chars[k];
                if ch == '\\' {
                    if k + 1 >= n {
                        return Err(LexError::UnterminatedEscape { line, column: col });
                    }
                    let e = chars[k + 1];
                    if e == '\\' {
                        push_char(&mut content, '\\');
                    } else if e == '"' {
                        push_char(&mut content, '"');
                    } else if e == 'n' {
                        push_char(&mut content, '\n');
                    } else {
                        return Err(LexError::UnknownEscape { character: e, line, column: col });
                    }
                    k = k + 2;
                } else if ch == '"' {
                    k = k + 1;
                    break;
                } else {
                    push_char(&mut content, ch);
                    k = k + 1;
                }
            }
            result.push(Token::String(content));
            assert(toks_view(result@) =~= before.push(TokV::Str(content@)));
            col = col + (k - i);
            i = k;
        } else if is_digit(c) {
            let mut text = String::new();
            let mut dots: usize = 0;
            let mut k = i;
            assert(text@ =~= s.subrange(i as int, k as int));
            while k < n && (is_digit(chars[k]) || chars[k] == '.')
                invariant
                    i <= k <= n,
                    n == s.len(),
                    chars@ == s,
                    number_end(s, i as int) == number_end(s, k as int),
                    text@ == s.subrange(i as int, k as int),
                    dots as nat == dot_count(s.subrange(i as int, k as int)),
                    dots <= k - i,
                decreases n - k,
            {
                let ch = chars[k];
                if ch == '.' {
                    dots = dots + 1;
                }
                push_char(&mut text, ch);
                k += 1;
                assert(s.subrange(i as int, k as int).drop_last() =~= s.subrange(i as int, k - 1));
                assert(text@ =~= s.subrange(i as int, k as int));
            }
            if dots > 1 {
                return Err(LexError::InvalidNumber { text, line, column: col });
            }
            let ghost w = text@;
            result.push(Token::Number(text));
            assert(toks_view(result@) =~= before.push(TokV::Num(w)));
            col = col + (k - i);
            i = k;
        } else if let Some(k) = punct_of(c) {
            result.push(Token::Keyword(k));
            assert(toks_view(result@) =~= before.push(TokV::Kw(k)));
            col = col + 1;
            i = i + 1;
        } else if c == ' ' || c == '\t' {
            col = col + 1;
            i = i + 1;
        } else if c == '\r' {
            i = i + 1;
        } else if c == '\n' {
            line = line + 1;
            col = 1;
            i = i + 1;
        } else {
            return Err(LexError::UnexpectedCharacter { character: c, line, column: col });
        }
    }
    Ok(result)
}

} // verus!
