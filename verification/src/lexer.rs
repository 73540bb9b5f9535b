//! Splits task network text into tokens. Blanks and `//` comments separate
//! tokens; an enum path `Type::Variant` is one token when written without
//! blanks.
use vstd::prelude::*;

verus! {

/// The kinds of token.
#[derive(Debug, Clone, Copy, PartialEq, Eq, Structural)]
pub enum TokKind {
    /// A name: a letter or `_`, then letters, digits and `_`.
    Ident,
    /// A double-quoted text without escapes.
    Str,
    /// An integer literal: an optional `-` and digits.
    Int,
    /// A float literal: an optional `-`, digits, `.`, digits.
    Float,
    /// A version: digits, `.`, digits, `.`, digits.
    SemVer,
    /// A name, `::`, a name.
    EnumPath,
    LBrace,
    RBrace,
    LBracket,
    RBracket,
    LParen,
    RParen,
    Comma,
    Colon,
    EqEq,
    NotEq,
    Ge,
    Le,
    Gt,
    Lt,
    Assign,
    PlusAssign,
    MinusAssign,
}

/// A token: its kind and the characters `start..end` it spans; for an enum
/// path, `mid` is where `::` begins (otherwise it equals `start`).
#[derive(Debug, Clone, Copy, PartialEq, Eq, Structural)]
pub struct Token {
    pub kind: TokKind,
    pub start: usize,
    pub end: usize,
    pub mid: usize,
}

/// A token of kind `kind` spanning `start..end`.
pub open spec fn tok(kind: TokKind, start: int, end: int, mid: int) -> Token {
    Token { kind, start: start as usize, end: end as usize, mid: mid as usize }
}

pub open spec fn is_digit(c: char) -> bool {
    '0' <= c <= '9'
}

pub open spec fn is_ident_start(c: char) -> bool {
    ('a' <= c <= 'z') || ('A' <= c <= 'Z') || c == '_'
}

pub open spec fn is_ident_char(c: char) -> bool {
    is_ident_start(c) || is_digit(c)
}

pub open spec fn is_blank(c: char) -> bool {
    c == ' ' || c == '\t' || c == '\n' || c == '\r'
}

/// The end of the run of name characters from `i`.
pub open spec fn ident_end(s: Seq<char>, i: int) -> int
    decreases s.len() - i,
{
    if 0 <= i < s.len() && is_ident_char(s[i]) {
        ident_end(s, i + 1)
    } else {
        i
    }
}

/// The end of the run of digits from `i`.
pub open spec fn digits_end(s: Seq<char>, i: int) -> int
    decreases s.len() - i,
{
    if 0 <= i < s.len() && is_digit(s[i]) {
        digits_end(s, i + 1)
    } else {
        i
    }
}

/// The position of the first line break from `i` on, or the length.
pub open spec fn line_end(s: Seq<char>, i: int) -> int
    decreases s.len() - i,
{
    if 0 <= i < s.len() && s[i] != '\n' {
        line_end(s, i + 1)
    } else {
        i
    }
}

/// The position of the first `"` from `i` on, or the length.
pub open spec fn quote_end(s: Seq<char>, i: int) -> int
    decreases s.len() - i,
{
    if 0 <= i < s.len() && s[i] != '"' {
        quote_end(s, i + 1)
    } else {
        i
    }
}

pub proof fn lemma_ident_end(s: Seq<char>, i: int)
    requires
        0 <= i <= s.len(),
    ensures
        i <= ident_end(s, i) <= s.len(),
        forall|k: int| i <= k < ident_end(s, i) ==> is_ident_char(#[trigger] s[k]),
        ident_end(s, i) < s.len() ==> !is_ident_char(s[ident_end(s, i)]),
    decreases s.len() - i,
{
    if i < s.len() && is_ident_char(s[i]) {
        lemma_ident_end(s, i + 1);
    }
}

pub proof fn lemma_digits_end(s: Seq<char>, i: int)
    requires
        0 <= i <= s.len(),
    ensures
        i <= digits_end(s, i) <= s.len(),
        forall|k: int| i <= k < digits_end(s, i) ==> is_digit(#[trigger] s[k]),
        digits_end(s, i) < s.len() ==> !is_digit(s[digits_end(s, i)]),
    decreases s.len() - i,
{
    if i < s.len() && is_digit(s[i]) {
        lemma_digits_end(s, i + 1);
    }
}

pub proof fn lemma_line_end(s: Seq<char>, i: int)
    requires
        0 <= i <= s.len(),
    ensures
        i <= line_end(s, i) <= s.len(),
    decreases s.len() - i,
{
    if i < s.len() && s[i] != '\n' {
        lemma_line_end(s, i + 1);
    }
}

pub proof fn lemma_quote_end(s: Seq<char>, i: int)
    requires
        0 <= i <= s.len(),
    ensures
        i <= quote_end(s, i) <= s.len(),
        forall|k: int| i <= k < quote_end(s, i) ==> #[trigger] s[k] != '"',
        quote_end(s, i) < s.len() ==> s[quote_end(s, i)] == '"',
    decreases s.len() - i,
{
    if i < s.len() && s[i] != '"' {
        lemma_quote_end(s, i + 1);
    }
}

/// The first position from `i` on that is not a blank or inside a comment.
pub open spec fn skip_trivia(s: Seq<char>, i: int) -> int
    decreases s.len() - i,
{
    if i < 0 || i >= s.len() {
        i
    } else if is_blank(s[i]) {
        skip_trivia(s, i + 1)
    } else if s[i] == '/' && i + 1 < s.len() && s[i + 1] == '/' {
        proof {
            lemma_line_end(s, i + 2);
        }
        skip_trivia(s, line_end(s, i + 2))
    } else {
        i
    }
}

pub proof fn lemma_skip_trivia(s: Seq<char>, i: int)
    requires
        0 <= i <= s.len(),
    ensures
        i <= skip_trivia(s, i) <= s.len(),
    decreases s.len() - i,
{
    if i < s.len() {
        if is_blank(s[i]) {
            lemma_skip_trivia(s, i + 1);
        } else if s[i] == '/' && i + 1 < s.len() && s[i + 1] == '/' {
            lemma_line_end(s, i + 2);
            lemma_skip_trivia(s, line_end(s, i + 2));
        }
    }
}

/// The number token (integer, float or version) that starts at `i`.
pub open spec fn number_token(s: Seq<char>, i: int) -> Token {
    let neg = s[i] == '-';
    let e1 = digits_end(s, if neg { i + 1 } else { i });
    if e1 + 1 < s.len() && s[e1] == '.' && is_digit(s[e1 + 1]) {
        let e2 = digits_end(s, e1 + 1);
        if !neg && e2 + 1 < s.len() && s[e2] == '.' && is_digit(s[e2 + 1]) {
            tok(TokKind::SemVer, i, digits_end(s, e2 + 1), i)
        } else {
            tok(TokKind::Float, i, e2, i)
        }
    } else {
        tok(TokKind::Int, i, e1, i)
    }
}

/// The token that starts at `i` (a position that is not a blank or a
/// comment), if the text there is one.
pub open spec fn next_token(s: Seq<char>, i: int) -> Option<Token> {
    let c = s[i];
    let n = s.len();
    if is_ident_start(c) {
        let e = ident_end(s, i + 1);
        if e + 2 < n && s[e] == ':' && s[e + 1] == ':' && is_ident_start(s[e + 2]) {
            Some(tok(TokKind::EnumPath, i, ident_end(s, e + 3), e))
        } else {
            Some(tok(TokKind::Ident, i, e, i))
        }
    } else if c == '"' {
        let q = quote_end(s, i + 1);
        if q < n {
            Some(tok(TokKind::Str, i, q + 1, i))
        } else {
            None
        }
    } else if is_digit(c) || (c == '-' && i + 1 < n && is_digit(s[i + 1])) {
        Some(number_token(s, i))
    } else if c == '-' {
        if i + 1 < n && s[i + 1] == '=' {
            Some(tok(TokKind::MinusAssign, i, i + 2, i))
        } else {
            None
        }
    } else if c == '+' {
        if i + 1 < n && s[i + 1] == '=' {
            Some(tok(TokKind::PlusAssign, i, i + 2, i))
        } else {
            None
        }
    } else if c == '=' {
        if i + 1 < n && s[i + 1] == '=' {
            Some(tok(TokKind::EqEq, i, i + 2, i))
        } else {
            Some(tok(TokKind::Assign, i, i + 1, i))
        }
    } else if c == '!' {
        if i + 1 < n && s[i + 1] == '=' {
            Some(tok(TokKind::NotEq, i, i + 2, i))
        } else {
            None
        }
    } else if c == '>' {
        if i + 1 < n && s[i + 1] == '=' {
            Some(tok(TokKind::Ge, i, i + 2, i))
        } else {
            Some(tok(TokKind::Gt, i, i + 1, i))
        }
    } else if c == '<' {
        if i + 1 < n && s[i + 1] == '=' {
            Some(tok(TokKind::Le, i, i + 2, i))
        } else {
            Some(tok(TokKind::Lt, i, i + 1, i))
        }
    } else if c == '{' {
        Some(tok(TokKind::LBrace, i, i + 1, i))
    } else if c == '}' {
        Some(tok(TokKind::RBrace, i, i + 1, i))
    } else if c == '[' {
        Some(tok(TokKind::LBracket, i, i + 1, i))
    } else if c == ']' {
        Some(tok(TokKind::RBracket, i, i + 1, i))
    } else if c == '(' {
        Some(tok(TokKind::LParen, i, i + 1, i))
    } else if c == ')' {
        Some(tok(TokKind::RParen, i, i + 1, i))
    } else if c == ',' {
        Some(tok(TokKind::Comma, i, i + 1, i))
    } else if c == ':' {
        Some(tok(TokKind::Colon, i, i + 1, i))
    } else {
        None
    }
}

/// A token lies inside the text and spans at least one character; a text
/// token spans both its quotes; an enum path has a name on each side of
/// its `::`.
pub open spec fn token_wf(s: Seq<char>, t: Token) -> bool {
    &&& t.start <= t.mid <= t.end <= s.len()
    &&& t.start < t.end
    &&& t.kind == TokKind::Str ==> t.start + 2 <= t.end
    &&& t.kind == TokKind::EnumPath ==> t.start < t.mid && t.mid + 2 < t.end
}

pub proof fn lemma_next_token(s: Seq<char>, i: int)
    requires
        0 <= i < s.len(),
        s.len() <= usize::MAX,
    ensures
        next_token(s, i) matches Some(t) ==> t.start == i && token_wf(s, t),
{
    lemma_ident_end(s, i + 1);
    lemma_quote_end(s, i + 1);
    let c = s[i];
    if is_ident_start(c) {
        let e = ident_end(s, i + 1);
        if e + 2 < s.len() {
            lemma_ident_end(s, e + 3);
        }
    }
    if is_digit(c) || (c == '-' && i + 1 < s.len() && is_digit(s[i + 1])) {
        let neg = s[i] == '-';
        let d0 = if neg { i + 1 } else { i };
        lemma_digits_end(s, d0);
        let e1 = digits_end(s, d0);
        if e1 + 1 < s.len() {
            lemma_digits_end(s, e1 + 1);
            let e2 = digits_end(s, e1 + 1);
            if e2 + 1 < s.len() {
                lemma_digits_end(s, e2 + 1);
            }
        }
    }
}

/// The tokens of `s` from position `i` on, or `None` when some text there
/// is not a token.
pub open spec fn lex_from(s: Seq<char>, i: int) -> Option<Seq<Token>>
    decreases s.len() - i,
{
    if i < 0 || i > s.len() || s.len() > usize::MAX {
        None
    } else {
        let j = skip_trivia(s, i);
        proof {
            lemma_skip_trivia(s, i);
        }
        if j >= s.len() {
            Some(Seq::empty())
        } else {
            match next_token(s, j) {
                Some(t) => {
                    proof {
                        lemma_next_token(s, j);
                    }
                    match lex_from(s, t.end as int) {
                        Some(rest) => Some(seq![t] + rest),
                        None => None,
                    }
                },
                None => None,
            }
        }
    }
}

/// The tokens of `s`, or `None` when some text is not a token.
pub open spec fn lex(s: Seq<char>) -> Option<Seq<Token>> {
    lex_from(s, 0)
}

/// Every token lies inside the text, and the tokens come in text order
/// without overlapping.
pub open spec fn toks_wf(s: Seq<char>, ts: Seq<Token>) -> bool {
    &&& forall|k: int| 0 <= k < ts.len() ==> token_wf(s, #[trigger] ts[k])
    &&& forall|a: int, b: int| 0 <= a < b < ts.len() ==> #[trigger] ts[a].end <= #[trigger] ts[b].start
}

/// The tokens of a successful lex from `i` start at `i` or later and are
/// well formed.
pub proof fn lemma_lex_from_wf(s: Seq<char>, i: int)
    requires
        0 <= i <= s.len(),
    ensures
        lex_from(s, i) matches Some(ts) ==> toks_wf(s, ts) && forall|k: int|
            0 <= k < ts.len() ==> #[trigger] ts[k].start >= i,
    decreases s.len() - i,
{
    if s.len() <= usize::MAX {
        lemma_skip_trivia(s, i);
        let j = skip_trivia(s, i);
        if j < s.len() {
            lemma_next_token(s, j);
            if let Some(t) = next_token(s, j) {
                lemma_lex_from_wf(s, t.end as int);
                if let Some(rest) = lex_from(s, t.end as int) {
                    let ts = seq![t] + rest;
                    assert forall|k: int| 0 <= k < ts.len() implies token_wf(s, #[trigger] ts[k])
                        && ts[k].start >= i by {
                        if k > 0 {
                            assert(ts[k] == rest[k - 1]);
                        }
                    }
                    assert forall|a: int, b: int| 0 <= a < b < ts.len() implies #[trigger] ts[a].end
                        <= #[trigger] ts[b].start by {
                        assert(ts[b] == rest[b - 1]);
                        if a > 0 {
                            assert(ts[a] == rest[a - 1]);
                        }
                    }
                }
            }
        }
    }
}

/// The tokens of a successful lex are well formed.
pub proof fn lemma_lex_wf(s: Seq<char>)
    ensures
        lex(s) matches Some(ts) ==> toks_wf(s, ts),
{
    lemma_lex_from_wf(s, 0);
}

pub fn is_digit_exec(c: char) -> (r: bool)
    ensures
        r == is_digit(c),
{
    '0' <= c && c <= '9'
}

pub fn is_ident_start_exec(c: char) -> (r: bool)
    ensures
        r == is_ident_start(c),
{
    ('a' <= c && c <= 'z') || ('A' <= c && c <= 'Z') || c == '_'
}

fn ident_end_exec(s: &Vec<char>, i: usize) -> (r: usize)
    requires
        i <= s@.len(),
    ensures
        r == ident_end(s@, i as int),
{
    let mut k = i;
    while k < s.len() && (is_ident_start_exec(s[k]) || is_digit_exec(s[k]))
        invariant
            i <= k <= s@.len(),
            ident_end(s@, i as int) == ident_end(s@, k as int),
        decreases s@.len() - k,
    {
        k = k + 1;
    }
    k
}

fn digits_end_exec(s: &Vec<char>, i: usize) -> (r: usize)
    requires
        i <= s@.len(),
    ensures
        r == digits_end(s@, i as int),
{
    let mut k = i;
    while k < s.len() && is_digit_exec(s[k])
        invariant
            i <= k <= s@.len(),
            digits_end(s@, i as int) == digits_end(s@, k as int),
        decreases s@.len() - k,
    {
        k = k + 1;
    }
    k
}

fn line_end_exec(s: &Vec<char>, i: usize) -> (r: usize)
    requires
        i <= s@.len(),
    ensures
        r == line_end(s@, i as int),
{
    let mut k = i;
    while k < s.len() && s[k] != '\n'
        invariant
            i <= k <= s@.len(),
            line_end(s@, i as int) == line_end(s@, k as int),
        decreases s@.len() - k,
    {
        k = k + 1;
    }
    k
}

fn quote_end_exec(s: &Vec<char>, i: usize) -> (r: usize)
    requires
        i <= s@.len(),
    ensures
        r == quote_end(s@, i as int),
{
    let mut k = i;
    while k < s.len() && s[k] != '"'
        invariant
            i <= k <= s@.len(),
            quote_end(s@, i as int) == quote_end(s@, k as int),
        decreases s@.len() - k,
    {
        k = k + 1;
    }
    k
}

fn skip_trivia_exec(s: &Vec<char>, i: usize) -> (r: usize)
    requires
        i <= s@.len(),
    ensures
        r == skip_trivia(s@, i as int),
{
    let mut k = i;
    loop
        invariant
            i <= k <= s@.len(),
            skip_trivia(s@, i as int) == skip_trivia(s@, k as int),
        decreases s@.len() - k,
    {
        if k >= s.len() {
            return k;
        }
        let c = s[k];
        if c == ' ' || c == '\t' || c == '\n' || c == '\r' {
            k = k + 1;
        } else if c == '/' && k + 1 < s.len() && s[k + 1] == '/' {
            proof {
                lemma_line_end(s@, k + 2);
            }
            k = line_end_exec(s, k + 2);
        } else {
            return k;
        }
    }
}

fn number_token_exec(s: &Vec<char>, i: usize) -> (r: Token)
    requires
        i < s@.len(),
        is_digit(s@[i as int]) || (s@[i as int] == '-' && i + 1 < s@.len() && is_digit(
            s@[i + 1],
        )),
    ensures
        r == number_token(s@, i as int),
{
    let n = s.len();
    let neg = s[i] == '-';
    let d0 = if neg {
        assert(!is_digit(s@[i as int]));
        i + 1
    } else {
        i
    };
    let e1 = digits_end_exec(s, d0);
    proof {
        lemma_digits_end(s@, d0 as int);
    }
    if e1 < s.len() - 1 && s[e1] == '.' && is_digit_exec(s[e1 + 1]) {
        let e2 = digits_end_exec(s, e1 + 1);
        proof {
            lemma_digits_end(s@, e1 + 1);
        }
        if !neg && e2 < s.len() - 1 && s[e2] == '.' && is_digit_exec(s[e2 + 1]) {
            let e3 = digits_end_exec(s, e2 + 1);
            Token { kind: TokKind::SemVer, start: i, end: e3, mid: i }
        } else {
            Token { kind: TokKind::Float, start: i, end: e2, mid: i }
        }
    } else {
        Token { kind: TokKind::Int, start: i, end: e1, mid: i }
    }
}

fn single(kind: TokKind, i: usize) -> (r: Token)
    requires
        i < usize::MAX,
    ensures
        r == tok(kind, i as int, i + 1, i as int),
{
    Token { kind, start: i, end: i + 1, mid: i }
}

fn double(kind: TokKind, i: usize) -> (r: Token)
    requires
        i < usize::MAX - 1,
    ensures
        r == tok(kind, i as int, i + 2, i as int),
{
    Token { kind, start: i, end: i + 2, mid: i }
}

fn next_token_exec(s: &Vec<char>, i: usize) -> (r: Option<Token>)
    requires
        i < s@.len(),
    ensures
        r == next_token(s@, i as int),
{
    let c = s[i];
    let n = s.len();
    let follows_eq = i + 1 < n && s[i + 1] == '=';
    if is_ident_start_exec(c) {
        let e = ident_end_exec(s, i + 1);
        proof {
            lemma_ident_end(s@, i + 1);
        }
        if n >= 3 && e < n - 2 && s[e] == ':' && s[e + 1] == ':' && is_ident_start_exec(s[e + 2]) {
            let e2 = ident_end_exec(s, e + 3);
            Some(Token { kind: TokKind::EnumPath, start: i, end: e2, mid: e })
        } else {
            Some(Token { kind: TokKind::Ident, start: i, end: e, mid: i })
        }
    } else if c == '"' {
        let q = quote_end_exec(s, i + 1);
        if q < n {
            Some(Token { kind: TokKind::Str, start: i, end: q + 1, mid: i })
        } else {
            None
        }
    } else if is_digit_exec(c) || (c == '-' && i + 1 < n && is_digit_exec(s[i + 1])) {
        Some(number_token_exec(s, i))
    } else if c == '-' {
        if follows_eq { Some(double(TokKind::MinusAssign, i)) } else { None }
    } else if c == '+' {
        if follows_eq { Some(double(TokKind::PlusAssign, i)) } else { None }
    } else if c == '=' {
        if follows_eq { Some(double(TokKind::EqEq, i)) } else { Some(single(TokKind::Assign, i)) }
    } else if c == '!' {
        if follows_eq { Some(double(TokKind::NotEq, i)) } else { None }
    } else if c == '>' {
        if follows_eq { Some(double(TokKind::Ge, i)) } else { Some(single(TokKind::Gt, i)) }
    } else if c == '<' {
        if follows_eq { Some(double(TokKind::Le, i)) } else { Some(single(TokKind::Lt, i)) }
    } else if c == '{' {
        Some(single(TokKind::LBrace, i))
    } else if c == '}' {
        Some(single(TokKind::RBrace, i))
    } else if c == '[' {
        Some(single(TokKind::LBracket, i))
    } else if c == ']' {
        Some(single(TokKind::RBracket, i))
    } else if c == '(' {
        Some(single(TokKind::LParen, i))
    } else if c == ')' {
        Some(single(TokKind::RParen, i))
    } else if c == ',' {
        Some(single(TokKind::Comma, i))
    } else if c == ':' {
        Some(single(TokKind::Colon, i))
    } else {
        None
    }
}

/// Splits `s` into tokens.
#[verifier::rlimit(30)]
pub fn tokenize(s: &Vec<char>) -> (r: Option<Vec<Token>>)
    ensures
        r matches Some(v) ==> lex(s@) == Some(v@) && toks_wf(s@, v@),
        r is None ==> lex(s@) is None,
{
    proof {
        lemma_lex_wf(s@);
    }
    let mut out: Vec<Token> = Vec::new();
    let mut i: usize = 0;
    loop
        invariant
            0 <= i <= s@.len(),
            lex(s@) matches Some(ts) ==> toks_wf(s@, ts),
            lex(s@) == match lex_from(s@, i as int) {
                Some(rest) => Some(out@ + rest),
                None => None,
            },
        decreases s@.len() - i,
    {
        let j = skip_trivia_exec(s, i);
        proof {
            lemma_skip_trivia(s@, i as int);
        }
        if j >= s.len() {
            assert(out@ + Seq::<Token>::empty() =~= out@);
            return Some(out);
        }
        match next_token_exec(s, j) {
            None => {
                return None;
            },
            Some(t) => {
                proof {
                    lemma_next_token(s@, j as int);
                    let ghost old_out = out@;
                    match lex_from(s@, t.end as int) {
                        Some(rest) => {
                            assert(old_out + (seq![t] + rest) =~= old_out.push(t) + rest);
                        },
                        None => {},
                    }
                }
                out.push(t);
                i = t.end;
            },
        }
    }
}

} // verus!
