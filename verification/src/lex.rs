//! Tokenizer: turns raw source text into a sequence of positioned tokens.
//!
//! Tokens carry 1-based row/column coordinates fixed at the position of
//! their first character.  The tokenizer recognizes numerals,
//! identifiers/keywords, quoted strings with escapes, operators,
//! parentheses, and the statement separator `;`, whose rest-of-line is
//! a comment.

use crate::vm::ErrorKind;
use crate::vm::VmError;
use vstd::prelude::*;

verus! {

/// The single-character operators of the language.
#[derive(Clone, Copy, Debug, PartialEq, Eq, Structural)]
pub enum Operator {
    Plus,
    Dash,
    Star,
    Slash,
    Assign,
}

/// The classification of a lexical unit.  A numeral or a string carries
/// its text: for a numeral the spelling as written (digits with at most
/// one decimal point), for a string the decoded contents.
#[derive(Debug, PartialEq)]
pub enum TokenType {
    Number(String),
    Literal(String),
    Str(String),
    LeftParen,
    RightParen,
    Operator(Operator),
    Semi,
}

/// A classified, source-positioned lexical unit.  `row` and `col` are
/// 1-based and name the position of the token's first character.
#[derive(Debug, PartialEq)]
pub struct Token {
    pub token: TokenType,
    pub row: usize,
    pub col: usize,
}

/// The mathematical mirror of `TokenType`: text payloads are character
/// sequences.
pub enum TokenTypeView {
    Number(Seq<char>),
    Literal(Seq<char>),
    Str(Seq<char>),
    LeftParen,
    RightParen,
    Operator(Operator),
    Semi,
}

/// The mathematical mirror of `Token`.
pub struct TokenView {
    pub token: TokenTypeView,
    pub row: usize,
    pub col: usize,
}

impl View for TokenType {
    type V = TokenTypeView;

    open spec fn view(&self) -> TokenTypeView {
        match self {
            TokenType::Number(s) => TokenTypeView::Number(s@),
            TokenType::Literal(s) => TokenTypeView::Literal(s@),
            TokenType::Str(s) => TokenTypeView::Str(s@),
            TokenType::LeftParen => TokenTypeView::LeftParen,
            TokenType::RightParen => TokenTypeView::RightParen,
            TokenType::Operator(op) => TokenTypeView::Operator(*op),
            TokenType::Semi => TokenTypeView::Semi,
        }
    }
}

impl View for Token {
    type V = TokenView;

    open spec fn view(&self) -> TokenView {
        TokenView { token: self.token@, row: self.row, col: self.col }
    }
}

/// The mirrors of a sequence of tokens.
pub open spec fn tokens_view(ts: Seq<Token>) -> Seq<TokenView> {
    ts.map_values(|t: Token| t@)
}

impl Clone for TokenType {
    /// An exact structural copy.
    fn clone(&self) -> (res: Self)
        ensures
            res@ == self@,
    {
        match self {
            TokenType::Number(s) => TokenType::Number(s.clone()),
            TokenType::Literal(s) => TokenType::Literal(s.clone()),
            TokenType::Str(s) => TokenType::Str(s.clone()),
            TokenType::LeftParen => TokenType::LeftParen,
            TokenType::RightParen => TokenType::RightParen,
            TokenType::Operator(op) => TokenType::Operator(*op),
            TokenType::Semi => TokenType::Semi,
        }
    }
}

impl Clone for Token {
    /// An exact structural copy.
    fn clone(&self) -> (res: Self)
        ensures
            res@ == self@,
    {
        Token { token: self.token.clone(), row: self.row, col: self.col }
    }
}

/// Copies every token of a vector; the copy denotes the same tokens.
pub(crate) fn clone_tokens(v: &Vec<Token>) -> (r: Vec<Token>)
    ensures
        tokens_view(r@) == tokens_view(v@),
{
    let mut r: Vec<Token> = Vec::new();
    let mut i: usize = 0;
    while i < v.len()
        invariant
            i <= v@.len(),
            r@.len() == i,
            forall|m: int| 0 <= m < i ==> r@[m]@ == v@[m]@,
        decreases v@.len() - i,
    {
        r.push(v[i].clone());
        i = i + 1;
    }
    proof {
        assert(tokens_view(r@) =~= tokens_view(v@));
    }
    r
}

/// Whether `c` may continue an identifier: an ASCII letter, digit, or
/// underscore.
pub open spec fn spec_is_identifier_char(c: char) -> bool {
    ('A' <= c && c <= 'Z') || ('a' <= c && c <= 'z') || ('0' <= c && c <= '9') || c == '_'
}

/// Whether `c` may continue an identifier (letters, digits, underscore).
pub fn is_identifier_char(ch: &char) -> (r: bool)
    ensures
        r == spec_is_identifier_char(*ch),
{
    ('A' <= *ch && *ch <= 'Z') || ('a' <= *ch && *ch <= 'z') || ('0' <= *ch && *ch <= '9') || *ch
        == '_'
}

/// Whether `c` is an ASCII digit.
pub open spec fn spec_is_digit(c: char) -> bool {
    '0' <= c && c <= '9'
}

/// Whether `c` is skipped between tokens: the ASCII whitespace
/// characters (space, tab, line feed, vertical tab, form feed,
/// carriage return).  Identifier classification in this language is
/// ASCII-only, and so is its whitespace.
pub open spec fn spec_is_whitespace(c: char) -> bool {
    c == ' ' || c == '\t' || c == '\n' || c == '\u{b}' || c == '\u{c}' || c == '\r'
}

/// Whether `c` may start an identifier: a letter or an underscore.
pub open spec fn spec_is_ident_start(c: char) -> bool {
    ('A' <= c && c <= 'Z') || ('a' <= c && c <= 'z') || c == '_'
}

/// The decoded character of the escape `\c`, if `c` is one of the five
/// recognized escape characters.
pub open spec fn spec_escape(c: char) -> Option<char> {
    if c == '0' {
        Some('\0')
    } else if c == 't' {
        Some('\t')
    } else if c == 'n' {
        Some('\n')
    } else if c == 'r' {
        Some('\r')
    } else if c == '\\' {
        Some('\\')
    } else {
        None
    }
}

/// The token produced by a single character that forms one on its own.
pub open spec fn spec_single_token(c: char) -> Option<TokenTypeView> {
    if c == '(' {
        Some(TokenTypeView::LeftParen)
    } else if c == ')' {
        Some(TokenTypeView::RightParen)
    } else if c == '+' {
        Some(TokenTypeView::Operator(Operator::Plus))
    } else if c == '-' {
        Some(TokenTypeView::Operator(Operator::Dash))
    } else if c == '*' {
        Some(TokenTypeView::Operator(Operator::Star))
    } else if c == '/' {
        Some(TokenTypeView::Operator(Operator::Slash))
    } else if c == '=' {
        Some(TokenTypeView::Operator(Operator::Assign))
    } else {
        None
    }
}

/// The index just past the run of ASCII digits starting at `i`.
pub open spec fn spec_digit_end(s: Seq<char>, i: int) -> int
    decreases s.len() - i,
{
    if 0 <= i < s.len() && spec_is_digit(s[i]) {
        spec_digit_end(s, i + 1)
    } else {
        i
    }
}

/// The index just past the run of identifier characters starting at `i`.
pub open spec fn spec_ident_end(s: Seq<char>, i: int) -> int
    decreases s.len() - i,
{
    if 0 <= i < s.len() && spec_is_identifier_char(s[i]) {
        spec_ident_end(s, i + 1)
    } else {
        i
    }
}

/// The index of the next line feed at or after `i`, or the end of the
/// input: where a `;` comment stops discarding.
pub open spec fn spec_comment_end(s: Seq<char>, i: int) -> int
    decreases s.len() - i,
{
    if 0 <= i < s.len() && s[i] != '\n' {
        spec_comment_end(s, i + 1)
    } else {
        i
    }
}

/// The index just past a numeral starting at `i`: a digit run, then
/// optionally a single `.` followed by another (possibly empty) digit
/// run.
pub open spec fn spec_numeral_end(s: Seq<char>, i: int) -> int {
    let j = spec_digit_end(s, i);
    if j < s.len() && s[j] == '.' {
        spec_digit_end(s, j + 1)
    } else {
        j
    }
}

/// Scans the inside of a string literal beginning at `i` (just past the
/// opening quote): the decoded contents and the index just past the
/// closing quote, or the reason the literal is malformed.
pub open spec fn spec_scan_string(s: Seq<char>, i: int) -> Result<(Seq<char>, int), ErrorKind>
    decreases s.len() - i,
{
    if i < 0 || i >= s.len() {
        Err(ErrorKind::UnterminatedString)
    } else if s[i] == '"' {
        Ok((Seq::empty(), i + 1))
    } else if s[i] == '\n' {
        Err(ErrorKind::UnterminatedString)
    } else if s[i] == '\\' {
        if i + 1 >= s.len() {
            Err(ErrorKind::UnterminatedString)
        } else {
            match spec_escape(s[i + 1]) {
                Some(d) => match spec_scan_string(s, i + 2) {
                    Ok(p) => Ok((seq![d] + p.0, p.1)),
                    Err(k) => Err(k),
                },
                None => Err(ErrorKind::UnknownEscape(s[i + 1])),
            }
        }
    } else {
        match spec_scan_string(s, i + 1) {
            Ok(p) => Ok((seq![s[i]] + p.0, p.1)),
            Err(k) => Err(k),
        }
    }
}

/// The row counter after one line break: rows saturate rather than wrap
/// at the top of the machine range.
pub open spec fn spec_next_row(row: int) -> int {
    if row >= usize::MAX {
        usize::MAX as int
    } else {
        row + 1
    }
}

/// A strictly advancing cursor: `j` where the scan claims to have
/// stopped, clamped into `(i, s.len()]`.  The scans above always stop
/// inside that range, so the fallback arm is inert; it keeps the
/// recursion below visibly well-founded.
pub open spec fn spec_bump(s: Seq<char>, i: int, j: int) -> int {
    if i < j <= s.len() {
        j
    } else {
        i + 1
    }
}

/// Prepends one token to the outcome of lexing the rest of the input.
pub open spec fn spec_lex_cons(t: TokenView, rest: Result<Seq<TokenView>, VmError>) -> Result<
    Seq<TokenView>,
    VmError,
> {
    match rest {
        Ok(ts) => Ok(seq![t] + ts),
        Err(e) => Err(e),
    }
}

/// The tokens of `s` from index `i` on, with `col` characters already
/// consumed on the current 1-based `row`; or the first fatal lexical
/// error, positioned at the first character of the offending construct.
pub open spec fn spec_lex(s: Seq<char>, i: int, row: int, col: int) -> Result<
    Seq<TokenView>,
    VmError,
>
    decreases s.len() - i,
{
    if i < 0 || i >= s.len() {
        Ok(Seq::empty())
    } else {
        let c = s[i];
        let here_row = row as usize;
        let here_col = (col + 1) as usize;
        if c == '\n' {
            spec_lex(s, i + 1, spec_next_row(row), 0)
        } else if spec_is_whitespace(c) {
            spec_lex(s, i + 1, row, col + 1)
        } else if spec_single_token(c) is Some {
            spec_lex_cons(
                TokenView { token: spec_single_token(c)->0, row: here_row, col: here_col },
                spec_lex(s, i + 1, row, col + 1),
            )
        } else if c == ';' {
            let j = spec_bump(s, i, spec_comment_end(s, i + 1));
            spec_lex_cons(
                TokenView { token: TokenTypeView::Semi, row: here_row, col: here_col },
                spec_lex(s, j, row, col + (j - i)),
            )
        } else if spec_is_digit(c) {
            let j = spec_bump(s, i, spec_numeral_end(s, i));
            spec_lex_cons(
                TokenView {
                    token: TokenTypeView::Number(s.subrange(i, j)),
                    row: here_row,
                    col: here_col,
                },
                spec_lex(s, j, row, col + (j - i)),
            )
        } else if spec_is_ident_start(c) {
            let j = spec_bump(s, i, spec_ident_end(s, i + 1));
            spec_lex_cons(
                TokenView {
                    token: TokenTypeView::Literal(s.subrange(i, j)),
                    row: here_row,
                    col: here_col,
                },
                spec_lex(s, j, row, col + (j - i)),
            )
        } else if c == '"' {
            match spec_scan_string(s, i + 1) {
                Ok(p) => {
                    let j = spec_bump(s, i, p.1);
                    spec_lex_cons(
                        TokenView {
                            token: TokenTypeView::Str(p.0),
                            row: here_row,
                            col: here_col,
                        },
                        spec_lex(s, j, row, col + (j - i)),
                    )
                },
                Err(k) => Err(VmError { kind: k, row: here_row, col: here_col }),
            }
        } else {
            Err(VmError { kind: ErrorKind::UnexpectedChar(c), row: here_row, col: here_col })
        }
    }
}

/// The tokens of a whole input, starting at row 1, column 0.
pub open spec fn spec_tokenize(s: Seq<char>) -> Result<Seq<TokenView>, VmError> {
    spec_lex(s, 0, 1, 0)
}

proof fn lemma_digit_end_bounds(s: Seq<char>, i: int)
    requires
        0 <= i <= s.len(),
    ensures
        i <= spec_digit_end(s, i) <= s.len(),
    decreases s.len() - i,
{
    if i < s.len() && spec_is_digit(s[i]) {
        lemma_digit_end_bounds(s, i + 1);
    }
}

proof fn lemma_ident_end_bounds(s: Seq<char>, i: int)
    requires
        0 <= i <= s.len(),
    ensures
        i <= spec_ident_end(s, i) <= s.len(),
    decreases s.len() - i,
{
    if i < s.len() && spec_is_identifier_char(s[i]) {
        lemma_ident_end_bounds(s, i + 1);
    }
}

proof fn lemma_comment_end_bounds(s: Seq<char>, i: int)
    requires
        0 <= i <= s.len(),
    ensures
        i <= spec_comment_end(s, i) <= s.len(),
    decreases s.len() - i,
{
    if i < s.len() && s[i] != '\n' {
        lemma_comment_end_bounds(s, i + 1);
    }
}

proof fn lemma_scan_string_bounds(s: Seq<char>, i: int)
    requires
        0 <= i,
    ensures
        spec_scan_string(s, i) matches Ok(p) ==> i < p.1 <= s.len(),
    decreases s.len() - i,
{
    if i < s.len() {
        if s[i] == '\\' && i + 1 < s.len() && spec_escape(s[i + 1]) is Some {
            lemma_scan_string_bounds(s, i + 2);
        } else if s[i] != '"' && s[i] != '\n' && s[i] != '\\' {
            lemma_scan_string_bounds(s, i + 1);
        }
    }
}

proof fn lemma_tokens_view_push(ts: Seq<Token>, t: Token)
    ensures
        tokens_view(ts.push(t)) =~= tokens_view(ts).push(t@),
{
}

/// The index just past the run of ASCII digits starting at `start`.
fn scan_digits(chars: &Vec<char>, start: usize) -> (j: usize)
    requires
        start <= chars@.len(),
    ensures
        j == spec_digit_end(chars@, start as int),
        start <= j <= chars@.len(),
{
    let mut j = start;
    while j < chars.len() && '0' <= chars[j] && chars[j] <= '9'
        invariant
            start <= j <= chars@.len(),
            spec_digit_end(chars@, start as int) == spec_digit_end(chars@, j as int),
        decreases chars@.len() - j,
    {
        j = j + 1;
    }
    j
}

/// The index just past the run of identifier characters starting at
/// `start`.
fn scan_identifier(chars: &Vec<char>, start: usize) -> (j: usize)
    requires
        start <= chars@.len(),
    ensures
        j == spec_ident_end(chars@, start as int),
        start <= j <= chars@.len(),
{
    let mut j = start;
    while j < chars.len() && is_identifier_char(&chars[j])
        invariant
            start <= j <= chars@.len(),
            spec_ident_end(chars@, start as int) == spec_ident_end(chars@, j as int),
        decreases chars@.len() - j,
    {
        j = j + 1;
    }
    j
}

/// The index of the next line feed at or after `start`, or the end of
/// the input.
fn scan_comment(chars: &Vec<char>, start: usize) -> (j: usize)
    requires
        start <= chars@.len(),
    ensures
        j == spec_comment_end(chars@, start as int),
        start <= j <= chars@.len(),
{
    let mut j = start;
    while j < chars.len() && chars[j] != '\n'
        invariant
            start <= j <= chars@.len(),
            spec_comment_end(chars@, start as int) == spec_comment_end(chars@, j as int),
        decreases chars@.len() - j,
    {
        j = j + 1;
    }
    j
}

/// The decoded character of the escape `\c`, if recognized.
fn escape_char(c: char) -> (r: Option<char>)
    ensures
        r == spec_escape(c),
{
    match c {
        '0' => Some('\0'),
        't' => Some('\t'),
        'n' => Some('\n'),
        'r' => Some('\r'),
        '\\' => Some('\\'),
        _ => None,
    }
}

/// Scans the inside of a string literal, `start` pointing just past the
/// opening quote: the decoded contents and the index just past the
/// closing quote.
fn scan_string(chars: &Vec<char>, start: usize) -> (r: Result<(Vec<char>, usize), ErrorKind>)
    requires
        start <= chars@.len(),
    ensures
        match spec_scan_string(chars@, start as int) {
            Ok(p) => r matches Ok(q) && q.0@ == p.0 && q.1 == p.1 && start < p.1 <= chars@.len(),
            Err(k) => r matches Err(k2) && k2 == k,
        },
{
    let ghost s = chars@;
    let mut acc: Vec<char> = Vec::new();
    let mut i = start;
    loop
        invariant
            start <= i <= s.len(),
            chars@ == s,
            match spec_scan_string(s, i as int) {
                Ok(p) => spec_scan_string(s, start as int) == Ok::<_, ErrorKind>(
                    (acc@ + p.0, p.1),
                ),
                Err(k) => spec_scan_string(s, start as int) == Err::<(Seq<char>, int), _>(k),
            },
        decreases s.len() - i,
    {
        if i == chars.len() {
            return Err(ErrorKind::UnterminatedString);
        }
        let c = chars[i];
        if c == '"' {
            proof {
                assert(acc@ + Seq::<char>::empty() =~= acc@);
                lemma_scan_string_bounds(s, start as int);
            }
            return Ok((acc, i + 1));
        } else if c == '\n' {
            return Err(ErrorKind::UnterminatedString);
        } else if c == '\\' {
            if i + 1 == chars.len() {
                return Err(ErrorKind::UnterminatedString);
            }
            let e = chars[i + 1];
            match escape_char(e) {
                Some(d) => {
                    let ghost acc_old = acc@;
                    acc.push(d);
                    proof {
                        if let Ok(p2) = spec_scan_string(s, i + 2) {
                            assert(acc_old + (seq![d] + p2.0) =~= acc@ + p2.0);
                        }
                    }
                    i = i + 2;
                },
                None => {
                    return Err(ErrorKind::UnknownEscape(e));
                },
            }
        } else {
            let ghost acc_old = acc@;
            acc.push(c);
            proof {
                if let Ok(p2) = spec_scan_string(s, i + 1) {
                    assert(acc_old + (seq![c] + p2.0) =~= acc@ + p2.0);
                }
            }
            i = i + 1;
        }
    }
}

/// The token, if any, formed by the single character `c`.
fn single_token(c: char) -> (r: Option<TokenType>)
    ensures
        match spec_single_token(c) {
            Some(tv) => r matches Some(t) && t@ == tv,
            None => r is None,
        },
{
    match c {
        '(' => Some(TokenType::LeftParen),
        ')' => Some(TokenType::RightParen),
        '+' => Some(TokenType::Operator(Operator::Plus)),
        '-' => Some(TokenType::Operator(Operator::Dash)),
        '*' => Some(TokenType::Operator(Operator::Star)),
        '/' => Some(TokenType::Operator(Operator::Slash)),
        '=' => Some(TokenType::Operator(Operator::Assign)),
        _ => None,
    }
}

/// Lexes a whole character sequence into tokens, or reports the first
/// lexical error.
#[verifier::rlimit(30)]
pub(crate) fn lex_chars(chars: &Vec<char>) -> (r: Result<Vec<Token>, VmError>)
    ensures
        match spec_tokenize(chars@) {
            Ok(ts) => r matches Ok(out) && tokens_view(out@) == ts,
            Err(e) => r matches Err(e2) && e2 == e,
        },
{
    let ghost s = chars@;
    let mut out: Vec<Token> = Vec::new();
    let mut i: usize = 0;
    let mut row: usize = 1;
    let mut col: usize = 0;
    while i < chars.len()
        invariant
            i <= s.len(),
            col <= i,
            chars@ == s,
            match spec_lex(s, i as int, row as int, col as int) {
                Ok(ts) => spec_tokenize(s) == Ok::<_, VmError>(tokens_view(out@) + ts),
                Err(e) => spec_tokenize(s) == Err::<Seq<TokenView>, _>(e),
            },
        decreases s.len() - i,
    {
        let ghost out_old = out@;
        let ghost i0 = i as int;
        let ghost row0 = row as int;
        let ghost col0 = col as int;
        let c = chars[i];
        if c == '\n' {
            row = if row == usize::MAX {
                row
            } else {
                row + 1
            };
            col = 0;
            i = i + 1;
        } else if c == ' ' || c == '\t' || c == '\u{b}' || c == '\u{c}' || c == '\r' {
            col = col + 1;
            i = i + 1;
        } else if let Some(tt) = single_token(c) {
            let t = Token { token: tt, row, col: col + 1 };
            proof {
                lemma_tokens_view_push(out@, t);
            }
            out.push(t);
            proof {
                if let Ok(ts) = spec_lex(s, i0 + 1, row0, col0 + 1) {
                    assert(tokens_view(out_old) + (seq![t@] + ts) =~= tokens_view(out@) + ts);
                }
            }
            col = col + 1;
            i = i + 1;
        } else if c == ';' {
            let t = Token { token: TokenType::Semi, row, col: col + 1 };
            out.push(t);
            let j = scan_comment(chars, i + 1);
            proof {
                lemma_comment_end_bounds(s, i0 + 1);
                assert(spec_bump(s, i0, spec_comment_end(s, i0 + 1)) == j as int);
                lemma_tokens_view_push(out_old, t);
                if let Ok(ts) = spec_lex(s, j as int, row0, col0 + (j as int - i0)) {
                    assert(tokens_view(out_old) + (seq![t@] + ts) =~= tokens_view(out@) + ts);
                }
            }
            col = col + (j - i);
            i = j;
        } else if '0' <= c && c <= '9' {
            let jd = scan_digits(chars, i + 1);
            let j = if jd < chars.len() && chars[jd] == '.' {
                scan_digits(chars, jd + 1)
            } else {
                jd
            };
            proof {
                lemma_digit_end_bounds(s, i0 + 1);
                if spec_digit_end(s, i0 + 1) < s.len() && s[spec_digit_end(s, i0 + 1)] == '.' {
                    lemma_digit_end_bounds(s, spec_digit_end(s, i0 + 1) + 1);
                }
                assert(spec_digit_end(s, i0) == spec_digit_end(s, i0 + 1));
                assert(spec_numeral_end(s, i0) == j as int);
                assert(spec_bump(s, i0, spec_numeral_end(s, i0)) == j as int);
            }
            let text = crate::text::chars_range_to_string(chars, i, j);
            let t = Token { token: TokenType::Number(text), row, col: col + 1 };
            proof {
                lemma_tokens_view_push(out@, t);
            }
            out.push(t);
            proof {
                if let Ok(ts) = spec_lex(s, j as int, row0, col0 + (j as int - i0)) {
                    assert(tokens_view(out_old) + (seq![t@] + ts) =~= tokens_view(out@) + ts);
                }
            }
            col = col + (j - i);
            i = j;
        } else if ('A' <= c && c <= 'Z') || ('a' <= c && c <= 'z') || c == '_' {
            let j = scan_identifier(chars, i + 1);
            proof {
                lemma_ident_end_bounds(s, i0 + 1);
                assert(spec_bump(s, i0, spec_ident_end(s, i0 + 1)) == j as int);
            }
            let text = crate::text::chars_range_to_string(chars, i, j);
            let t = Token { token: TokenType::Literal(text), row, col: col + 1 };
            proof {
                lemma_tokens_view_push(out@, t);
            }
            out.push(t);
            proof {
                if let Ok(ts) = spec_lex(s, j as int, row0, col0 + (j as int - i0)) {
                    assert(tokens_view(out_old) + (seq![t@] + ts) =~= tokens_view(out@) + ts);
                }
            }
            col = col + (j - i);
            i = j;
        } else if c == '"' {
            match scan_string(chars, i + 1) {
                Ok((txt, j)) => {
                    proof {
                        lemma_scan_string_bounds(s, i0 + 1);
                        assert(spec_bump(s, i0, spec_scan_string(s, i0 + 1)->Ok_0.1) == j as int);
                    }
                    let text = crate::text::string_from_chars(&txt);
                    let t = Token { token: TokenType::Str(text), row, col: col + 1 };
                    proof {
                        lemma_tokens_view_push(out@, t);
                    }
                    out.push(t);
                    proof {
                        if let Ok(ts) = spec_lex(s, j as int, row0, col0 + (j as int - i0)) {
                            assert(tokens_view(out_old) + (seq![t@] + ts) =~= tokens_view(out@)
                                + ts);
                        }
                    }
                    col = col + (j - i);
                    i = j;
                },
                Err(k) => {
                    return Err(VmError { kind: k, row, col: col + 1 });
                },
            }
        } else {
            return Err(VmError { kind: ErrorKind::UnexpectedChar(c), row, col: col + 1 });
        }
    }
    proof {
        assert(tokens_view(out@) + Seq::<TokenView>::empty() =~= tokens_view(out@));
    }
    Ok(out)
}

/// Turns raw source text into its token sequence, or reports the
/// first lexical error.  On success the state's current token becomes
/// the last token produced, so a fatal condition raised before any
/// evaluation points into the scanned text; the namespace and the
/// output log are untouched either way.
pub fn tokenize(inp: &str, vm: &mut crate::vm::VMState) -> (r: Result<Vec<Token>, VmError>)
    ensures
        final(vm).names_map() == old(vm).names_map(),
        final(vm).printed_log() == old(vm).printed_log(),
        match spec_tokenize(inp@) {
            Ok(ts) => r matches Ok(out) && tokens_view(out@) == ts && final(vm).cur() == (
            if ts.len() > 0 {
                ts.last()
            } else {
                old(vm).cur()
            }),
            Err(e) => (r matches Err(e2) && e2 == e) && final(vm).cur() == old(vm).cur(),
        },
{
    let chars = crate::text::chars_of(inp);
    match lex_chars(&chars) {
        Ok(out) => {
            if out.len() > 0 {
                vm.set_current(out[out.len() - 1].clone());
                proof {
                    assert(tokens_view(out@).last() == out@.last()@);
                }
            }
            Ok(out)
        },
        Err(e) => Err(e),
    }
}

} // verus!
