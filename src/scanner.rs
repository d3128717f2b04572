use vstd::prelude::*;
use crate::token::{Token, TokenType, TokenTypeView, TokenView};

verus! {

/// How scanning a token can fail.
#[derive(Clone, Copy, Debug, PartialEq, Eq, Structural)]
pub enum Error {
    /// A byte that starts no token.
    UnrecognizedToken,
    /// A `"` with no closing `"` before the end of the input.
    UnterminatedString,
    /// A number whose `.` is not followed by a digit.
    InvalidNumFormat,
}

pub type Result = std::result::Result<Token, Error>;

pub open spec fn is_ascii_bytes(s: Seq<u8>) -> bool {
    forall|i: int| 0 <= i < s.len() ==> #[trigger] s[i] < 128
}

/// The characters of ASCII bytes, one for one.
pub open spec fn ascii_chars(s: Seq<u8>) -> Seq<char> {
    s.map_values(|b: u8| b as char)
}

pub open spec fn is_digit(b: u8) -> bool {
    48 <= b <= 57
}

/// Letters and `_` make up identifiers.
pub open spec fn is_ident_byte(b: u8) -> bool {
    (65 <= b <= 90) || (97 <= b <= 122) || b == 95
}

/// Space, tab and carriage return.
pub open spec fn is_blank(b: u8) -> bool {
    b == 32 || b == 9 || b == 13
}

/// The position and line after skipping whitespace and comments from `pos`.
/// A comment runs from `#` to the end of its line; each newline consumed
/// counts one line.
pub open spec fn skip_from(src: Seq<u8>, pos: int, line: int, in_comment: bool) -> (int, int)
    decreases src.len() - pos,
{
    if pos < 0 || pos >= src.len() {
        (pos, line)
    } else if src[pos] == 10 {
        skip_from(src, pos + 1, line + 1, false)
    } else if in_comment || src[pos] == 35 || is_blank(src[pos]) {
        skip_from(src, pos + 1, line, in_comment || src[pos] == 35)
    } else {
        (pos, line)
    }
}

/// The end of the run of digits that starts at `pos`.
pub open spec fn digits_end(src: Seq<u8>, pos: int) -> int
    decreases src.len() - pos,
{
    if 0 <= pos < src.len() && is_digit(src[pos]) {
        digits_end(src, pos + 1)
    } else {
        pos
    }
}

/// The end of the run of identifier bytes that starts at `pos`.
pub open spec fn ident_end(src: Seq<u8>, pos: int) -> int
    decreases src.len() - pos,
{
    if 0 <= pos < src.len() && is_ident_byte(src[pos]) {
        ident_end(src, pos + 1)
    } else {
        pos
    }
}

/// The position of the first `"` from `pos` (or the end of the input), and
/// the line there, counting the newlines passed.
pub open spec fn string_end(src: Seq<u8>, pos: int, line: int) -> (int, int)
    decreases src.len() - pos,
{
    if pos < 0 || pos >= src.len() || src[pos] == 34 {
        (pos, line)
    } else {
        string_end(src, pos + 1, if src[pos] == 10 { line + 1 } else { line })
    }
}

/// The token type of a one-byte token.
pub open spec fn single_byte_token(b: u8) -> Option<TokenTypeView> {
    if b == 40 {
        Some(TokenTypeView::LParen)
    } else if b == 41 {
        Some(TokenTypeView::RParen)
    } else if b == 123 {
        Some(TokenTypeView::LBrace)
    } else if b == 125 {
        Some(TokenTypeView::RBrace)
    } else if b == 91 {
        Some(TokenTypeView::LBracket)
    } else if b == 93 {
        Some(TokenTypeView::RBracket)
    } else if b == 46 {
        Some(TokenTypeView::Dot)
    } else if b == 43 {
        Some(TokenTypeView::Plus)
    } else if b == 45 {
        Some(TokenTypeView::Minus)
    } else if b == 42 {
        Some(TokenTypeView::Asterisk)
    } else if b == 47 {
        Some(TokenTypeView::Slash)
    } else if b == 44 {
        Some(TokenTypeView::Comma)
    } else {
        None
    }
}

/// For `=`, `!`, `>` and `<`: the token type alone, or followed by `=`.
pub open spec fn operator_token(b: u8, with_equal: bool) -> Option<TokenTypeView> {
    if b == 61 {
        Some(if with_equal { TokenTypeView::EqualEqual } else { TokenTypeView::Equal })
    } else if b == 33 {
        Some(if with_equal { TokenTypeView::BangEqual } else { TokenTypeView::Bang })
    } else if b == 62 {
        Some(if with_equal { TokenTypeView::GreaterEqual } else { TokenTypeView::Greater })
    } else if b == 60 {
        Some(if with_equal { TokenTypeView::LessEqual } else { TokenTypeView::Less })
    } else {
        None
    }
}

/// The reserved word that `s` spells, if any.
pub open spec fn keyword_of(s: Seq<u8>) -> Option<TokenTypeView> {
    if s == seq![119u8, 104, 105, 108, 101] {
        Some(TokenTypeView::While)
    } else if s == seq![105u8, 102] {
        Some(TokenTypeView::If)
    } else if s == seq![101u8, 108, 115, 101] {
        Some(TokenTypeView::Else)
    } else if s == seq![108u8, 101, 116] {
        Some(TokenTypeView::Let)
    } else if s == seq![116u8, 114, 117, 101] {
        Some(TokenTypeView::True)
    } else if s == seq![102u8, 97, 108, 115, 101] {
        Some(TokenTypeView::False)
    } else {
        None
    }
}

/// The token type of the identifier text `s`: a keyword, or an identifier
/// carrying the whole text.
pub open spec fn word_token(s: Seq<u8>) -> TokenTypeView {
    match keyword_of(s) {
        Some(k) => k,
        None => TokenTypeView::Identifier(ascii_chars(s)),
    }
}

/// The outcome of scanning one token at `pos` (after whitespace and comments
/// were skipped), with the position and line after it.
pub open spec fn token_at(src: Seq<u8>, p: int, l: int) -> (
    std::result::Result<TokenView, Error>,
    int,
    int,
) {
    let tok = |t: TokenTypeView| Ok(TokenView { token_type: t, line: l as nat });
    if p < 0 || p >= src.len() {
        (tok(TokenTypeView::Eof), p, l)
    } else {
        let b = src[p];
        if single_byte_token(b) is Some {
            (tok(single_byte_token(b)->0), p + 1, l)
        } else if operator_token(b, false) is Some {
            if p + 1 < src.len() && src[p + 1] == 61 {
                (tok(operator_token(b, true)->0), p + 2, l)
            } else {
                (tok(operator_token(b, false)->0), p + 1, l)
            }
        } else if b == 34 {
            let (q, l2) = string_end(src, p + 1, l);
            if q >= src.len() {
                (Err(Error::UnterminatedString), q, l2)
            } else {
                (tok(TokenTypeView::Str(ascii_chars(src.subrange(p + 1, q)))), q + 1, l2)
            }
        } else if is_digit(b) {
            let d = digits_end(src, p);
            if d < src.len() && src[d] == 46 {
                if d + 1 < src.len() && is_digit(src[d + 1]) {
                    let e = digits_end(src, d + 1);
                    (tok(TokenTypeView::Num(ascii_chars(src.subrange(p, e)))), e, l)
                } else {
                    (Err(Error::InvalidNumFormat), d + 1, l)
                }
            } else {
                (tok(TokenTypeView::Num(ascii_chars(src.subrange(p, d)))), d, l)
            }
        } else if is_ident_byte(b) {
            let e = ident_end(src, p);
            (tok(word_token(src.subrange(p, e))), e, l)
        } else {
            (Err(Error::UnrecognizedToken), p + 1, l)
        }
    }
}

/// Scanning one token from `pos` on line `line`: skip whitespace and
/// comments, then read the token there; `Eof` at the end of the input.
pub open spec fn scan(src: Seq<u8>, pos: int, line: int) -> (
    std::result::Result<TokenView, Error>,
    int,
    int,
) {
    let (p, l) = skip_from(src, pos, line, false);
    token_at(src, p, l)
}

pub open spec fn result_view(r: Result) -> std::result::Result<TokenView, Error> {
    match r {
        Ok(t) => Ok(t@),
        Err(e) => Err(e),
    }
}

proof fn lemma_skip_bounds(src: Seq<u8>, pos: int, line: int, in_comment: bool)
    requires
        0 <= pos <= src.len(),
    ensures
        pos <= skip_from(src, pos, line, in_comment).0 <= src.len(),
    decreases src.len() - pos,
{
    if pos < src.len() {
        if src[pos] == 10 {
            lemma_skip_bounds(src, pos + 1, line + 1, false);
        } else if in_comment || src[pos] == 35 || is_blank(src[pos]) {
            lemma_skip_bounds(src, pos + 1, line, in_comment || src[pos] == 35);
        }
    }
}

proof fn lemma_digits_end(src: Seq<u8>, pos: int)
    requires
        0 <= pos <= src.len(),
    ensures
        pos <= digits_end(src, pos) <= src.len(),
        forall|k: int| pos <= k < digits_end(src, pos) ==> is_digit(#[trigger] src[k]),
        digits_end(src, pos) < src.len() ==> !is_digit(src[digits_end(src, pos)]),
    decreases src.len() - pos,
{
    if pos < src.len() && is_digit(src[pos]) {
        lemma_digits_end(src, pos + 1);
    }
}

proof fn lemma_ident_end(src: Seq<u8>, pos: int)
    requires
        0 <= pos <= src.len(),
    ensures
        pos <= ident_end(src, pos) <= src.len(),
        forall|k: int| pos <= k < ident_end(src, pos) ==> is_ident_byte(#[trigger] src[k]),
        ident_end(src, pos) < src.len() ==> !is_ident_byte(src[ident_end(src, pos)]),
    decreases src.len() - pos,
{
    if pos < src.len() && is_ident_byte(src[pos]) {
        lemma_ident_end(src, pos + 1);
    }
}

proof fn lemma_string_end(src: Seq<u8>, pos: int, line: int)
    requires
        0 <= pos <= src.len(),
    ensures
        pos <= string_end(src, pos, line).0 <= src.len(),
        forall|k: int| pos <= k < string_end(src, pos, line).0 ==> #[trigger] src[k] != 34,
        string_end(src, pos, line).0 < src.len() ==> src[string_end(src, pos, line).0] == 34,
    decreases src.len() - pos,
{
    if pos < src.len() && src[pos] != 34 {
        lemma_string_end(src, pos + 1, if src[pos] == 10 { line + 1 } else { line });
    }
}

/// Scanning never moves backwards nor past the end of the input, and a scan
/// that yields a token other than `Eof` consumes at least one byte.
pub proof fn lemma_scan_progress(src: Seq<u8>, pos: int, line: int)
    requires
        0 <= pos <= src.len(),
    ensures
        ({
            let (r, next, _) = scan(src, pos, line);
            &&& pos <= next <= src.len()
            &&& (r matches Ok(t) && !(t.token_type is Eof)) ==> pos < next
            &&& r is Err ==> pos < next
        }),
{
    let (p, l) = skip_from(src, pos, line, false);
    lemma_skip_bounds(src, pos, line, false);
    if p < src.len() {
        lemma_digits_end(src, p);
        lemma_ident_end(src, p);
        lemma_string_end(src, p + 1, l);
        let d = digits_end(src, p);
        if d < src.len() && src[d] == 46 && d + 1 < src.len() && is_digit(src[d + 1]) {
            lemma_digits_end(src, d + 1);
        }
    }
}

/// Whether the whole of `src`, from `pos` on line `line`, scans to `Eof`
/// without a lexical error.
pub open spec fn lexes_from(src: Seq<u8>, pos: int, line: int) -> bool
    decreases src.len() - pos,
{
    let (r, next, next_line) = scan(src, pos, line);
    match r {
        Err(_) => false,
        Ok(t) => {
            if t.token_type is Eof {
                true
            } else if pos < next <= src.len() {
                lexes_from(src, next, next_line)
            } else {
                false
            }
        },
    }
}

/// `s` is digits up to `d`, then either ends or goes on with `.` and at
/// least one more digit.
pub open spec fn number_literal_with_point_at(s: Seq<u8>, d: int) -> bool {
    &&& 0 < d <= s.len()
    &&& forall|k: int| 0 <= k < d ==> is_digit(#[trigger] s[k])
    &&& d < s.len() ==> {
        &&& s[d] == 46
        &&& d + 1 < s.len()
        &&& forall|k: int| d < k < s.len() ==> is_digit(#[trigger] s[k])
    }
}

/// Digits, optionally followed by `.` and at least one more digit.
pub open spec fn is_number_literal(s: Seq<u8>) -> bool {
    exists|d: int| number_literal_with_point_at(s, d)
}

/// A numeric literal standing alone is scanned whole, as one `Num` token that
/// carries exactly the literal's text.
pub proof fn lemma_number_literal_scans_whole(src: Seq<u8>)
    requires
        is_number_literal(src),
    ensures
        scan(src, 0, 1) == (
            Ok::<TokenView, Error>(
                TokenView { token_type: TokenTypeView::Num(ascii_chars(src)), line: 1 },
            ),
            src.len() as int,
            1int,
        ),
{
    let d = choose|d: int| number_literal_with_point_at(src, d);
    assert(skip_from(src, 0, 1, false) == (0int, 1int));
    lemma_digits_end(src, 0);
    let e = digits_end(src, 0);
    if e < d {
        assert(is_digit(src[e]));
    }
    if d < src.len() {
        assert(!is_digit(src[d]));
        assert(e == d);
        lemma_digits_end(src, d + 1);
        let e2 = digits_end(src, d + 1);
        if e2 < src.len() {
            assert(is_digit(src[e2]));
        }
        assert(src.subrange(0, e2) =~= src);
    } else {
        assert(e == d);
        assert(src.subrange(0, e) =~= src);
    }
}

/// A `"` that starts a token with no `"` after it before the end of the input
/// fails the scan with `UnterminatedString`, whatever precedes it.
pub proof fn lemma_unterminated_string(src: Seq<u8>, pos: int, line: int)
    requires
        0 <= pos <= src.len(),
        ({
            let p = skip_from(src, pos, line, false).0;
            &&& p < src.len()
            &&& src[p] == 34
            &&& forall|k: int| p < k < src.len() ==> #[trigger] src[k] != 34
        }),
    ensures
        scan(src, pos, line).0 == Err::<TokenView, Error>(Error::UnterminatedString),
{
    let (p, l) = skip_from(src, pos, line, false);
    lemma_skip_bounds(src, pos, line, false);
    lemma_string_end(src, p + 1, l);
    let q = string_end(src, p + 1, l).0;
    if q < src.len() {
        assert(src[q] == 34);
    }
}

/// A word of letters and `_` standing alone is scanned whole: as its keyword
/// token when it is one of the six reserved words, and otherwise as an
/// identifier carrying the whole text.
pub proof fn lemma_word_scans_whole(src: Seq<u8>)
    requires
        src.len() > 0,
        forall|k: int| 0 <= k < src.len() ==> is_ident_byte(#[trigger] src[k]),
    ensures
        scan(src, 0, 1) == (
            Ok::<TokenView, Error>(TokenView { token_type: word_token(src), line: 1 }),
            src.len() as int,
            1int,
        ),
        keyword_of(src) is None ==> word_token(src) == TokenTypeView::Identifier(ascii_chars(src)),
{
    assert(skip_from(src, 0, 1, false) == (0int, 1int));
    lemma_ident_end(src, 0);
    let e = ident_end(src, 0);
    if e < src.len() {
        assert(is_ident_byte(src[e]));
    }
    assert(src.subrange(0, e) =~= src);
}

/// Relies on `String::from_utf8_lossy`: ASCII bytes are valid UTF-8, and each
/// decodes to the character of the same code.
#[verifier::external_body]
fn ascii_text(bytes: &[u8]) -> (r: String)
    requires
        is_ascii_bytes(bytes@),
    ensures
        r@ == ascii_chars(bytes@),
{
    String::from_utf8_lossy(bytes).into_owned()
}

/// The lexer: turns source bytes into tokens, one call at a time.
pub struct Scanner<'a> {
    source: &'a [u8],
    current: usize,
    line: usize,
}

impl<'a> Scanner<'a> {
    pub closed spec fn source(&self) -> Seq<u8> {
        self.source@
    }

    /// Position of the next byte to read.
    pub closed spec fn current(&self) -> int {
        self.current as int
    }

    /// The line that the next byte is on.
    pub closed spec fn line(&self) -> int {
        self.line as int
    }

    /// A scanner's position lies within its source.
    pub proof fn lemma_wf_bounds(&self)
        requires
            self.wf(),
        ensures
            0 <= self.current() <= self.source().len() < usize::MAX,
            is_ascii_bytes(self.source()),
    {
    }

    /// The source is ASCII, and the position and line stay in range.
    pub closed spec fn wf(&self) -> bool {
        &&& is_ascii_bytes(self.source@)
        &&& self.source@.len() < usize::MAX
        &&& self.current <= self.source@.len()
        &&& 1 <= self.line <= self.current + 1
    }

    /// A scanner at the start of `source`, on line 1. The source must be ASCII
    /// text: each byte is one character.
    pub fn new(source: &'a [u8]) -> (r: Scanner<'a>)
        requires
            is_ascii_bytes(source@),
            source@.len() < usize::MAX,
        ensures
            r.wf(),
            r.source() == source@,
            r.current() == 0,
            r.line() == 1,
    {
        Scanner { source, current: 0, line: 1 }
    }

    /// Scans the next token. At the end of the input this yields `Eof`, as
    /// often as it is called. After an error the scanner stands past the bytes
    /// that were read, and scanning may go on from there.
    pub fn scan_token(&mut self) -> (r: Result)
        requires
            old(self).wf(),
        ensures
            final(self).wf(),
            final(self).source() == old(self).source(),
            (result_view(r), final(self).current(), final(self).line()) == scan(
                old(self).source(),
                old(self).current(),
                old(self).line(),
            ),
    {
        self.skip();
        if self.is_at_end() {
            return Ok(Token::new(TokenType::Eof, self.line));
        }
        let start = self.current;
        let line = self.line;
        let byte = self.advance();
        match byte {
            40 => Ok(Token::new(TokenType::LParen, line)),
            41 => Ok(Token::new(TokenType::RParen, line)),
            123 => Ok(Token::new(TokenType::LBrace, line)),
            125 => Ok(Token::new(TokenType::RBrace, line)),
            91 => Ok(Token::new(TokenType::LBracket, line)),
            93 => Ok(Token::new(TokenType::RBracket, line)),
            46 => Ok(Token::new(TokenType::Dot, line)),
            43 => Ok(Token::new(TokenType::Plus, line)),
            45 => Ok(Token::new(TokenType::Minus, line)),
            42 => Ok(Token::new(TokenType::Asterisk, line)),
            47 => Ok(Token::new(TokenType::Slash, line)),
            44 => Ok(Token::new(TokenType::Comma, line)),
            61 => {
                let t = if self.choose_next(61) {
                    TokenType::EqualEqual
                } else {
                    TokenType::Equal
                };
                Ok(Token::new(t, line))
            },
            33 => {
                let t = if self.choose_next(61) {
                    TokenType::BangEqual
                } else {
                    TokenType::Bang
                };
                Ok(Token::new(t, line))
            },
            62 => {
                let t = if self.choose_next(61) {
                    TokenType::GreaterEqual
                } else {
                    TokenType::Greater
                };
                Ok(Token::new(t, line))
            },
            60 => {
                let t = if self.choose_next(61) {
                    TokenType::LessEqual
                } else {
                    TokenType::Less
                };
                Ok(Token::new(t, line))
            },
            34 => self.string(start, line),
            b => {
                if 48 <= b && b <= 57 {
                    self.num(start, line)
                } else if Self::valid_ident_chars(b) {
                    self.identifier(start, line)
                } else {
                    Err(Error::UnrecognizedToken)
                }
            },
        }
    }

    /// Reads a string literal whose opening quote is at `start`.
    fn string(&mut self, start: usize, line: usize) -> (r: Result)
        requires
            old(self).wf(),
            start < old(self).source().len(),
            old(self).current() == start + 1,
            old(self).source()[start as int] == 34,
            old(self).line() == line,
        ensures
            final(self).wf(),
            final(self).source() == old(self).source(),
            (result_view(r), final(self).current(), final(self).line()) == token_at(
                old(self).source(),
                start as int,
                line as int,
            ),
    {
        let ghost src = self.source@;
        while !self.is_at_end() && self.peek() != 34
            invariant
                self.wf(),
                self.source() == src,
                start < self.current,
                string_end(src, self.current as int, self.line as int) == string_end(
                    src,
                    start + 1,
                    line as int,
                ),
            decreases src.len() - self.current,
        {
            let b = self.advance();
            if b == 10 {
                self.line = self.line + 1;
            }
        }
        if self.is_at_end() {
            return Err(Error::UnterminatedString);
        }
        let text = ascii_text(&self.source[start + 1..self.current]);
        self.advance();
        Ok(Token::new(TokenType::Str(text), line))
    }

    /// Reads a number literal whose first digit is at `start`: digits,
    /// optionally followed by `.` and at least one digit.
    fn num(&mut self, start: usize, line: usize) -> (r: Result)
        requires
            old(self).wf(),
            start < old(self).source().len(),
            old(self).current() == start + 1,
            is_digit(old(self).source()[start as int]),
            old(self).line() == line,
        ensures
            final(self).wf(),
            final(self).source() == old(self).source(),
            (result_view(r), final(self).current(), final(self).line()) == token_at(
                old(self).source(),
                start as int,
                line as int,
            ),
    {
        let ghost src = self.source@;
        self.skip_digits();
        if !self.is_at_end() && self.peek() == 46 {
            self.advance();
            if self.is_at_end() || !is_digit_byte(self.peek()) {
                return Err(Error::InvalidNumFormat);
            }
            self.skip_digits();
        }
        let text = ascii_text(&self.source[start..self.current]);
        Ok(Token::new(TokenType::Num(text), line))
    }

    /// Steps over a run of digits.
    fn skip_digits(&mut self)
        requires
            old(self).wf(),
        ensures
            final(self).wf(),
            final(self).source() == old(self).source(),
            final(self).line() == old(self).line(),
            final(self).current() == digits_end(old(self).source(), old(self).current()),
            final(self).current() >= old(self).current(),
    {
        let ghost src = self.source@;
        let ghost c0 = self.current as int;
        while !self.is_at_end() && is_digit_byte(self.peek())
            invariant
                self.wf(),
                self.source() == src,
                self.line() == old(self).line(),
                self.current >= c0,
                digits_end(src, self.current as int) == digits_end(src, c0),
            decreases src.len() - self.current,
        {
            self.advance();
        }
    }

    /// Reads an identifier or keyword whose first byte is at `start`.
    fn identifier(&mut self, start: usize, line: usize) -> (r: Result)
        requires
            old(self).wf(),
            start < old(self).source().len(),
            old(self).current() == start + 1,
            is_ident_byte(old(self).source()[start as int]),
            old(self).line() == line,
        ensures
            final(self).wf(),
            final(self).source() == old(self).source(),
            (result_view(r), final(self).current(), final(self).line()) == token_at(
                old(self).source(),
                start as int,
                line as int,
            ),
    {
        let ghost src = self.source@;
        while !self.is_at_end() && Self::valid_ident_chars(self.peek())
            invariant
                self.wf(),
                self.source() == src,
                self.line() == line,
                start < self.current,
                ident_end(src, self.current as int) == ident_end(src, start as int),
            decreases src.len() - self.current,
        {
            self.advance();
        }
        let ident = &self.source[start..self.current];
        let t = match keyword(ident) {
            Some(k) => k,
            None => TokenType::Identifier(ascii_text(ident)),
        };
        Ok(Token::new(t, line))
    }

    /// Whether `byte` may appear in an identifier: a letter or `_`.
    fn valid_ident_chars(byte: u8) -> (r: bool)
        ensures
            r == is_ident_byte(byte),
    {
        (65 <= byte && byte <= 90) || (97 <= byte && byte <= 122) || byte == 95
    }

    fn is_at_end(&self) -> (r: bool)
        requires
            self.wf(),
        ensures
            r == (self.current() == self.source().len()),
    {
        self.current == self.source.len()
    }

    /// Reads the next byte and steps past it.
    fn advance(&mut self) -> (r: u8)
        requires
            old(self).wf(),
            old(self).current() < old(self).source().len(),
        ensures
            final(self).wf(),
            final(self).source() == old(self).source(),
            final(self).line() == old(self).line(),
            final(self).current() == old(self).current() + 1,
            r == old(self).source()[old(self).current()],
    {
        let byte = self.source[self.current];
        self.current = self.current + 1;
        byte
    }

    /// The next byte, not consumed.
    fn peek(&self) -> (r: u8)
        requires
            self.wf(),
            self.current() < self.source().len(),
        ensures
            r == self.source()[self.current()],
    {
        self.source[self.current]
    }

    /// Consumes the next byte if it is `byte`, and says whether it did.
    fn choose_next(&mut self, byte: u8) -> (r: bool)
        requires
            old(self).wf(),
        ensures
            final(self).wf(),
            final(self).source() == old(self).source(),
            final(self).line() == old(self).line(),
            r == (old(self).current() < old(self).source().len() && old(self).source()[old(
                self,
            ).current()] == byte),
            final(self).current() == old(self).current() + if r {
                1int
            } else {
                0int
            },
    {
        if !self.is_at_end() && self.peek() == byte {
            self.advance();
            true
        } else {
            false
        }
    }

    /// Skips whitespace and comments, counting lines.
    fn skip(&mut self)
        requires
            old(self).wf(),
        ensures
            final(self).wf(),
            final(self).source() == old(self).source(),
            (final(self).current(), final(self).line()) == skip_from(
                old(self).source(),
                old(self).current(),
                old(self).line(),
                false,
            ),
    {
        let ghost src = self.source@;
        let mut in_comment = false;
        while !self.is_at_end() && (in_comment || is_skippable(self.peek()))
            invariant
                self.wf(),
                self.source() == src,
                skip_from(src, self.current as int, self.line as int, in_comment) == skip_from(
                    src,
                    old(self).current(),
                    old(self).line(),
                    false,
                ),
            decreases src.len() - self.current,
        {
            let byte = self.advance();
            if byte == 10 {
                self.line = self.line + 1;
                in_comment = false;
            } else if byte == 35 {
                in_comment = true;
            }
        }
    }

    /// The next token, or `None` once the whole input has been read.
    pub fn next(&mut self) -> (r: Option<Result>)
        requires
            old(self).wf(),
        ensures
            final(self).wf(),
            final(self).source() == old(self).source(),
            old(self).current() == old(self).source().len() ==> r is None && *final(self)
                == *old(self),
            old(self).current() < old(self).source().len() ==> (r matches Some(t) && (
                result_view(t),
                final(self).current(),
                final(self).line(),
            ) == scan(old(self).source(), old(self).current(), old(self).line())),
    {
        if self.is_at_end() {
            None
        } else {
            Some(self.scan_token())
        }
    }
}

/// Whether `b` is skipped between tokens: whitespace, or the start of a
/// comment.
fn is_skippable(b: u8) -> (r: bool)
    ensures
        r == (b == 10 || b == 35 || is_blank(b)),
{
    b == 10 || b == 35 || b == 32 || b == 9 || b == 13
}

fn is_digit_byte(b: u8) -> (r: bool)
    ensures
        r == is_digit(b),
{
    48 <= b && b <= 57
}

/// The keyword that the identifier text `ident` spells, if any.
fn keyword(ident: &[u8]) -> (r: Option<TokenType>)
    ensures
        r matches Some(t) ==> keyword_of(ident@) == Some(t@),
        r is None ==> keyword_of(ident@) is None,
{
    let n = ident.len();
    let s = ident;
    if n == 5 && s[0] == 119 && s[1] == 104 && s[2] == 105 && s[3] == 108 && s[4] == 101 {
        assert(ident@ =~= seq![119u8, 104, 105, 108, 101]);
        Some(TokenType::While)
    } else if n == 2 && s[0] == 105 && s[1] == 102 {
        assert(ident@ =~= seq![105u8, 102]);
        Some(TokenType::If)
    } else if n == 4 && s[0] == 101 && s[1] == 108 && s[2] == 115 && s[3] == 101 {
        assert(ident@ =~= seq![101u8, 108, 115, 101]);
        Some(TokenType::Else)
    } else if n == 3 && s[0] == 108 && s[1] == 101 && s[2] == 116 {
        assert(ident@ =~= seq![108u8, 101, 116]);
        Some(TokenType::Let)
    } else if n == 4 && s[0] == 116 && s[1] == 114 && s[2] == 117 && s[3] == 101 {
        assert(ident@ =~= seq![116u8, 114, 117, 101]);
        Some(TokenType::True)
    } else if n == 5 && s[0] == 102 && s[1] == 97 && s[2] == 108 && s[3] == 115 && s[4] == 101 {
        assert(ident@ =~= seq![102u8, 97, 108, 115, 101]);
        Some(TokenType::False)
    } else {
        None
    }
}

} // verus!
