//! The scanner: from source bytes to tokens.

use crate::text::{ascii_chars, ascii_string, bracketed, is_digit, parse_decimal, parse_digits};
use crate::tokens::{render_tokens, token_texts, token_views, Token, TokenKind, TokenType, TokenView};
use vstd::prelude::*;
use vstd::string::StringSliceAdditionalSpecFns;

verus! {

/// The byte of a tab.
pub const TAB: u8 = 9;

/// The byte that ends a line.
pub const LINE_FEED: u8 = 10;

/// The byte of a carriage return.
pub const CARRIAGE_RETURN: u8 = 13;

/// The byte of a space.
pub const SPACE: u8 = 32;

/// The byte `(`.
pub const LEFT_PAREN: u8 = 40;

/// The byte `)`.
pub const RIGHT_PAREN: u8 = 41;

/// The byte `*`.
pub const STAR: u8 = 42;

/// The byte `+`.
pub const PLUS: u8 = 43;

/// The byte `,`.
pub const COMMA: u8 = 44;

/// The byte `-`.
pub const MINUS: u8 = 45;

/// The byte `/`.
pub const SLASH: u8 = 47;

/// The byte `:`.
pub const COLON: u8 = 58;

/// The byte `=`.
pub const EQUALS: u8 = 61;

/// The byte `_`.
pub const UNDERSCORE: u8 = 95;

/// True for the bytes that separate tokens: space, tab, carriage return and
/// line feed.
pub open spec fn is_blank(b: u8) -> bool {
    b == SPACE || b == TAB || b == CARRIAGE_RETURN || b == LINE_FEED
}

/// True for the bytes with which a name may begin: a letter or an underscore.
pub open spec fn is_name_start(b: u8) -> bool {
    97 <= b <= 122 || 65 <= b <= 90 || b == UNDERSCORE
}

/// True for the bytes of which a name is made after its first.
pub open spec fn is_name_part(b: u8) -> bool {
    is_name_start(b) || is_digit(b)
}

/// The number of line feeds among the first `i` bytes.
pub open spec fn line_breaks(s: Seq<u8>, i: int) -> nat
    decreases i,
{
    if i <= 0 {
        0
    } else {
        line_breaks(s, i - 1) + if s[i - 1] == LINE_FEED {
            1nat
        } else {
            0nat
        }
    }
}

/// The number of bytes between the last line feed before index `i` and `i`.
pub open spec fn column_at(s: Seq<u8>, i: int) -> nat
    decreases i,
{
    if i <= 0 || s[i - 1] == LINE_FEED {
        0
    } else {
        column_at(s, i - 1) + 1
    }
}

/// The index at which the run of digits that starts at `i` ends.
pub open spec fn digits_end(s: Seq<u8>, i: int) -> int
    decreases s.len() - i,
{
    if 0 <= i < s.len() && is_digit(s[i]) {
        digits_end(s, i + 1)
    } else {
        i
    }
}

/// The index at which the run of name bytes that starts at `i` ends.
pub open spec fn name_end(s: Seq<u8>, i: int) -> int
    decreases s.len() - i,
{
    if 0 <= i < s.len() && is_name_part(s[i]) {
        name_end(s, i + 1)
    } else {
        i
    }
}

/// The kind of token that a word is: one of the eight keywords, compared
/// by case, or else a name.
pub open spec fn word_kind(word: Seq<char>) -> TokenKind {
    if word == "store"@ {
        TokenKind::Store
    } else if word == "goto"@ {
        TokenKind::Goto
    } else if word == "assert"@ {
        TokenKind::Assert
    } else if word == "if"@ {
        TokenKind::If
    } else if word == "then"@ {
        TokenKind::Then
    } else if word == "else"@ {
        TokenKind::Else
    } else if word == "load"@ {
        TokenKind::Load
    } else if word == "get_input"@ {
        TokenKind::GetInput
    } else {
        TokenKind::Identifier(word)
    }
}

/// What stands at one place of the source.
pub ghost enum Lexeme {
    /// A token of the given kind, which ends before index `end`.
    Token { kind: TokenKind, end: int },
    /// A numeral, ending before index `end`, whose value does not fit 32 bits.
    Overflow { end: int },
    /// One blank byte.
    Blank,
    /// One byte that begins no token.
    Invalid,
}

/// What stands at index `i` of the source `s`.
pub open spec fn lex_at(s: Seq<u8>, i: int) -> Lexeme
    recommends
        0 <= i < s.len(),
{
    let c = s[i];
    if c == LEFT_PAREN {
        Lexeme::Token { kind: TokenKind::LeftParen, end: i + 1 }
    } else if c == RIGHT_PAREN {
        Lexeme::Token { kind: TokenKind::RightParen, end: i + 1 }
    } else if c == COMMA {
        Lexeme::Token { kind: TokenKind::Comma, end: i + 1 }
    } else if c == PLUS {
        Lexeme::Token { kind: TokenKind::Plus, end: i + 1 }
    } else if c == MINUS {
        Lexeme::Token { kind: TokenKind::Minus, end: i + 1 }
    } else if c == STAR {
        Lexeme::Token { kind: TokenKind::Star, end: i + 1 }
    } else if c == SLASH {
        Lexeme::Token { kind: TokenKind::Slash, end: i + 1 }
    } else if c == COLON {
        if i + 1 < s.len() && s[i + 1] == EQUALS {
            Lexeme::Token { kind: TokenKind::Assign, end: i + 2 }
        } else {
            Lexeme::Invalid
        }
    } else if is_blank(c) {
        Lexeme::Blank
    } else if is_digit(c) {
        let end = digits_end(s, i + 1);
        match parse_decimal(s.subrange(i, end)) {
            Some(v) => Lexeme::Token { kind: TokenKind::Value(v), end },
            None => Lexeme::Overflow { end },
        }
    } else if is_name_start(c) {
        let end = name_end(s, i + 1);
        Lexeme::Token { kind: word_kind(ascii_chars(s.subrange(i, end))), end }
    } else {
        Lexeme::Invalid
    }
}

/// The report of a byte that begins no token.
#[derive(Clone, Copy, Debug, PartialEq, Eq)]
pub struct Diagnostic {
    /// The line of the byte, counted from 1.
    pub line: usize,
    /// The place of the byte in its line, counted from 1.
    pub column: usize,
    /// The byte itself.
    pub byte: u8,
}

/// The report of the byte at index `i` of the source `s`.
pub open spec fn report_at(s: Seq<u8>, i: int) -> Diagnostic {
    Diagnostic {
        line: (line_breaks(s, i) + 1) as usize,
        column: (column_at(s, i) + 1) as usize,
        byte: s[i],
    }
}

/// Why the scanner hands out no token.
#[derive(Clone, Copy, Debug, PartialEq, Eq)]
pub enum ScanError {
    /// Nothing but blank and invalid bytes was left.
    EndOfInput,
    /// A numeral does not fit 32 bits.
    Overflow,
}

/// What one pull finds.
pub ghost enum Found {
    /// The next token.
    Token(TokenView),
    /// No token, for the given reason.
    Nothing(ScanError),
}

/// The outcome of one pull: what it finds, the index at which the next pull
/// begins, and the reports of the invalid bytes that it passes.
pub ghost struct Pull {
    pub found: Found,
    pub next: int,
    pub reports: Seq<Diagnostic>,
}

/// One pull on the source `s` from index `i`: blank and invalid bytes are
/// passed over, the latter with a report each, up to the first token, the
/// first numeral that is too large, or the end.
pub open spec fn pull(s: Seq<u8>, i: int) -> Pull
    decreases s.len() - i,
{
    if i < 0 || i >= s.len() {
        Pull { found: Found::Nothing(ScanError::EndOfInput), next: i, reports: Seq::empty() }
    } else {
        match lex_at(s, i) {
            Lexeme::Token { kind, end } => Pull {
                found: Found::Token(
                    TokenView {
                        token_type: kind,
                        lexeme: ascii_chars(s.subrange(i, end)),
                        line: (line_breaks(s, i) + 1) as usize,
                    },
                ),
                next: end,
                reports: Seq::empty(),
            },
            Lexeme::Overflow { end } => Pull {
                found: Found::Nothing(ScanError::Overflow),
                next: end,
                reports: Seq::empty(),
            },
            Lexeme::Blank => pull(s, i + 1),
            Lexeme::Invalid => {
                let rest = pull(s, i + 1);
                Pull { reports: seq![report_at(s, i)] + rest.reports, ..rest }
            },
        }
    }
}

/// The outcome of pulling until a pull finds no token: the tokens found, the
/// reports made, and the index at which the last pull stopped.
pub ghost struct Scan {
    pub tokens: Seq<TokenView>,
    pub reports: Seq<Diagnostic>,
    pub stop: int,
}

/// Repeated pulls on the source `s` from index `i` on, up to and including the
/// first pull that finds no token.
pub open spec fn scan_from(s: Seq<u8>, i: int) -> Scan
    decreases s.len() - i,
{
    let p = pull(s, i);
    match p.found {
        Found::Token(t) => if i < p.next <= s.len() {
            let rest = scan_from(s, p.next);
            Scan {
                tokens: seq![t] + rest.tokens,
                reports: p.reports + rest.reports,
                stop: rest.stop,
            }
        } else {
            Scan { tokens: seq![t], reports: p.reports, stop: p.next }
        },
        Found::Nothing(_) => Scan { tokens: Seq::empty(), reports: p.reports, stop: p.next },
    }
}

/// The tokens of a whole source text.
pub open spec fn scan(s: Seq<u8>) -> Seq<TokenView> {
    scan_from(s, 0).tokens
}

/// Line and column counts never exceed the number of bytes counted.
pub proof fn lemma_line_column_bounds(s: Seq<u8>, i: int)
    requires
        0 <= i,
    ensures
        line_breaks(s, i) <= i,
        column_at(s, i) <= i,
    decreases i,
{
    if i > 0 {
        lemma_line_column_bounds(s, i - 1);
    }
}

/// A run of digits lies within the source and holds digits only.
pub proof fn lemma_digits_end(s: Seq<u8>, i: int)
    requires
        0 <= i <= s.len(),
    ensures
        i <= digits_end(s, i) <= s.len(),
        forall|k: int| i <= k < digits_end(s, i) ==> is_digit(#[trigger] s[k]),
    decreases s.len() - i,
{
    if i < s.len() && is_digit(s[i]) {
        lemma_digits_end(s, i + 1);
    }
}

/// A run of name bytes lies within the source and holds name bytes only.
pub proof fn lemma_name_end(s: Seq<u8>, i: int)
    requires
        0 <= i <= s.len(),
    ensures
        i <= name_end(s, i) <= s.len(),
        forall|k: int| i <= k < name_end(s, i) ==> is_name_part(#[trigger] s[k]),
    decreases s.len() - i,
{
    if i < s.len() && is_name_part(s[i]) {
        lemma_name_end(s, i + 1);
    }
}

/// A pull that finds a token moves forward, and every pull stays in the source.
pub proof fn lemma_pull_advances(s: Seq<u8>, i: int)
    requires
        0 <= i <= s.len(),
    ensures
        i <= pull(s, i).next <= s.len(),
        pull(s, i).found is Token ==> i < pull(s, i).next,
        pull(s, i).found == Found::Nothing(ScanError::EndOfInput) ==> pull(s, i).next == s.len(),
    decreases s.len() - i,
{
    if i < s.len() {
        lemma_digits_end(s, i + 1);
        lemma_name_end(s, i + 1);
        match lex_at(s, i) {
            Lexeme::Blank => lemma_pull_advances(s, i + 1),
            Lexeme::Invalid => lemma_pull_advances(s, i + 1),
            _ => {},
        }
    }
}

/// Turns source text into tokens, one pull at a time.
#[derive(Debug, Clone, PartialEq)]
pub struct Scanner {
    /// The text, as bytes.
    source: Vec<u8>,
    /// The index at which the token being read begins.
    start: usize,
    /// The index of the next byte to read.
    current: usize,
    /// The number of line feeds read so far.
    line: usize,
    /// The number of bytes read since the last line feed.
    column: usize,
    /// The invalid bytes met so far.
    reports: Vec<Diagnostic>,
}

/// Copies the bytes of `v` from index `from` up to index `to`.
fn copy_range(v: &Vec<u8>, from: usize, to: usize) -> (out: Vec<u8>)
    requires
        from <= to <= v.len(),
    ensures
        out@ == v@.subrange(from as int, to as int),
{
    let mut out: Vec<u8> = Vec::new();
    let mut i: usize = from;
    while i < to
        invariant
            from <= i <= to <= v.len(),
            out@ == v@.subrange(from as int, i as int),
        decreases to - i,
    {
        out.push(v[i]);
        i = i + 1;
        assert(out@ =~= v@.subrange(from as int, i as int));
    }
    out
}

/// The token type of a word: a keyword's, or that of a name.
fn word_type(word: String) -> (t: TokenType)
    ensures
        t@ == word_kind(word@),
{
    if word == String::from_str("store") {
        TokenType::Store
    } else if word == String::from_str("goto") {
        TokenType::Goto
    } else if word == String::from_str("assert") {
        TokenType::Assert
    } else if word == String::from_str("if") {
        TokenType::If
    } else if word == String::from_str("then") {
        TokenType::Then
    } else if word == String::from_str("else") {
        TokenType::Else
    } else if word == String::from_str("load") {
        TokenType::Load
    } else if word == String::from_str("get_input") {
        TokenType::GetInput
    } else {
        TokenType::Identifier(word)
    }
}

impl Scanner {
    /// The source bytes.
    pub closed spec fn bytes(&self) -> Seq<u8> {
        self.source@
    }

    /// The index of the next byte to read.
    pub closed spec fn position(&self) -> int {
        self.current as int
    }

    /// The reports made so far, oldest first.
    pub closed spec fn reported(&self) -> Seq<Diagnostic> {
        self.reports@
    }

    /// The scanner's invariant: the position lies within the source, and the
    /// line and column counts are those of the position.
    pub closed spec fn wf(&self) -> bool {
        &&& self.start <= self.current <= self.source.len()
        &&& self.line == line_breaks(self.source@, self.current as int)
        &&& self.column == column_at(self.source@, self.current as int)
    }

    /// The tokens that the scanner has yet to hand out.
    pub open spec fn remaining(&self) -> Seq<TokenView> {
        scan_from(self.bytes(), self.position()).tokens
    }

    /// A scanner at the start of the given text.
    pub fn new(source: &str) -> (s: Scanner)
        ensures
            s.wf(),
            s.bytes() == source.spec_bytes(),
            s.position() == 0,
            s.reported() == Seq::<Diagnostic>::empty(),
    {
        Scanner {
            source: source.as_bytes_vec(),
            start: 0,
            current: 0,
            line: 0,
            column: 0,
            reports: Vec::new(),
        }
    }

    /// True when every byte has been read.
    pub fn is_at_end(&self) -> (res: bool)
        ensures
            res == (self.position() >= self.bytes().len()),
    {
        self.current >= self.source.len()
    }

    /// Reads the next byte.
    fn advance(&mut self) -> (c: u8)
        requires
            old(self).wf(),
            old(self).current < old(self).source.len(),
        ensures
            final(self).wf(),
            final(self).source == old(self).source,
            final(self).reports == old(self).reports,
            final(self).start == old(self).start,
            final(self).current == old(self).current + 1,
            c == old(self).source@[old(self).current as int],
    {
        proof {
            lemma_line_column_bounds(self.source@, self.current as int);
        }
        let c: u8 = self.source[self.current];
        self.current = self.current + 1;
        if c == LINE_FEED {
            self.line = self.line + 1;
            self.column = 0;
        } else {
            self.column = self.column + 1;
        }
        c
    }

    /// The next byte, or zero at the end, without reading it.
    fn peek(&self) -> (c: u8)
        ensures
            c == if self.current < self.source.len() {
                self.source@[self.current as int]
            } else {
                0u8
            },
    {
        if self.is_at_end() {
            0
        } else {
            self.source[self.current]
        }
    }

    /// Reads the next byte if it is the expected one, and says whether it was.
    fn matches(&mut self, expected: u8) -> (res: bool)
        requires
            old(self).wf(),
        ensures
            final(self).wf(),
            final(self).source == old(self).source,
            final(self).reports == old(self).reports,
            final(self).start == old(self).start,
            res == (old(self).current < old(self).source.len() && old(self).source@[old(
                self,
            ).current as int] == expected),
            final(self).current == old(self).current + if res {
                1int
            } else {
                0int
            },
    {
        if self.is_at_end() || self.source[self.current] != expected {
            false
        } else {
            self.advance();
            true
        }
    }

    /// Reads the digits that follow.
    fn read_digits(&mut self)
        requires
            old(self).wf(),
        ensures
            final(self).wf(),
            final(self).source == old(self).source,
            final(self).reports == old(self).reports,
            final(self).start == old(self).start,
            final(self).current == digits_end(old(self).source@, old(self).current as int),
    {
        let mut next: u8 = self.peek();
        while 48 <= next && next <= 57
            invariant
                self.wf(),
                self.source == old(self).source,
                self.reports == old(self).reports,
                self.start == old(self).start,
                next == if self.current < self.source.len() {
                    self.source@[self.current as int]
                } else {
                    0u8
                },
                digits_end(self.source@, self.current as int) == digits_end(
                    old(self).source@,
                    old(self).current as int,
                ),
            decreases self.source.len() - self.current,
        {
            self.advance();
            next = self.peek();
        }
    }

    /// Reads the name bytes that follow.
    fn read_name(&mut self)
        requires
            old(self).wf(),
        ensures
            final(self).wf(),
            final(self).source == old(self).source,
            final(self).reports == old(self).reports,
            final(self).start == old(self).start,
            final(self).current == name_end(old(self).source@, old(self).current as int),
    {
        let mut next: u8 = self.peek();
        while (97 <= next && next <= 122) || (65 <= next && next <= 90) || next == UNDERSCORE || (48
            <= next && next <= 57)
            invariant
                self.wf(),
                self.source == old(self).source,
                self.reports == old(self).reports,
                self.start == old(self).start,
                next == if self.current < self.source.len() {
                    self.source@[self.current as int]
                } else {
                    0u8
                },
                name_end(self.source@, self.current as int) == name_end(
                    old(self).source@,
                    old(self).current as int,
                ),
            decreases self.source.len() - self.current,
        {
            self.advance();
            next = self.peek();
        }
    }

    /// Pulls the next token, passing over blank and invalid bytes.
    ///
    /// Each invalid byte is reported. The pull fails at the end of the source,
    /// and on a numeral that does not fit 32 bits, which it reads to its end.
    pub fn scan_token(&mut self) -> (res: Result<Token, ScanError>)
        requires
            old(self).wf(),
        ensures
            final(self).wf(),
            final(self).bytes() == old(self).bytes(),
            final(self).position() == pull(old(self).bytes(), old(self).position()).next,
            final(self).reported() == old(self).reported() + pull(
                old(self).bytes(),
                old(self).position(),
            ).reports,
            match pull(old(self).bytes(), old(self).position()).found {
                Found::Token(t) => res matches Ok(token) && token@ == t,
                Found::Nothing(e) => res matches Err(err) && err == e,
            },
    {
        let ghost s = self.source@;
        let ghost first = self.current as int;
        let ghost before = self.reports@;
        loop
            invariant
                self.wf(),
                self.source@ == s,
                s == old(self).source@,
                first == old(self).current,
                before == old(self).reports@,
                first <= self.current,
                pull(s, first).found == pull(s, self.current as int).found,
                pull(s, first).next == pull(s, self.current as int).next,
                before + pull(s, first).reports == self.reports@ + pull(
                    s,
                    self.current as int,
                ).reports,
            decreases self.source.len() - self.current,
        {
            if self.is_at_end() {
                return Err(ScanError::EndOfInput);
            }
            let ghost i = self.current as int;
            proof {
                lemma_line_column_bounds(s, i);
                lemma_digits_end(s, i + 1);
                lemma_name_end(s, i + 1);
            }
            self.start = self.current;
            let line: usize = self.line + 1;
            let column: usize = self.column + 1;
            let c: u8 = self.advance();
            let token_type: TokenType = if c == LEFT_PAREN {
                TokenType::LeftParen
            } else if c == RIGHT_PAREN {
                TokenType::RightParen
            } else if c == COMMA {
                TokenType::Comma
            } else if c == PLUS {
                TokenType::Plus
            } else if c == MINUS {
                TokenType::Minus
            } else if c == STAR {
                TokenType::Star
            } else if c == SLASH {
                TokenType::Slash
            } else if c == COLON {
                if self.matches(EQUALS) {
                    TokenType::Assign
                } else {
                    TokenType::Invalid(c)
                }
            } else if c == SPACE || c == TAB || c == CARRIAGE_RETURN || c == LINE_FEED {
                TokenType::Ignore
            } else if 48 <= c && c <= 57 {
                self.read_digits();
                let digits = copy_range(&self.source, self.start, self.current);
                assert(digits@.skip(0) =~= digits@);
                match parse_digits(&digits, 0) {
                    Some(v) => TokenType::Value(v),
                    None => {
                        self.start = self.current;
                        return Err(ScanError::Overflow);
                    },
                }
            } else if (97 <= c && c <= 122) || (65 <= c && c <= 90) || c == UNDERSCORE {
                self.read_name();
                let word = copy_range(&self.source, self.start, self.current);
                word_type(ascii_string(word))
            } else {
                TokenType::Invalid(c)
            };
            assert(match lex_at(s, i) {
                Lexeme::Token { kind, end } => token_type@ == kind && end == self.current
                    && !(kind is Ignore) && !(kind is Invalid),
                Lexeme::Overflow { end } => false,
                Lexeme::Blank => token_type@ is Ignore && self.current == i + 1,
                Lexeme::Invalid => token_type@ == TokenKind::Invalid(c) && self.current == i + 1,
            });
            match token_type {
                TokenType::Ignore => {},
                TokenType::Invalid(byte) => {
                    self.reports.push(Diagnostic { line, column, byte });
                    assert(self.reports@ + pull(s, self.current as int).reports =~= before + pull(
                        s,
                        first,
                    ).reports);
                },
                _ => {
                    let lexeme = copy_range(&self.source, self.start, self.current);
                    self.start = self.current;
                    return Ok(Token { token_type, lexeme: ascii_string(lexeme), line });
                },
            }
        }
    }

    /// Hands out the next token, or nothing where a pull fails.
    pub fn next(&mut self) -> (res: Option<Token>)
        requires
            old(self).wf(),
        ensures
            final(self).wf(),
            final(self).bytes() == old(self).bytes(),
            final(self).position() == pull(old(self).bytes(), old(self).position()).next,
            final(self).reported() == old(self).reported() + pull(
                old(self).bytes(),
                old(self).position(),
            ).reports,
            match pull(old(self).bytes(), old(self).position()).found {
                Found::Token(t) => res matches Some(token) && token@ == t,
                Found::Nothing(_) => res is None,
            },
    {
        if self.is_at_end() {
            None
        } else {
            match self.scan_token() {
                Ok(token) => Some(token),
                Err(_) => None,
            }
        }
    }

    /// Hands out the tokens up to the first pull that fails.
    pub fn collect(&mut self) -> (tokens: Vec<Token>)
        requires
            old(self).wf(),
        ensures
            final(self).wf(),
            final(self).bytes() == old(self).bytes(),
            token_views(tokens@) == old(self).remaining(),
            final(self).reported() == old(self).reported() + scan_from(
                old(self).bytes(),
                old(self).position(),
            ).reports,
            final(self).position() == scan_from(old(self).bytes(), old(self).position()).stop,
    {
        let ghost s = self.source@;
        let ghost first = self.current as int;
        let ghost before = self.reports@;
        let mut tokens: Vec<Token> = Vec::new();
        let mut done = false;
        while !done
            invariant
                self.wf(),
                self.source@ == s,
                s == old(self).source@,
                first == old(self).current,
                before == old(self).reports@,
                scan_from(s, first).tokens == token_views(tokens@) + if done {
                    Seq::<TokenView>::empty()
                } else {
                    scan_from(s, self.current as int).tokens
                },
                before + scan_from(s, first).reports == self.reports@ + if done {
                    Seq::<Diagnostic>::empty()
                } else {
                    scan_from(s, self.current as int).reports
                },
                scan_from(s, first).stop == if done {
                    self.current as int
                } else {
                    scan_from(s, self.current as int).stop
                },
            decreases
                    self.source.len() - self.current + if done {
                        0int
                    } else {
                        1int
                    },
        {
            let ghost i = self.current as int;
            let ghost found = token_views(tokens@);
            proof {
                lemma_pull_advances(s, i);
            }
            match self.next() {
                Some(token) => {
                    tokens.push(token);
                    assert(token_views(tokens@) =~= found + seq![token@]);
                    assert(scan_from(s, first).tokens =~= token_views(tokens@) + scan_from(
                        s,
                        self.current as int,
                    ).tokens);
                    assert(before + scan_from(s, first).reports =~= self.reports@ + scan_from(
                        s,
                        self.current as int,
                    ).reports);
                },
                None => {
                    done = true;
                    assert(scan_from(s, first).tokens =~= token_views(tokens@));
                    assert(before + scan_from(s, first).reports =~= self.reports@);
                },
            }
        }
        assert(scan_from(s, first).tokens =~= token_views(tokens@));
        assert(before + scan_from(s, first).reports =~= self.reports@);
        tokens
    }

    /// The reports made so far, oldest first.
    pub fn diagnostics(&self) -> (reports: &Vec<Diagnostic>)
        ensures
            reports@ == self.reported(),
    {
        &self.reports
    }

    /// Shows, as a list, the tokens that the scanner has yet to hand out.
    pub fn to_string(&self) -> (s: String)
        requires
            self.wf(),
        ensures
            s@ == bracketed(token_texts(self.remaining())),
    {
        let mut rest = Scanner {
            source: copy_range(&self.source, 0, self.source.len()),
            start: self.start,
            current: self.current,
            line: self.line,
            column: self.column,
            reports: Vec::new(),
        };
        assert(rest.source@ =~= self.source@);
        let tokens = rest.collect();
        render_tokens(&tokens)
    }
}

} // verus!
