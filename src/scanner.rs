//! A scanner for Lox source text: it turns bytes into tokens one at a time,
//! skipping blanks and line comments and counting lines as it goes.
use vstd::prelude::*;
use vstd::slice::{slice_subrange, slice_to_vec};
use vstd::string::StringSliceAdditionalSpecFns;

verus! {

// The bytes that the scanner tells apart.
pub const SPACE: u8 = 32;
pub const CARRIAGE_RETURN: u8 = 13;
pub const TAB: u8 = 9;
pub const NEWLINE: u8 = 10;
pub const SLASH: u8 = 47;
pub const QUOTE: u8 = 34;
pub const DOT: u8 = 46;
pub const EQUAL: u8 = 61;
pub const BANG: u8 = 33;
pub const LESS: u8 = 60;
pub const GREATER: u8 = 62;
pub const LEFT_PAREN: u8 = 40;
pub const RIGHT_PAREN: u8 = 41;
pub const LEFT_BRACE: u8 = 123;
pub const RIGHT_BRACE: u8 = 125;
pub const COMMA: u8 = 44;
pub const SEMICOLON: u8 = 59;
pub const MINUS: u8 = 45;
pub const PLUS: u8 = 43;
pub const STAR: u8 = 42;
pub const UNDERSCORE: u8 = 95;
pub const DIGIT_0: u8 = 48;
pub const DIGIT_9: u8 = 57;
pub const LOWER_A: u8 = 97;
pub const LOWER_Z: u8 = 122;
pub const UPPER_A: u8 = 65;
pub const UPPER_Z: u8 = 90;

/// The kinds of token.
#[derive(Clone, Copy, Debug, PartialEq, Eq, Hash, Structural)]
pub enum TokenType {
    // Single-character tokens
    TokenLeftParen,
    TokenRightParen,
    TokenLeftBrace,
    TokenRightBrace,
    TokenComma,
    TokenDot,
    TokenSemicolon,
    TokenMinus,
    TokenPlus,
    TokenSlash,
    TokenStar,
    // One or two character tokens
    TokenNot,
    TokenNotEqual,
    TokenEqual,
    TokenEqualEqual,
    TokenLess,
    TokenLessEqual,
    TokenGreater,
    TokenGreaterEqual,
    // Literals
    TokenIdentifier,
    TokenString,
    TokenNumber,
    // Keywords
    TokenTrue,
    TokenFalse,
    TokenAnd,
    TokenOr,
    TokenIf,
    TokenElse,
    TokenClass,
    TokenSuper,
    TokenThis,
    TokenFun,
    TokenVar,
    TokenReturn,
    TokenFor,
    TokenWhile,
    TokenNil,
    TokenPrint,
    TokenError,
    TokenEof,
}

/// One token: its kind, its bytes (the lexeme, or the message of an error
/// token), their number, and the line the scanner had reached.
#[derive(Clone, Debug)]
pub struct Token {
    pub token_type: TokenType,
    pub value: Vec<u8>,
    pub length: usize,
    pub line: usize,
}

pub open spec fn is_digit_byte(c: u8) -> bool {
    DIGIT_0 <= c <= DIGIT_9
}

pub open spec fn is_alpha_byte(c: u8) -> bool {
    (LOWER_A <= c <= LOWER_Z) || (UPPER_A <= c <= UPPER_Z) || c == UNDERSCORE
}

/// The byte at `i`, or 0 past the end of the source.
pub open spec fn byte_at(src: Seq<u8>, i: int) -> u8 {
    if 0 <= i < src.len() {
        src[i]
    } else {
        0
    }
}

/// Number of line breaks in `src[a..b]`.
pub open spec fn newlines(src: Seq<u8>, a: int, b: int) -> nat
    decreases b - a,
{
    if b <= a {
        0
    } else {
        newlines(src, a, b - 1) + if src[b - 1] == NEWLINE { 1nat } else { 0nat }
    }
}

/// The line reached from line `line` after `n` more line breaks; the count
/// stops at the largest `usize`.
pub open spec fn line_after(line: int, n: nat) -> int {
    if line + n <= usize::MAX {
        line + n
    } else {
        usize::MAX as int
    }
}

/// The position where the blanks (space, tab, carriage return, line break)
/// and line comments from `i` end; `in_comment` says that `i` lies inside a
/// comment, which runs up to the next line break.
pub open spec fn blank_end(src: Seq<u8>, i: int, in_comment: bool) -> int
    decreases src.len() - i,
{
    if !(0 <= i < src.len()) {
        i
    } else if in_comment {
        blank_end(src, i + 1, src[i] != NEWLINE)
    } else if src[i] == SPACE || src[i] == CARRIAGE_RETURN || src[i] == TAB || src[i] == NEWLINE {
        blank_end(src, i + 1, false)
    } else if src[i] == SLASH && byte_at(src, i + 1) == SLASH {
        blank_end(src, i + 2, true)
    } else {
        i
    }
}

/// The first position from `i` whose byte is not a digit, or the end.
pub open spec fn digits_end(src: Seq<u8>, i: int) -> int
    decreases src.len() - i,
{
    if 0 <= i < src.len() && is_digit_byte(src[i]) {
        digits_end(src, i + 1)
    } else {
        i
    }
}

/// The first position from `i` whose byte is neither a letter, `_` nor a
/// digit, or the end.
pub open spec fn word_end(src: Seq<u8>, i: int) -> int
    decreases src.len() - i,
{
    if 0 <= i < src.len() && (is_alpha_byte(src[i]) || is_digit_byte(src[i])) {
        word_end(src, i + 1)
    } else {
        i
    }
}

/// The first position from `i` that holds a double quote, or the end.
pub open spec fn quote_at(src: Seq<u8>, i: int) -> int
    decreases src.len() - i,
{
    if 0 <= i < src.len() && src[i] != QUOTE {
        quote_at(src, i + 1)
    } else {
        i
    }
}

/// The end of a number whose first digit has been read and whose next byte
/// is at `i`: digits, then a dot and digits if a digit follows the dot.
pub open spec fn number_end(src: Seq<u8>, i: int) -> int {
    let d = digits_end(src, i);
    if byte_at(src, d) == DOT && is_digit_byte(byte_at(src, d + 1)) {
        digits_end(src, d + 1)
    } else {
        d
    }
}

/// The kind of a word: the keyword it spells, or an identifier.
pub open spec fn word_type(text: Seq<u8>) -> TokenType {
    if text == "and".spec_bytes() {
        TokenType::TokenAnd
    } else if text == "class".spec_bytes() {
        TokenType::TokenClass
    } else if text == "else".spec_bytes() {
        TokenType::TokenElse
    } else if text == "false".spec_bytes() {
        TokenType::TokenFalse
    } else if text == "for".spec_bytes() {
        TokenType::TokenFor
    } else if text == "fun".spec_bytes() {
        TokenType::TokenFun
    } else if text == "if".spec_bytes() {
        TokenType::TokenIf
    } else if text == "nil".spec_bytes() {
        TokenType::TokenNil
    } else if text == "or".spec_bytes() {
        TokenType::TokenOr
    } else if text == "print".spec_bytes() {
        TokenType::TokenPrint
    } else if text == "return".spec_bytes() {
        TokenType::TokenReturn
    } else if text == "super".spec_bytes() {
        TokenType::TokenSuper
    } else if text == "this".spec_bytes() {
        TokenType::TokenThis
    } else if text == "true".spec_bytes() {
        TokenType::TokenTrue
    } else if text == "var".spec_bytes() {
        TokenType::TokenVar
    } else if text == "while".spec_bytes() {
        TokenType::TokenWhile
    } else {
        TokenType::TokenIdentifier
    }
}

/// The kind of a one-byte token, if `c` is one.
pub open spec fn single_type(c: u8) -> Option<TokenType> {
    if c == LEFT_PAREN {
        Some(TokenType::TokenLeftParen)
    } else if c == RIGHT_PAREN {
        Some(TokenType::TokenRightParen)
    } else if c == LEFT_BRACE {
        Some(TokenType::TokenLeftBrace)
    } else if c == RIGHT_BRACE {
        Some(TokenType::TokenRightBrace)
    } else if c == COMMA {
        Some(TokenType::TokenComma)
    } else if c == DOT {
        Some(TokenType::TokenDot)
    } else if c == SEMICOLON {
        Some(TokenType::TokenSemicolon)
    } else if c == MINUS {
        Some(TokenType::TokenMinus)
    } else if c == PLUS {
        Some(TokenType::TokenPlus)
    } else if c == STAR {
        Some(TokenType::TokenStar)
    } else if c == SLASH {
        Some(TokenType::TokenSlash)
    } else {
        None
    }
}

/// The kind of the operator that starts with `c` (`!`, `=`, `<` or `>`),
/// alone or followed by `=`.
pub open spec fn operator_type(c: u8, with_equal: bool) -> Option<TokenType> {
    if c == BANG {
        Some(if with_equal { TokenType::TokenNotEqual } else { TokenType::TokenNot })
    } else if c == EQUAL {
        Some(if with_equal { TokenType::TokenEqualEqual } else { TokenType::TokenEqual })
    } else if c == LESS {
        Some(if with_equal { TokenType::TokenLessEqual } else { TokenType::TokenLess })
    } else if c == GREATER {
        Some(if with_equal { TokenType::TokenGreaterEqual } else { TokenType::TokenGreater })
    } else {
        None
    }
}

/// The token that starts at `s`, with no blank before it: its kind and the
/// position where it ends.
pub open spec fn token_at(src: Seq<u8>, s: int) -> (TokenType, int) {
    if !(0 <= s < src.len()) {
        (TokenType::TokenEof, s)
    } else {
        let c = src[s];
        if single_type(c) is Some {
            (single_type(c)->Some_0, s + 1)
        } else if operator_type(c, false) is Some {
            if byte_at(src, s + 1) == EQUAL {
                (operator_type(c, true)->Some_0, s + 2)
            } else {
                (operator_type(c, false)->Some_0, s + 1)
            }
        } else if c == QUOTE {
            let q = quote_at(src, s + 1);
            if q < src.len() {
                (TokenType::TokenString, q + 1)
            } else {
                (TokenType::TokenError, q)
            }
        } else if is_digit_byte(c) {
            (TokenType::TokenNumber, number_end(src, s + 1))
        } else if is_alpha_byte(c) {
            let e = word_end(src, s + 1);
            (word_type(src.subrange(s, e)), e)
        } else {
            (TokenType::TokenError, s + 1)
        }
    }
}

/// The bytes of the token of kind `t` that spans `src[s..e]`: the lexeme,
/// or for an error token its message.
pub open spec fn token_value(src: Seq<u8>, s: int, e: int, t: TokenType) -> Seq<u8> {
    if t == TokenType::TokenError {
        if src[s] == QUOTE {
            "Unterminated string.".spec_bytes()
        } else {
            "Unknown character.".spec_bytes()
        }
    } else {
        src.subrange(s, e)
    }
}

fn single_char(c: u8) -> (r: Option<TokenType>)
    ensures
        r == single_type(c),
{
    if c == LEFT_PAREN {
        Some(TokenType::TokenLeftParen)
    } else if c == RIGHT_PAREN {
        Some(TokenType::TokenRightParen)
    } else if c == LEFT_BRACE {
        Some(TokenType::TokenLeftBrace)
    } else if c == RIGHT_BRACE {
        Some(TokenType::TokenRightBrace)
    } else if c == COMMA {
        Some(TokenType::TokenComma)
    } else if c == DOT {
        Some(TokenType::TokenDot)
    } else if c == SEMICOLON {
        Some(TokenType::TokenSemicolon)
    } else if c == MINUS {
        Some(TokenType::TokenMinus)
    } else if c == PLUS {
        Some(TokenType::TokenPlus)
    } else if c == STAR {
        Some(TokenType::TokenStar)
    } else if c == SLASH {
        Some(TokenType::TokenSlash)
    } else {
        None
    }
}

fn operator_kind(c: u8, with_equal: bool) -> (t: TokenType)
    requires
        operator_type(c, false) is Some,
    ensures
        operator_type(c, with_equal) == Some(t),
{
    if c == BANG {
        if with_equal { TokenType::TokenNotEqual } else { TokenType::TokenNot }
    } else if c == EQUAL {
        if with_equal { TokenType::TokenEqualEqual } else { TokenType::TokenEqual }
    } else if c == LESS {
        if with_equal { TokenType::TokenLessEqual } else { TokenType::TokenLess }
    } else {
        if with_equal { TokenType::TokenGreaterEqual } else { TokenType::TokenGreater }
    }
}

/// Scans a source text token by token.
pub struct Scanner {
    source: Vec<u8>,
    start: usize,
    current: usize,
    line: usize,
}

proof fn lemma_newlines_step(src: Seq<u8>, a: int, b: int)
    requires
        a <= b < src.len(),
    ensures
        newlines(src, a, b + 1) == newlines(src, a, b) + if src[b] == NEWLINE { 1nat } else { 0nat },
{
}

proof fn lemma_newlines_split(src: Seq<u8>, a: int, b: int, c: int)
    requires
        a <= b <= c,
    ensures
        newlines(src, a, c) == newlines(src, a, b) + newlines(src, b, c),
    decreases c - b,
{
    if c > b {
        lemma_newlines_split(src, a, b, c - 1);
    }
}

proof fn lemma_blank_end_bound(src: Seq<u8>, i: int, in_comment: bool)
    requires
        0 <= i <= src.len(),
    ensures
        i <= blank_end(src, i, in_comment) <= src.len(),
        blank_end(src, i, in_comment) < src.len() ==> src[blank_end(src, i, in_comment)] != NEWLINE,
    decreases src.len() - i,
{
    if i < src.len() {
        if in_comment {
            lemma_blank_end_bound(src, i + 1, src[i] != NEWLINE);
        } else if src[i] == SPACE || src[i] == CARRIAGE_RETURN || src[i] == TAB || src[i] == NEWLINE {
            lemma_blank_end_bound(src, i + 1, false);
        } else if src[i] == SLASH && byte_at(src, i + 1) == SLASH {
            lemma_blank_end_bound(src, i + 2, true);
        }
    }
}

impl Scanner {
    /// The bytes being scanned.
    pub closed spec fn source_bytes(&self) -> Seq<u8> {
        self.source@
    }

    /// The position of the next byte to read.
    pub closed spec fn position(&self) -> int {
        self.current as int
    }

    /// The line that the scanner has reached.
    pub closed spec fn line_number(&self) -> int {
        self.line as int
    }

    /// The positions lie within the source.
    pub closed spec fn wf(&self) -> bool {
        &&& self.start <= self.current <= self.source@.len()
    }

    /// A scanner at the start of `source`, on line 1.
    pub fn init_scanner(source: &str) -> (s: Scanner)
        ensures
            s.wf(),
            s.source_bytes() == source.spec_bytes(),
            s.position() == 0,
            s.line_number() == 1,
    {
        let bytes = slice_to_vec(source.as_bytes());
        Scanner { source: bytes, start: 0, current: 0, line: 1 }
    }

    fn is_at_end(&self) -> (r: bool)
        ensures
            r == (self.current >= self.source@.len()),
    {
        self.current >= self.source.len()
    }

    fn advance(&mut self) -> (c: u8)
        requires
            old(self).current < old(self).source@.len(),
        ensures
            c == old(self).source@[old(self).current as int],
            final(self).current == old(self).current + 1,
            final(self).source@ == old(self).source@,
            final(self).start == old(self).start,
            final(self).line == old(self).line,
    {
        let at = self.current;
        let _len = self.source.len();
        let c = self.source[at];
        self.current = at + 1;
        c
    }

    fn peek(&self) -> (c: u8)
        ensures
            c == byte_at(self.source@, self.current as int),
    {
        if self.is_at_end() {
            0
        } else {
            self.source[self.current]
        }
    }

    fn peek_next(&self) -> (c: u8)
        requires
            self.current <= self.source@.len(),
        ensures
            c == byte_at(self.source@, self.current + 1),
    {
        if self.source.len() - self.current <= 1 {
            0
        } else {
            self.source[self.current + 1]
        }
    }

    fn match_next(&mut self, expected: u8) -> (r: bool)
        requires
            expected != 0,
        ensures
            r == (byte_at(old(self).source@, old(self).current as int) == expected),
            final(self).current == old(self).current + if r { 1int } else { 0int },
            final(self).source@ == old(self).source@,
            final(self).start == old(self).start,
            final(self).line == old(self).line,
    {
        if self.is_at_end() {
            return false;
        }
        let at = self.current;
        let _len = self.source.len();
        if self.source[at] != expected {
            return false;
        }
        self.current = at + 1;
        true
    }

    fn make_token(&self, token_type: TokenType) -> (t: Token)
        requires
            self.start <= self.current <= self.source@.len(),
        ensures
            t.token_type == token_type,
            t.value@ == self.source@.subrange(self.start as int, self.current as int),
            t.length == t.value@.len(),
            t.line == self.line,
    {
        let slice = slice_subrange(self.source.as_slice(), self.start, self.current);
        let value = slice_to_vec(slice);
        let length = value.len();
        Token { token_type, value, length, line: self.line }
    }

    fn error_token(&self, message: &str) -> (t: Token)
        ensures
            t.token_type == TokenType::TokenError,
            t.value@ == message.spec_bytes(),
            t.length == t.value@.len(),
            t.line == self.line,
    {
        let value = slice_to_vec(message.as_bytes());
        let length = value.len();
        Token { token_type: TokenType::TokenError, value, length, line: self.line }
    }

    fn skip_whitespace_and_comments(&mut self)
        requires
            old(self).wf(),
        ensures
            final(self).wf(),
            final(self).source@ == old(self).source@,
            final(self).current == blank_end(old(self).source@, old(self).current as int, false),
            final(self).line == line_after(old(self).line as int, newlines(
                old(self).source@,
                old(self).current as int,
                final(self).current as int,
            )),
    {
        let ghost src = self.source@;
        let ghost from = self.current as int;
        let ghost target = blank_end(src, from, false);
        loop
            invariant
                self.source@ == src,
                src == old(self).source@,
                from == old(self).current,
                target == blank_end(src, from, false),
                self.wf(),
                from <= self.current,
                blank_end(src, self.current as int, false) == target,
                self.line == line_after(old(self).line as int, newlines(src, from, self.current as int)),
            ensures
                self.current == target,
            decreases src.len() - self.current,
        {
            let c = self.peek();
            if c == SPACE || c == CARRIAGE_RETURN || c == TAB {
                proof { lemma_newlines_step(src, from, self.current as int); }
                self.advance();
            } else if c == NEWLINE {
                proof { lemma_newlines_step(src, from, self.current as int); }
                if self.line < usize::MAX {
                    self.line = self.line + 1;
                }
                self.advance();
            } else if c == SLASH {
                if self.peek_next() == SLASH {
                    let ghost at = self.current as int;
                    assert(blank_end(src, at, true) == target) by {
                        assert(blank_end(src, at + 1, true) == blank_end(src, at + 2, true));
                    }
                    while self.peek() != NEWLINE && !self.is_at_end()
                        invariant
                            self.source@ == src,
                            self.wf(),
                            at <= self.current <= src.len(),
                            blank_end(src, self.current as int, true) == target,
                            self.line == line_after(old(self).line as int, newlines(src, from, self.current as int)),
                            from <= at,
                        decreases src.len() - self.current,
                    {
                        proof { lemma_newlines_step(src, from, self.current as int); }
                        self.advance();
                    }
                    assert(blank_end(src, self.current as int, false) == target);
                } else {
                    assert(blank_end(src, self.current as int, false) == self.current as int);
                    return;
                }
            } else {
                assert(blank_end(src, self.current as int, false) == self.current as int);
                return;
            }
        }
    }

    /// Whether the lexeme `source[start..current]` spells `word`.
    fn lexeme_is(&self, word: &str) -> (r: bool)
        requires
            self.start <= self.current <= self.source@.len(),
        ensures
            r == (self.source@.subrange(self.start as int, self.current as int) == word.spec_bytes()),
    {
        let w = word.as_bytes();
        let ghost lexeme = self.source@.subrange(self.start as int, self.current as int);
        if w.len() != self.current - self.start {
            return false;
        }
        let mut i: usize = 0;
        while i < w.len()
            invariant
                w@ == word.spec_bytes(),
                w@.len() == lexeme.len(),
                lexeme == self.source@.subrange(self.start as int, self.current as int),
                self.start <= self.current <= self.source@.len(),
                i <= w@.len(),
                forall|k: int| 0 <= k < i ==> lexeme[k] == w@[k],
            decreases w@.len() - i,
        {
            if self.source[self.start + i] != w[i] {
                return false;
            }
            i = i + 1;
        }
        assert(lexeme =~= w@);
        true
    }

    /// The kind of the word `source[start..current]`.
    fn word_kind(&self) -> (t: TokenType)
        requires
            self.start <= self.current <= self.source@.len(),
        ensures
            t == word_type(self.source@.subrange(self.start as int, self.current as int)),
    {
        if self.lexeme_is("and") {
            TokenType::TokenAnd
        } else if self.lexeme_is("class") {
            TokenType::TokenClass
        } else if self.lexeme_is("else") {
            TokenType::TokenElse
        } else if self.lexeme_is("false") {
            TokenType::TokenFalse
        } else if self.lexeme_is("for") {
            TokenType::TokenFor
        } else if self.lexeme_is("fun") {
            TokenType::TokenFun
        } else if self.lexeme_is("if") {
            TokenType::TokenIf
        } else if self.lexeme_is("nil") {
            TokenType::TokenNil
        } else if self.lexeme_is("or") {
            TokenType::TokenOr
        } else if self.lexeme_is("print") {
            TokenType::TokenPrint
        } else if self.lexeme_is("return") {
            TokenType::TokenReturn
        } else if self.lexeme_is("super") {
            TokenType::TokenSuper
        } else if self.lexeme_is("this") {
            TokenType::TokenThis
        } else if self.lexeme_is("true") {
            TokenType::TokenTrue
        } else if self.lexeme_is("var") {
            TokenType::TokenVar
        } else if self.lexeme_is("while") {
            TokenType::TokenWhile
        } else {
            TokenType::TokenIdentifier
        }
    }

    /// Scans the rest of a string literal whose opening quote was just read.
    fn string(&mut self) -> (t: Token)
        requires
            old(self).wf(),
            old(self).current == old(self).start + 1,
            old(self).source@[old(self).start as int] == QUOTE,
        ensures
            final(self).wf(),
            final(self).source@ == old(self).source@,
            final(self).start == old(self).start,
            final(self).current >= old(self).current,
            (t.token_type, final(self).current as int) == token_at(old(self).source@, old(self).start as int),
            t.value@ == token_value(old(self).source@, old(self).start as int, final(self).current as int, t.token_type),
            t.length == t.value@.len(),
            t.line == final(self).line,
            final(self).line == line_after(old(self).line as int, newlines(old(self).source@, old(self).current as int, final(self).current as int)),
    {
        let ghost src = self.source@;
        let ghost from = self.current as int;
        while self.peek() != QUOTE && !self.is_at_end()
            invariant
                self.source@ == src,
                src == old(self).source@,
                from == old(self).current,
                self.start == old(self).start,
                self.wf(),
                from <= self.current,
                quote_at(src, self.current as int) == quote_at(src, from),
                self.line == line_after(old(self).line as int, newlines(src, from, self.current as int)),
            decreases src.len() - self.current,
        {
            proof { lemma_newlines_step(src, from, self.current as int); }
            if self.peek() == NEWLINE {
                if self.line < usize::MAX {
                    self.line = self.line + 1;
                }
            }
            self.advance();
        }
        if self.is_at_end() {
            return self.error_token("Unterminated string.");
        }
        proof { lemma_newlines_step(src, from, self.current as int); }
        self.advance();
        self.make_token(TokenType::TokenString)
    }

    /// Scans the rest of a number whose first digit was just read.
    fn number(&mut self) -> (t: Token)
        requires
            old(self).wf(),
            old(self).current == old(self).start + 1,
            is_digit_byte(old(self).source@[old(self).start as int]),
        ensures
            final(self).wf(),
            final(self).source@ == old(self).source@,
            final(self).start == old(self).start,
            final(self).current >= old(self).current,
            (t.token_type, final(self).current as int) == token_at(old(self).source@, old(self).start as int),
            t.value@ == token_value(old(self).source@, old(self).start as int, final(self).current as int, t.token_type),
            t.length == t.value@.len(),
            t.line == final(self).line,
            final(self).line == line_after(old(self).line as int, newlines(old(self).source@, old(self).current as int, final(self).current as int)),
    {
        let ghost src = self.source@;
        let ghost from = self.current as int;
        while Self::is_digit(self.peek())
            invariant
                self.source@ == src,
                src == old(self).source@,
                from == old(self).current,
                self.start == old(self).start,
                self.line == old(self).line,
                self.wf(),
                from <= self.current,
                digits_end(src, self.current as int) == digits_end(src, from),
                newlines(src, from, self.current as int) == 0,
            decreases src.len() - self.current,
        {
            proof { lemma_newlines_step(src, from, self.current as int); }
            self.advance();
        }
        if self.peek() == DOT && Self::is_digit(self.peek_next()) {
            let ghost d = self.current as int;
            proof { lemma_newlines_step(src, from, self.current as int); }
            self.advance();
            while Self::is_digit(self.peek())
                invariant
                    self.source@ == src,
                    src == old(self).source@,
                    from == old(self).current,
                    self.start == old(self).start,
                    self.line == old(self).line,
                    self.wf(),
                    from <= d,
                    d + 1 <= self.current,
                    digits_end(src, self.current as int) == digits_end(src, d + 1),
                    newlines(src, from, self.current as int) == 0,
                decreases src.len() - self.current,
            {
                proof { lemma_newlines_step(src, from, self.current as int); }
                self.advance();
            }
        }
        self.make_token(TokenType::TokenNumber)
    }

    /// Scans the rest of an identifier or keyword whose first byte was just read.
    fn identifier(&mut self) -> (t: Token)
        requires
            old(self).wf(),
            old(self).current == old(self).start + 1,
            is_alpha_byte(old(self).source@[old(self).start as int]),
        ensures
            final(self).wf(),
            final(self).source@ == old(self).source@,
            final(self).start == old(self).start,
            final(self).current >= old(self).current,
            (t.token_type, final(self).current as int) == token_at(old(self).source@, old(self).start as int),
            t.value@ == token_value(old(self).source@, old(self).start as int, final(self).current as int, t.token_type),
            t.length == t.value@.len(),
            t.line == final(self).line,
            final(self).line == line_after(old(self).line as int, newlines(old(self).source@, old(self).current as int, final(self).current as int)),
    {
        let ghost src = self.source@;
        let ghost from = self.current as int;
        while Self::is_alpha(self.peek()) || Self::is_digit(self.peek())
            invariant
                self.source@ == src,
                src == old(self).source@,
                from == old(self).current,
                self.start == old(self).start,
                self.line == old(self).line,
                self.wf(),
                from <= self.current,
                word_end(src, self.current as int) == word_end(src, from),
                newlines(src, from, self.current as int) == 0,
            decreases src.len() - self.current,
        {
            proof { lemma_newlines_step(src, from, self.current as int); }
            self.advance();
        }
        let token_type = self.word_kind();
        self.make_token(token_type)
    }

    /// Scans the next token: skips blanks and line comments, then reads the
    /// longest token that starts there. At the end of the source it returns
    /// an end-of-file token, and keeps doing so on later calls.
    pub fn scan_token(&mut self) -> (t: Token)
        requires
            old(self).wf(),
        ensures
            final(self).wf(),
            final(self).source_bytes() == old(self).source_bytes(),
            ({
                let src = old(self).source_bytes();
                let s = blank_end(src, old(self).position(), false);
                let tk = token_at(src, s);
                &&& t.token_type == tk.0
                &&& final(self).position() == tk.1
                &&& t.value@ == token_value(src, s, tk.1, tk.0)
                &&& t.length == t.value@.len()
                &&& final(self).line_number() == line_after(old(self).line_number(), newlines(
                    src,
                    old(self).position(),
                    tk.1,
                ))
                &&& t.line == final(self).line_number()
            }),
    {
        let ghost src = self.source@;
        let ghost from = self.current as int;
        self.skip_whitespace_and_comments();
        self.start = self.current;
        let ghost s = self.current as int;
        proof {
            lemma_blank_end_bound(src, from, false);
        }
        if self.is_at_end() {
            proof { lemma_newlines_split(src, from, s, s); }
            return self.make_token(TokenType::TokenEof);
        }
        let c = self.advance();
        proof {
            lemma_newlines_step(src, s, s);
            lemma_newlines_split(src, from, s, s + 1);
        }
        let t = match single_char(c) {
            Some(token_type) => self.make_token(token_type),
            None => if c == BANG || c == EQUAL || c == LESS || c == GREATER {
                let with_equal = self.match_next(EQUAL);
                if with_equal {
                    proof {
                        lemma_newlines_step(src, s, s + 1);
                        lemma_newlines_split(src, from, s, s + 2);
                    }
                }
                self.make_token(operator_kind(c, with_equal))
            } else if c == QUOTE {
                let t = self.string();
                proof { lemma_newlines_split(src, from, s + 1, self.current as int); }
                t
            } else if Self::is_digit(c) {
                let t = self.number();
                proof { lemma_newlines_split(src, from, s + 1, self.current as int); }
                t
            } else if Self::is_alpha(c) {
                let t = self.identifier();
                proof { lemma_newlines_split(src, from, s + 1, self.current as int); }
                t
            } else {
                self.error_token("Unknown character.")
            },
        };
        t
    }

    /// Whether `c` is a decimal digit.
    pub fn is_digit(c: u8) -> (r: bool)
        ensures
            r == is_digit_byte(c),
    {
        DIGIT_0 <= c && c <= DIGIT_9
    }

    /// Whether `c` is an ASCII letter or `_`.
    pub fn is_alpha(c: u8) -> (r: bool)
        ensures
            r == is_alpha_byte(c),
    {
        (LOWER_A <= c && c <= LOWER_Z) || (UPPER_A <= c && c <= UPPER_Z) || c == UNDERSCORE
    }
}

} // verus!
