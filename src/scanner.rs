use vstd::prelude::*;

verus! {

/// Category of a token.
#[derive(Debug, Clone, Copy, PartialEq, Eq, Structural)]
pub enum TokenType {
    // Single-character tokens
    LeftParen,
    RightParen,
    LeftBrace,
    RightBrace,
    Comma,
    Dot,
    Minus,
    Plus,
    Semicolon,
    Slash,
    Star,
    // One or two character tokens
    Bang,
    BangEqual,
    Equal,
    EqualEqual,
    Greater,
    GreaterEqual,
    Less,
    LessEqual,
    // Literals
    Identifier,
    String,
    Number,
    // Keywords
    And,
    Class,
    Else,
    False,
    For,
    Fun,
    If,
    Nil,
    Or,
    Print,
    Return,
    Super,
    This,
    True,
    Var,
    While,
    // Special tokens
    Error,
    Eof,
}

/// Mathematical picture of a token: positions count characters of the source.
pub struct Lexeme {
    pub kind: TokenType,
    pub start: int,
    pub length: int,
    pub line: int,
    pub message: Option<Seq<char>>,
}

/// A classified lexeme: a span of the source (start and length in characters),
/// the line it ends on, and a diagnostic message for error tokens.
pub struct Token {
    token_type: TokenType,
    start: usize,
    length: usize,
    line: usize,
    pub error: Option<String>,
}

impl View for Token {
    type V = Lexeme;

    closed spec fn view(&self) -> Lexeme {
        Lexeme {
            kind: self.token_type,
            start: self.start as int,
            length: self.length as int,
            line: self.line as int,
            message: match self.error {
                Some(m) => Some(m@),
                None => None,
            },
        }
    }
}

impl Token {
    pub fn get_token_type(&self) -> (r: TokenType)
        ensures
            r == self@.kind,
    {
        self.token_type
    }

    pub fn get_start(&self) -> (r: usize)
        ensures
            r == self@.start,
    {
        self.start
    }

    pub fn get_length(&self) -> (r: usize)
        ensures
            r == self@.length,
    {
        self.length
    }

    pub fn get_line(&self) -> (r: usize)
        ensures
            r == self@.line,
    {
        self.line
    }
}


/// Whitespace skipped between tokens.
pub open spec fn is_space(c: char) -> bool {
    c == ' ' || c == '\r' || c == '\t' || c == '\n'
}

/// An ASCII decimal digit.
pub open spec fn is_digit(c: char) -> bool {
    '0' <= c && c <= '9'
}

/// An ASCII letter.
pub open spec fn is_ascii_letter(c: char) -> bool {
    ('a' <= c && c <= 'z') || ('A' <= c && c <= 'Z')
}

/// Whether the character has Unicode's Alphabetic property.
pub uninterp spec fn alphabetic(c: char) -> bool;

/// Whether the character is Unicode alphabetic or numeric.
pub uninterp spec fn alphanumeric(c: char) -> bool;

/// A character that may begin an identifier: a letter in the Unicode sense.
pub open spec fn starts_identifier(c: char) -> bool {
    is_ascii_letter(c) || alphabetic(c)
}

/// A character that may continue an identifier: alphabetic or numeric.
pub open spec fn continues_identifier(c: char) -> bool {
    is_ascii_letter(c) || is_digit(c) || alphanumeric(c)
}

/// First position at or after `i` that does not hold whitespace.
pub open spec fn space_end(s: Seq<char>, i: int) -> int
    decreases s.len() - i,
{
    if 0 <= i < s.len() && is_space(s[i]) {
        space_end(s, i + 1)
    } else {
        i
    }
}

/// First position at or after `i` that does not hold a digit.
pub open spec fn digits_end(s: Seq<char>, i: int) -> int
    decreases s.len() - i,
{
    if 0 <= i < s.len() && is_digit(s[i]) {
        digits_end(s, i + 1)
    } else {
        i
    }
}

/// First position at or after `i` that cannot continue an identifier.
pub open spec fn identifier_end(s: Seq<char>, i: int) -> int
    decreases s.len() - i,
{
    if 0 <= i < s.len() && continues_identifier(s[i]) {
        identifier_end(s, i + 1)
    } else {
        i
    }
}

/// First position at or after `i` that holds a double quote, or the length.
pub open spec fn quote_end(s: Seq<char>, i: int) -> int
    decreases s.len() - i,
{
    if 0 <= i < s.len() && s[i] != '"' {
        quote_end(s, i + 1)
    } else {
        i
    }
}

/// Number of newline characters in `s[i..j]`.
pub open spec fn newlines(s: Seq<char>, i: int, j: int) -> int
    decreases j - i,
{
    if j <= i {
        0
    } else {
        newlines(s, i, j - 1) + if s[j - 1] == '\n' { 1int } else { 0int }
    }
}

/// The token category of a complete word: a keyword or an identifier.
pub open spec fn keyword_kind(w: Seq<char>) -> TokenType {
    if w == seq!['a', 'n', 'd'] {
        TokenType::And
    } else if w == seq!['c', 'l', 'a', 's', 's'] {
        TokenType::Class
    } else if w == seq!['e', 'l', 's', 'e'] {
        TokenType::Else
    } else if w == seq!['f', 'a', 'l', 's', 'e'] {
        TokenType::False
    } else if w == seq!['f', 'o', 'r'] {
        TokenType::For
    } else if w == seq!['f', 'u', 'n'] {
        TokenType::Fun
    } else if w == seq!['i', 'f'] {
        TokenType::If
    } else if w == seq!['n', 'i', 'l'] {
        TokenType::Nil
    } else if w == seq!['o', 'r'] {
        TokenType::Or
    } else if w == seq!['p', 'r', 'i', 'n', 't'] {
        TokenType::Print
    } else if w == seq!['r', 'e', 't', 'u', 'r', 'n'] {
        TokenType::Return
    } else if w == seq!['s', 'u', 'p', 'e', 'r'] {
        TokenType::Super
    } else if w == seq!['t', 'h', 'i', 's'] {
        TokenType::This
    } else if w == seq!['t', 'r', 'u', 'e'] {
        TokenType::True
    } else if w == seq!['v', 'a', 'r'] {
        TokenType::Var
    } else if w == seq!['w', 'h', 'i', 'l', 'e'] {
        TokenType::While
    } else {
        TokenType::Identifier
    }
}

/// Category of a token that is a single character on its own.
pub open spec fn single_kind(c: char) -> Option<TokenType> {
    if c == '(' {
        Some(TokenType::LeftParen)
    } else if c == ')' {
        Some(TokenType::RightParen)
    } else if c == '{' {
        Some(TokenType::LeftBrace)
    } else if c == '}' {
        Some(TokenType::RightBrace)
    } else if c == ';' {
        Some(TokenType::Semicolon)
    } else if c == ',' {
        Some(TokenType::Comma)
    } else if c == '.' {
        Some(TokenType::Dot)
    } else if c == '-' {
        Some(TokenType::Minus)
    } else if c == '+' {
        Some(TokenType::Plus)
    } else if c == '/' {
        Some(TokenType::Slash)
    } else if c == '*' {
        Some(TokenType::Star)
    } else {
        None
    }
}

/// Categories of an operator that may be followed by `=`: alone, and with `=`.
pub open spec fn operator_kinds(c: char) -> Option<(TokenType, TokenType)> {
    if c == '!' {
        Some((TokenType::Bang, TokenType::BangEqual))
    } else if c == '=' {
        Some((TokenType::Equal, TokenType::EqualEqual))
    } else if c == '<' {
        Some((TokenType::Less, TokenType::LessEqual))
    } else if c == '>' {
        Some((TokenType::Greater, TokenType::GreaterEqual))
    } else {
        None
    }
}

pub open spec fn plain_lexeme(kind: TokenType, start: int, end: int, line: int) -> Lexeme {
    Lexeme { kind, start, length: end - start, line, message: None }
}

pub open spec fn error_lexeme(message: Seq<char>, start: int, line: int) -> Lexeme {
    Lexeme { kind: TokenType::Error, start, length: message.len() as int, line, message: Some(message) }
}

pub open spec fn unterminated_message() -> Seq<char> {
    "Unterminated string"@
}

pub open spec fn unexpected_message() -> Seq<char> {
    "Unexpected character."@
}

/// End of a number literal whose first digit stands at `b`: the digits, and a
/// fraction only where the `.` is followed by a digit.
pub open spec fn number_end(s: Seq<char>, b: int) -> int {
    let d = digits_end(s, b + 1);
    if d + 1 < s.len() && s[d] == '.' && is_digit(s[d + 1]) {
        digits_end(s, d + 2)
    } else {
        d
    }
}

/// One step of the scanner on source `s` from cursor `cur` on line `line`:
/// the token found, and the cursor and line after it.
pub open spec fn lex(s: Seq<char>, cur: int, line: int) -> (Lexeme, int, int) {
    let b = space_end(s, cur);
    let ln = line + newlines(s, cur, b);
    if b >= s.len() {
        (plain_lexeme(TokenType::Eof, b, b, ln), b, ln)
    } else {
        let c = s[b];
        if single_kind(c) is Some {
            (plain_lexeme(single_kind(c)->0, b, b + 1, ln), b + 1, ln)
        } else if operator_kinds(c) is Some {
            let (alone, paired) = operator_kinds(c)->0;
            if b + 1 < s.len() && s[b + 1] == '=' {
                (plain_lexeme(paired, b, b + 2, ln), b + 2, ln)
            } else {
                (plain_lexeme(alone, b, b + 1, ln), b + 1, ln)
            }
        } else if c == '"' {
            let q = quote_end(s, b + 1);
            let ln2 = ln + newlines(s, b + 1, q);
            if q >= s.len() {
                (error_lexeme(unterminated_message(), b, ln2), q, ln2)
            } else {
                (plain_lexeme(TokenType::String, b, q + 1, ln2), q + 1, ln2)
            }
        } else if is_digit(c) {
            let e = number_end(s, b);
            (plain_lexeme(TokenType::Number, b, e, ln), e, ln)
        } else if starts_identifier(c) {
            let e = identifier_end(s, b + 1);
            (plain_lexeme(keyword_kind(s.subrange(b, e)), b, e, ln), e, ln)
        } else {
            (error_lexeme(unexpected_message(), b, ln), b + 1, ln)
        }
    }
}

/// Relies on char::is_alphabetic: whether `c` has the Alphabetic property.
#[verifier::external_body]
fn char_is_alphabetic(c: char) -> (r: bool)
    ensures
        r == alphabetic(c),
{
    c.is_alphabetic()
}

/// Relies on char::is_alphanumeric: whether `c` is alphabetic or numeric.
#[verifier::external_body]
fn char_is_alphanumeric(c: char) -> (r: bool)
    ensures
        r == alphanumeric(c),
{
    c.is_alphanumeric()
}

/// State of a scanner: the source characters, the cursor, the current line.
pub struct ScanState {
    pub source: Seq<char>,
    pub current: int,
    pub line: int,
}

/// Pull-based scanner over a source string.
pub struct Scanner<'a> {
    source: &'a str,
    chars: Vec<char>,
    start: usize,
    current: usize,
    line: usize,
}

impl<'a> View for Scanner<'a> {
    type V = ScanState;

    closed spec fn view(&self) -> ScanState {
        ScanState { source: self.chars@, current: self.current as int, line: self.line as int }
    }
}


/// `newlines` counts at most one per character.
pub proof fn lemma_newlines_bound(s: Seq<char>, i: int, j: int)
    requires
        i <= j,
    ensures
        0 <= newlines(s, i, j) <= j - i,
    decreases j - i,
{
    if i < j {
        lemma_newlines_bound(s, i, j - 1);
    }
}

impl<'a> Scanner<'a> {
    /// The scanner's own bookkeeping: characters of the source, cursor within
    /// them, and a line number no larger than one plus the characters read.
    pub closed spec fn wf(&self) -> bool {
        &&& self.chars@ == self.source@
        &&& self.chars@.len() < usize::MAX
        &&& self.start <= self.current <= self.chars@.len()
        &&& 1 <= self.line <= self.current + 1
    }

    /// A scanner at the beginning of `source`, on line 1.
    pub fn new(source: &'a str) -> (r: Scanner<'a>)
        requires
            source@.len() < usize::MAX,
        ensures
            r.wf(),
            r@ == (ScanState { source: source@, current: 0, line: 1 }),
    {
        let mut chars: Vec<char> = Vec::new();
        proof {
            broadcast use vstd::string::axiom_spec_iter;
        }
        for c in it: source.chars()
            invariant
                chars@ == it.seq().take(it.index() as int),
        {
            chars.push(c);
        }
        assert(chars@ =~= source@);
        Scanner { source, chars, start: 0, current: 0, line: 1 }
    }

    /// The text of the span of `len` characters from character `index`, cut
    /// short at the end of the source; empty where `index` lies past the end.
    pub fn get_token(&self, index: usize, len: usize) -> (r: &'a str)
        requires
            self.wf(),
        ensures
            index >= self@.source.len() ==> r@ == Seq::<char>::empty(),
            index < self@.source.len() ==> r@ == self@.source.subrange(
                index as int,
                if index + len < self@.source.len() { index + len } else { self@.source.len() as int },
            ),
    {
        let n = self.chars.len();
        if index >= n {
            proof {
                reveal_strlit("");
            }
            return "";
        }
        let end = if len < n - index { index + len } else { n };
        self.source.substring_char(index, end)
    }

    fn is_at_end(&self) -> (r: bool)
        requires
            self.wf(),
        ensures
            r == (self.current >= self.chars@.len()),
    {
        self.current >= self.chars.len()
    }

    fn peek(&self) -> (r: Option<char>)
        requires
            self.wf(),
        ensures
            r == if self.current < self.chars@.len() {
                Some(self.chars@[self.current as int])
            } else {
                None::<char>
            },
    {
        if self.current < self.chars.len() {
            Some(self.chars[self.current])
        } else {
            None
        }
    }

    fn peek_next(&self) -> (r: Option<char>)
        requires
            self.wf(),
        ensures
            r == if self.current + 1 < self.chars@.len() {
                Some(self.chars@[self.current + 1])
            } else {
                None::<char>
            },
    {
        if self.current + 1 < self.chars.len() {
            Some(self.chars[self.current + 1])
        } else {
            None
        }
    }

    fn advance(&mut self) -> (c: char)
        requires
            old(self).wf(),
            old(self).current < old(self).chars@.len(),
            old(self).line <= old(self).current + 1,
        ensures
            final(self).wf(),
            c == old(self).chars@[old(self).current as int],
            final(self).current == old(self).current + 1,
            final(self).start == old(self).start,
            final(self).line == old(self).line,
            final(self).chars@ == old(self).chars@,
            final(self).source == old(self).source,
    {
        let c = self.chars[self.current];
        self.current = self.current + 1;
        c
    }

    fn make_token(&self, token_type: TokenType) -> (r: Token)
        requires
            self.wf(),
        ensures
            r@ == plain_lexeme(token_type, self.start as int, self.current as int, self.line as int),
    {
        Token {
            token_type,
            start: self.start,
            length: self.current - self.start,
            line: self.line,
            error: None,
        }
    }

    fn error_token(&self, message: &str) -> (r: Token)
        requires
            self.wf(),
        ensures
            r@ == error_lexeme(message@, self.start as int, self.line as int),
    {
        let length = message.unicode_len();
        Token {
            token_type: TokenType::Error,
            start: self.start,
            length,
            line: self.line,
            error: Some(String::from_str(message)),
        }
    }

    /// Consumes the next character where it is `expected`.
    fn match_char(&mut self, expected: char) -> (r: bool)
        requires
            old(self).wf(),
        ensures
            final(self).wf(),
            r == (old(self).current < old(self).chars@.len()
                && old(self).chars@[old(self).current as int] == expected),
            final(self).current == old(self).current + if r { 1int } else { 0int },
            final(self).start == old(self).start,
            final(self).line == old(self).line,
            final(self).chars@ == old(self).chars@,
            final(self).source == old(self).source,
    {
        if self.is_at_end() {
            return false;
        }
        if self.chars[self.current] != expected {
            return false;
        }
        self.current = self.current + 1;
        true
    }

    /// Skips blanks and newlines, counting the newlines.
    fn skip_whitespace(&mut self)
        requires
            old(self).wf(),
        ensures
            final(self).wf(),
            final(self).current == space_end(old(self).chars@, old(self).current as int),
            final(self).line == old(self).line + newlines(
                old(self).chars@,
                old(self).current as int,
                final(self).current as int,
            ),
            final(self).start == old(self).start,
            final(self).chars@ == old(self).chars@,
            final(self).source == old(self).source,
    {
        let ghost s = self.chars@;
        let ghost c0 = self.current as int;
        let ghost l0 = self.line as int;
        loop
            invariant
                self.wf(),
                self.chars@ == s,
                self.source == old(self).source,
                self.start == old(self).start,
                c0 <= self.current,
                space_end(s, self.current as int) == space_end(s, c0),
                self.line == l0 + newlines(s, c0, self.current as int),
            ensures
                self.wf(),
                self.chars@ == s,
                self.source == old(self).source,
                self.start == old(self).start,
                self.current == space_end(s, c0),
                self.line == l0 + newlines(s, c0, self.current as int),
            decreases s.len() - self.current,
        {
            match self.peek() {
                Some(c) => {
                    if c == ' ' || c == '\r' || c == '\t' || c == '\n' {
                        self.advance();
                        proof {
                            lemma_newlines_bound(s, c0, self.current as int);
                        }
                        if c == '\n' {
                            self.line = self.line + 1;
                        }
                    } else {
                        break;
                    }
                },
                None => break,
            }
        }
    }

    /// Reads a string literal whose opening quote was just consumed.
    fn string(&mut self) -> (t: Token)
        requires
            old(self).wf(),
            old(self).current == old(self).start + 1,
        ensures
            final(self).wf(),
            ({
                let s = old(self).chars@;
                let q = quote_end(s, old(self).current as int);
                let ln = old(self).line + newlines(s, old(self).current as int, q);
                if q >= s.len() {
                    t@ == error_lexeme(unterminated_message(), old(self).start as int, ln)
                        && final(self).current == q && final(self).line == ln
                } else {
                    t@ == plain_lexeme(TokenType::String, old(self).start as int, q + 1, ln)
                        && final(self).current == q + 1 && final(self).line == ln
                }
            }),
            final(self).chars@ == old(self).chars@,
            final(self).source == old(self).source,
    {
        let ghost s = self.chars@;
        let ghost c0 = self.current as int;
        let ghost l0 = self.line as int;
        loop
            invariant
                self.wf(),
                self.chars@ == s,
                self.source == old(self).source,
                self.start == old(self).start,
                c0 <= self.current,
                quote_end(s, self.current as int) == quote_end(s, c0),
                self.line == l0 + newlines(s, c0, self.current as int),
            ensures
                self.wf(),
                self.chars@ == s,
                self.source == old(self).source,
                self.start == old(self).start,
                self.current == quote_end(s, c0),
                self.line == l0 + newlines(s, c0, self.current as int),
            decreases s.len() - self.current,
        {
            match self.peek() {
                Some(c) => {
                    if c == '"' {
                        break;
                    }
                    self.advance();
                    proof {
                        lemma_newlines_bound(s, c0, self.current as int);
                    }
                    if c == '\n' {
                        self.line = self.line + 1;
                    }
                },
                None => break,
            }
        }
        if self.is_at_end() {
            return self.error_token("Unterminated string");
        }
        self.advance();
        self.make_token(TokenType::String)
    }

    /// Consumes a run of ASCII digits.
    fn consume_digits(&mut self)
        requires
            old(self).wf(),
        ensures
            final(self).wf(),
            final(self).current == digits_end(old(self).chars@, old(self).current as int),
            final(self).line == old(self).line,
            final(self).start == old(self).start,
            final(self).chars@ == old(self).chars@,
            final(self).source == old(self).source,
    {
        let ghost s = self.chars@;
        let ghost c0 = self.current as int;
        loop
            invariant
                self.wf(),
                self.chars@ == s,
                self.source == old(self).source,
                self.start == old(self).start,
                self.line == old(self).line,
                c0 <= self.current,
                digits_end(s, self.current as int) == digits_end(s, c0),
            ensures
                self.wf(),
                self.chars@ == s,
                self.source == old(self).source,
                self.start == old(self).start,
                self.line == old(self).line,
                self.current == digits_end(s, c0),
            decreases s.len() - self.current,
        {
            match self.peek() {
                Some(c) => {
                    if is_digit_char(c) {
                        self.advance();
                    } else {
                        break;
                    }
                },
                None => break,
            }
        }
    }

    /// Reads a number literal whose first digit was just consumed.
    fn number(&mut self) -> (t: Token)
        requires
            old(self).wf(),
            old(self).current == old(self).start + 1,
        ensures
            final(self).wf(),
            final(self).current == number_end(old(self).chars@, old(self).start as int),
            final(self).line == old(self).line,
            t@ == plain_lexeme(
                TokenType::Number,
                old(self).start as int,
                final(self).current as int,
                old(self).line as int,
            ),
            final(self).chars@ == old(self).chars@,
            final(self).source == old(self).source,
    {
        self.consume_digits();
        match self.peek() {
            Some(c) => {
                if c == '.' {
                    match self.peek_next() {
                        Some(next) => {
                            if is_digit_char(next) {
                                self.advance();
                                self.consume_digits();
                            }
                        },
                        None => {},
                    }
                }
            },
            None => {},
        }
        self.make_token(TokenType::Number)
    }

    /// Reads an identifier or keyword whose first letter was just consumed.
    fn identifier(&mut self) -> (t: Token)
        requires
            old(self).wf(),
            old(self).current == old(self).start + 1,
        ensures
            final(self).wf(),
            final(self).current == identifier_end(old(self).chars@, old(self).current as int),
            final(self).line == old(self).line,
            t@ == plain_lexeme(
                keyword_kind(old(self).chars@.subrange(old(self).start as int, final(self).current as int)),
                old(self).start as int,
                final(self).current as int,
                old(self).line as int,
            ),
            final(self).chars@ == old(self).chars@,
            final(self).source == old(self).source,
    {
        let ghost s = self.chars@;
        let ghost c0 = self.current as int;
        loop
            invariant
                self.wf(),
                self.chars@ == s,
                self.source == old(self).source,
                self.start == old(self).start,
                self.line == old(self).line,
                c0 <= self.current,
                identifier_end(s, self.current as int) == identifier_end(s, c0),
            ensures
                self.wf(),
                self.chars@ == s,
                self.source == old(self).source,
                self.start == old(self).start,
                self.line == old(self).line,
                self.current == identifier_end(s, c0),
            decreases s.len() - self.current,
        {
            match self.peek() {
                Some(c) => {
                    if is_identifier_char(c) {
                        self.advance();
                    } else {
                        break;
                    }
                },
                None => break,
            }
        }
        let kind = self.identifier_type();
        self.make_token(kind)
    }

    /// Skips whitespace and reads the next token. At the end of the source it
    /// returns an `Eof` token, and keeps doing so on later calls. A NUL
    /// character is an ordinary character here, not an end of input. The
    /// operators `!=`, `==`, `<=` and `>=` are read as one token each.
    pub fn scan_token(&mut self) -> (t: Token)
        requires
            old(self).wf(),
        ensures
            final(self).wf(),
            final(self)@.source == old(self)@.source,
            (t@, final(self)@.current, final(self)@.line) == lex(
                old(self)@.source,
                old(self)@.current,
                old(self)@.line,
            ),
    {
        let ghost s = self.chars@;
        self.skip_whitespace();
        self.start = self.current;
        if self.is_at_end() {
            return self.make_token(TokenType::Eof);
        }
        let c = self.advance();
        if c == '(' {
            self.make_token(TokenType::LeftParen)
        } else if c == ')' {
            self.make_token(TokenType::RightParen)
        } else if c == '{' {
            self.make_token(TokenType::LeftBrace)
        } else if c == '}' {
            self.make_token(TokenType::RightBrace)
        } else if c == ';' {
            self.make_token(TokenType::Semicolon)
        } else if c == ',' {
            self.make_token(TokenType::Comma)
        } else if c == '.' {
            self.make_token(TokenType::Dot)
        } else if c == '-' {
            self.make_token(TokenType::Minus)
        } else if c == '+' {
            self.make_token(TokenType::Plus)
        } else if c == '/' {
            self.make_token(TokenType::Slash)
        } else if c == '*' {
            self.make_token(TokenType::Star)
        } else if c == '!' {
            let kind = if self.match_char('=') { TokenType::BangEqual } else { TokenType::Bang };
            self.make_token(kind)
        } else if c == '=' {
            let kind = if self.match_char('=') { TokenType::EqualEqual } else { TokenType::Equal };
            self.make_token(kind)
        } else if c == '<' {
            let kind = if self.match_char('=') { TokenType::LessEqual } else { TokenType::Less };
            self.make_token(kind)
        } else if c == '>' {
            let kind = if self.match_char('=') { TokenType::GreaterEqual } else { TokenType::Greater };
            self.make_token(kind)
        } else if c == '"' {
            self.string()
        } else if is_digit_char(c) {
            self.number()
        } else if is_letter_char(c) {
            self.identifier()
        } else {
            self.error_token("Unexpected character.")
        }
    }

    /// Whether the characters from `start` to the cursor spell `word`.
    fn lexeme_is(&self, word: &[char]) -> (r: bool)
        requires
            self.wf(),
        ensures
            r == (self.chars@.subrange(self.start as int, self.current as int) == word@),
    {
        let ghost lex = self.chars@.subrange(self.start as int, self.current as int);
        if self.current - self.start != word.len() {
            return false;
        }
        let mut i: usize = 0;
        while i < word.len()
            invariant
                self.wf(),
                lex == self.chars@.subrange(self.start as int, self.current as int),
                lex.len() == word@.len(),
                i <= word@.len(),
                forall|k: int| 0 <= k < i ==> lex[k] == word@[k],
            decreases word.len() - i,
        {
            if self.chars[self.start + i] != word[i] {
                return false;
            }
            i = i + 1;
        }
        assert(lex =~= word@);
        true
    }

    /// Category of the word from `start` to the cursor: a keyword or an identifier.
    fn identifier_type(&self) -> (r: TokenType)
        requires
            self.wf(),
        ensures
            r == keyword_kind(self.chars@.subrange(self.start as int, self.current as int)),
    {
        if self.lexeme_is(['a', 'n', 'd'].as_slice()) {
            TokenType::And
        } else if self.lexeme_is(['c', 'l', 'a', 's', 's'].as_slice()) {
            TokenType::Class
        } else if self.lexeme_is(['e', 'l', 's', 'e'].as_slice()) {
            TokenType::Else
        } else if self.lexeme_is(['f', 'a', 'l', 's', 'e'].as_slice()) {
            TokenType::False
        } else if self.lexeme_is(['f', 'o', 'r'].as_slice()) {
            TokenType::For
        } else if self.lexeme_is(['f', 'u', 'n'].as_slice()) {
            TokenType::Fun
        } else if self.lexeme_is(['i', 'f'].as_slice()) {
            TokenType::If
        } else if self.lexeme_is(['n', 'i', 'l'].as_slice()) {
            TokenType::Nil
        } else if self.lexeme_is(['o', 'r'].as_slice()) {
            TokenType::Or
        } else if self.lexeme_is(['p', 'r', 'i', 'n', 't'].as_slice()) {
            TokenType::Print
        } else if self.lexeme_is(['r', 'e', 't', 'u', 'r', 'n'].as_slice()) {
            TokenType::Return
        } else if self.lexeme_is(['s', 'u', 'p', 'e', 'r'].as_slice()) {
            TokenType::Super
        } else if self.lexeme_is(['t', 'h', 'i', 's'].as_slice()) {
            TokenType::This
        } else if self.lexeme_is(['t', 'r', 'u', 'e'].as_slice()) {
            TokenType::True
        } else if self.lexeme_is(['v', 'a', 'r'].as_slice()) {
            TokenType::Var
        } else if self.lexeme_is(['w', 'h', 'i', 'l', 'e'].as_slice()) {
            TokenType::While
        } else {
            TokenType::Identifier
        }
    }
}

fn is_digit_char(c: char) -> (r: bool)
    ensures
        r == is_digit(c),
{
    '0' <= c && c <= '9'
}

fn is_letter_char(c: char) -> (r: bool)
    ensures
        r == starts_identifier(c),
{
    ('a' <= c && c <= 'z') || ('A' <= c && c <= 'Z') || char_is_alphabetic(c)
}

fn is_identifier_char(c: char) -> (r: bool)
    ensures
        r == continues_identifier(c),
{
    ('a' <= c && c <= 'z') || ('A' <= c && c <= 'Z') || is_digit_char(c) || char_is_alphanumeric(c)
}

/// A run of whitespace ends at the first other character or at the end.
proof fn lemma_space_end(s: Seq<char>, i: int, j: int)
    requires
        0 <= i <= j <= s.len(),
        forall|k: int| i <= k < j ==> is_space(#[trigger] s[k]),
        j == s.len() || !is_space(s[j]),
    ensures
        space_end(s, i) == j,
    decreases j - i,
{
    if i < j {
        lemma_space_end(s, i + 1, j);
    }
}

/// A run of digits ends at the first other character or at the end.
proof fn lemma_digits_end(s: Seq<char>, i: int, j: int)
    requires
        0 <= i <= j <= s.len(),
        forall|k: int| i <= k < j ==> is_digit(#[trigger] s[k]),
        j == s.len() || !is_digit(s[j]),
    ensures
        digits_end(s, i) == j,
    decreases j - i,
{
    if i < j {
        lemma_digits_end(s, i + 1, j);
    }
}

/// An identifier runs to the end of a source made of identifier characters.
proof fn lemma_identifier_end(s: Seq<char>, i: int)
    requires
        0 <= i <= s.len(),
        forall|k: int| i <= k < s.len() ==> continues_identifier(#[trigger] s[k]),
    ensures
        identifier_end(s, i) == s.len(),
    decreases s.len() - i,
{
    if i < s.len() {
        lemma_identifier_end(s, i + 1);
    }
}

/// On a source of whitespace alone, the first token is the end of input, and
/// its line is one plus the number of newlines in the source.
pub proof fn lemma_blank_source_ends(s: Seq<char>)
    requires
        forall|k: int| 0 <= k < s.len() ==> is_space(#[trigger] s[k]),
    ensures
        lex(s, 0, 1).0.kind == TokenType::Eof,
        lex(s, 0, 1).0.line == 1 + newlines(s, 0, s.len() as int),
{
    lemma_space_end(s, 0, s.len() as int);
}

/// A literal of digits, with a fraction of digits or without, is scanned as
/// one `Number` token that spans all of it.
pub proof fn lemma_number_spans_literal(whole: Seq<char>, fraction: Seq<char>)
    requires
        whole.len() > 0,
        forall|k: int| 0 <= k < whole.len() ==> is_digit(#[trigger] whole[k]),
        forall|k: int| 0 <= k < fraction.len() ==> is_digit(#[trigger] fraction[k]),
    ensures
        ({
            let s = if fraction.len() == 0 { whole } else { whole + seq!['.'] + fraction };
            lex(s, 0, 1).0 == plain_lexeme(TokenType::Number, 0, s.len() as int, 1)
        }),
{
    let s = if fraction.len() == 0 { whole } else { whole + seq!['.'] + fraction };
    let n = whole.len() as int;
    lemma_space_end(s, 0, 0);
    assert(newlines(s, 0, 0) == 0);
    if fraction.len() == 0 {
        lemma_digits_end(s, 1, n);
    } else {
        assert(s[n] == '.');
        assert(!is_digit(s[n]));
        lemma_digits_end(s, 1, n);
        assert(s[n + 1] == fraction[0]);
        assert forall|k: int| n + 2 <= k < s.len() implies is_digit(#[trigger] s[k]) by {
            assert(s[k] == fraction[k - n - 1]);
        }
        lemma_digits_end(s, n + 2, s.len() as int);
    }
}

/// A `.` after the digits of a number, with no digit after it, is left out of
/// the `Number` token.
pub proof fn lemma_number_leaves_trailing_dot(whole: Seq<char>)
    requires
        whole.len() > 0,
        forall|k: int| 0 <= k < whole.len() ==> is_digit(#[trigger] whole[k]),
    ensures
        lex(whole.push('.'), 0, 1).0 == plain_lexeme(TokenType::Number, 0, whole.len() as int, 1),
        lex(whole.push('.'), 0, 1).1 == whole.len(),
{
    let s = whole.push('.');
    let n = whole.len() as int;
    lemma_space_end(s, 0, 0);
    assert(newlines(s, 0, 0) == 0);
    assert(s[n] == '.');
    lemma_digits_end(s, 1, n);
}

/// Characters that the scanner reads before it tries a letter: whitespace,
/// punctuation, operators, the quote and digits.
pub open spec fn is_reserved_char(c: char) -> bool {
    is_space(c) || single_kind(c) is Some || operator_kinds(c) is Some || c == '"' || is_digit(c)
}

/// A word that begins with a letter and goes on with letters or digits is
/// scanned as one token over all of it, whose category is that of the
/// keyword it spells, or `Identifier` where it spells none.
pub proof fn lemma_word_category(w: Seq<char>)
    requires
        w.len() > 0,
        starts_identifier(w[0]),
        !is_reserved_char(w[0]),
        forall|k: int| 0 <= k < w.len() ==> continues_identifier(#[trigger] w[k]),
    ensures
        lex(w, 0, 1).0 == plain_lexeme(keyword_kind(w), 0, w.len() as int, 1),
{
    lemma_space_end(w, 0, 0);
    assert(newlines(w, 0, 0) == 0);
    lemma_identifier_end(w, 1);
    assert(w.subrange(0, w.len() as int) =~= w);
}

/// Each keyword of the table, scanned on its own, yields its own category.
pub proof fn lemma_keywords_scanned()
    ensures
        lex(seq!['a', 'n', 'd'], 0, 1).0.kind == TokenType::And,
        lex(seq!['c', 'l', 'a', 's', 's'], 0, 1).0.kind == TokenType::Class,
        lex(seq!['e', 'l', 's', 'e'], 0, 1).0.kind == TokenType::Else,
        lex(seq!['f', 'a', 'l', 's', 'e'], 0, 1).0.kind == TokenType::False,
        lex(seq!['f', 'o', 'r'], 0, 1).0.kind == TokenType::For,
        lex(seq!['f', 'u', 'n'], 0, 1).0.kind == TokenType::Fun,
        lex(seq!['i', 'f'], 0, 1).0.kind == TokenType::If,
        lex(seq!['n', 'i', 'l'], 0, 1).0.kind == TokenType::Nil,
        lex(seq!['o', 'r'], 0, 1).0.kind == TokenType::Or,
        lex(seq!['p', 'r', 'i', 'n', 't'], 0, 1).0.kind == TokenType::Print,
        lex(seq!['r', 'e', 't', 'u', 'r', 'n'], 0, 1).0.kind == TokenType::Return,
        lex(seq!['s', 'u', 'p', 'e', 'r'], 0, 1).0.kind == TokenType::Super,
        lex(seq!['t', 'h', 'i', 's'], 0, 1).0.kind == TokenType::This,
        lex(seq!['t', 'r', 'u', 'e'], 0, 1).0.kind == TokenType::True,
        lex(seq!['v', 'a', 'r'], 0, 1).0.kind == TokenType::Var,
        lex(seq!['w', 'h', 'i', 'l', 'e'], 0, 1).0.kind == TokenType::While,
{
    lemma_letters_word(seq!['a', 'n', 'd']);
    lemma_letters_word(seq!['c', 'l', 'a', 's', 's']);
    lemma_letters_word(seq!['e', 'l', 's', 'e']);
    lemma_letters_word(seq!['f', 'a', 'l', 's', 'e']);
    lemma_letters_word(seq!['f', 'o', 'r']);
    lemma_letters_word(seq!['f', 'u', 'n']);
    lemma_letters_word(seq!['i', 'f']);
    lemma_letters_word(seq!['n', 'i', 'l']);
    lemma_letters_word(seq!['o', 'r']);
    lemma_letters_word(seq!['p', 'r', 'i', 'n', 't']);
    lemma_letters_word(seq!['r', 'e', 't', 'u', 'r', 'n']);
    lemma_letters_word(seq!['s', 'u', 'p', 'e', 'r']);
    lemma_letters_word(seq!['t', 'h', 'i', 's']);
    lemma_letters_word(seq!['t', 'r', 'u', 'e']);
    lemma_letters_word(seq!['v', 'a', 'r']);
    lemma_letters_word(seq!['w', 'h', 'i', 'l', 'e']);
}

/// A nonempty word of lowercase ASCII letters is scanned by its category.
proof fn lemma_letters_word(w: Seq<char>)
    requires
        w.len() > 0,
        forall|k: int| 0 <= k < w.len() ==> 'a' <= #[trigger] w[k] && w[k] <= 'z',
    ensures
        lex(w, 0, 1).0.kind == keyword_kind(w),
{
    lemma_word_category(w);
}

proof fn lemma_space_end_bound(s: Seq<char>, i: int)
    requires
        0 <= i <= s.len(),
    ensures
        i <= space_end(s, i) <= s.len(),
    decreases s.len() - i,
{
    if i < s.len() {
        lemma_space_end_bound(s, i + 1);
    }
}

proof fn lemma_digits_end_bound(s: Seq<char>, i: int)
    requires
        0 <= i <= s.len(),
    ensures
        i <= digits_end(s, i) <= s.len(),
    decreases s.len() - i,
{
    if i < s.len() {
        lemma_digits_end_bound(s, i + 1);
    }
}

proof fn lemma_identifier_end_bound(s: Seq<char>, i: int)
    requires
        0 <= i <= s.len(),
    ensures
        i <= identifier_end(s, i) <= s.len(),
    decreases s.len() - i,
{
    if i < s.len() {
        lemma_identifier_end_bound(s, i + 1);
    }
}

proof fn lemma_quote_end_bound(s: Seq<char>, i: int)
    requires
        0 <= i <= s.len(),
    ensures
        i <= quote_end(s, i) <= s.len(),
    decreases s.len() - i,
{
    if i < s.len() {
        lemma_quote_end_bound(s, i + 1);
    }
}

/// Every token but the end of input moves the cursor forward, and the cursor
/// never passes the end of the source.
pub proof fn lemma_lex_advances(s: Seq<char>, cur: int, line: int)
    requires
        0 <= cur <= s.len(),
    ensures
        cur <= lex(s, cur, line).1 <= s.len(),
        lex(s, cur, line).0.kind != TokenType::Eof ==> cur < lex(s, cur, line).1,
{
    lemma_space_end_bound(s, cur);
    let b = space_end(s, cur);
    if b < s.len() {
        lemma_quote_end_bound(s, b + 1);
        lemma_digits_end_bound(s, b + 1);
        lemma_identifier_end_bound(s, b + 1);
        let d = digits_end(s, b + 1);
        if d + 1 < s.len() {
            lemma_digits_end_bound(s, d + 2);
        }
    }
}

} // verus!
