//! Splitting source text into tokens.
use crate::text::{
    byte_offset, lemma_byte_offset_is_boundary, lemma_byte_offset_monotonic,
    lemma_byte_offset_step, lemma_encode_subrange, len_utf8, to_chars,
};
use crate::unicode::{alphabetic, char_is_alphabetic, char_is_whitespace, whitespace};
use vstd::prelude::*;
use vstd::string::*;
use vstd::utf8::*;

verus! {

/// The kinds of token.
#[derive(Clone, Copy, Debug, PartialEq, Eq, Structural)]
pub enum TokenType {
    Dot,
    False,
    LeftParen,
    Number,
    RightParen,
    SingleQuote,
    Symbol,
    True,
    WhiteSpace,
    /// A character literal such as `#\a` or `#\newline`.
    Char,
    /// A string literal, quotes included.
    String,
    /// The opening `#(` of a vector literal.
    VectorOpen,
}

/// A token: its kind and the bytes `span.0 .. span.1` of the text it covers.
#[derive(Clone, Copy, Debug, PartialEq, Eq)]
pub struct Token {
    pub span: (usize, usize),
    pub token_type: TokenType,
}

/// Why a text could not be split into tokens: the byte offset of the
/// character no token can start with, or of the token that the end of the
/// text cuts short.
#[derive(Clone, Copy, Debug, PartialEq, Eq)]
pub struct LexError {
    pub offset: usize,
}

/// A token in terms of character positions: it covers `chars[start..end]`.
pub struct Lexeme {
    pub kind: TokenType,
    pub start: int,
    pub end: int,
}

pub open spec fn digit(c: char) -> bool {
    '0' <= c <= '9'
}

pub open spec fn initial_number(c: char) -> bool {
    digit(c) || c == '+' || c == '-'
}

pub open spec fn subsequent_number(c: char) -> bool {
    digit(c) || c == '.'
}

pub open spec fn initial_identifier(c: char) -> bool {
    alphabetic(c) || c == '!' || c == '$' || c == '%' || c == '&' || c == '*' || c == '/' || c
        == ':' || c == '<' || c == '=' || c == '>' || c == '?' || c == '^' || c == '_' || c == '~'
}

pub open spec fn special_subsequent(c: char) -> bool {
    c == '+' || c == '-' || c == '.' || c == '@'
}

pub open spec fn subsequent_identifier(c: char) -> bool {
    initial_identifier(c) || digit(c) || special_subsequent(c)
}

/// The letters that may follow `#` to open a number: radix and exactness.
/// A number needs at least one more character behind the letter.
pub open spec fn number_prefix(c: char) -> bool {
    c == 'x' || c == 'e' || c == 'i' || c == 'b' || c == 'o' || c == 'd'
}

/// Whether `c` extends a token of the given kind that has already begun.
pub open spec fn continues(kind: TokenType, c: char) -> bool {
    match kind {
        TokenType::Symbol => subsequent_identifier(c),
        TokenType::Number => subsequent_number(c),
        TokenType::Char => alphabetic(c) || digit(c),
        _ => false,
    }
}

/// End of the longest run of characters from `pos` on that all extend a
/// token of the given kind.
pub open spec fn run_end(chars: Seq<char>, pos: int, kind: TokenType) -> int
    decreases chars.len() - pos,
{
    if 0 <= pos < chars.len() && continues(kind, chars[pos]) {
        run_end(chars, pos + 1, kind)
    } else {
        pos
    }
}

/// End of the string literal whose body starts at `pos`, just behind the
/// closing quote; a backslash takes the next character with it. `None` when
/// the text ends first.
pub open spec fn string_end(chars: Seq<char>, pos: int) -> Option<int>
    decreases chars.len() - pos,
{
    if pos < 0 || pos >= chars.len() {
        None
    } else if chars[pos] == '"' {
        Some(pos + 1)
    } else if chars[pos] == '\\' {
        if pos + 1 < chars.len() {
            string_end(chars, pos + 2)
        } else {
            None
        }
    } else {
        string_end(chars, pos + 1)
    }
}

/// What the lexer does at one position of the text.
pub enum Step {
    /// A token of this kind starts here and ends at the given position.
    Token(TokenType, int),
    /// White space up to the given position.
    Skip(int),
    /// No token can start here.
    Stop,
}

/// What follows a `#` at `pos`.
pub open spec fn hash_step(chars: Seq<char>, pos: int) -> Step {
    if pos + 1 >= chars.len() {
        Step::Stop
    } else {
        let d = chars[pos + 1];
        if d == 't' {
            Step::Token(TokenType::True, pos + 2)
        } else if d == 'f' {
            Step::Token(TokenType::False, pos + 2)
        } else if d == '(' {
            Step::Token(TokenType::VectorOpen, pos + 2)
        } else if d == '\\' {
            if pos + 2 < chars.len() {
                Step::Token(TokenType::Char, run_end(chars, pos + 3, TokenType::Char))
            } else {
                Step::Stop
            }
        } else if number_prefix(d) && run_end(chars, pos + 2, TokenType::Symbol) > pos + 2 {
            Step::Token(TokenType::Number, run_end(chars, pos + 2, TokenType::Symbol))
        } else {
            Step::Stop
        }
    }
}

/// The step at `pos`, decided by the character there.
pub open spec fn step(chars: Seq<char>, pos: int) -> Step
    recommends
        0 <= pos < chars.len(),
{
    let c = chars[pos];
    if c == '(' {
        Step::Token(TokenType::LeftParen, pos + 1)
    } else if c == ')' {
        Step::Token(TokenType::RightParen, pos + 1)
    } else if c == '\'' {
        Step::Token(TokenType::SingleQuote, pos + 1)
    } else if c == '.' {
        Step::Token(TokenType::Dot, pos + 1)
    } else if c == '#' {
        hash_step(chars, pos)
    } else if c == '"' {
        match string_end(chars, pos + 1) {
            Some(end) => Step::Token(TokenType::String, end),
            None => Step::Stop,
        }
    } else if initial_identifier(c) {
        Step::Token(TokenType::Symbol, run_end(chars, pos + 1, TokenType::Symbol))
    } else if initial_number(c) {
        Step::Token(TokenType::Number, run_end(chars, pos + 1, TokenType::Number))
    } else if whitespace(c) {
        Step::Skip(pos + 1)
    } else {
        Step::Stop
    }
}

/// Where a step leads: behind the token or the white space. A step that
/// stops leads nowhere.
pub open spec fn step_end(s: Step) -> int {
    match s {
        Step::Token(_, end) => end,
        Step::Skip(end) => end,
        Step::Stop => 0,
    }
}

/// The tokens of `chars` from `pos` on, or the position where lexing stops.
pub open spec fn lexemes(chars: Seq<char>, pos: int) -> Result<Seq<Lexeme>, int>
    decreases chars.len() - pos,
{
    if pos < 0 || pos >= chars.len() {
        Ok(Seq::empty())
    } else {
        let s = step(chars, pos);
        if step_end(s) <= pos || step_end(s) > chars.len() {
            Err(pos)
        } else {
            match lexemes(chars, step_end(s)) {
                Err(at) => Err(at),
                Ok(rest) => match s {
                    Step::Token(kind, end) => Ok(
                        seq![Lexeme { kind, start: pos, end }] + rest,
                    ),
                    _ => Ok(rest),
                },
            }
        }
    }
}

/// The token that a lexeme of `chars` becomes: the same kind, with the
/// character positions turned into byte offsets.
pub open spec fn token_of(chars: Seq<char>, l: Lexeme) -> Token {
    Token {
        span: (byte_offset(chars, l.start) as usize, byte_offset(chars, l.end) as usize),
        token_type: l.kind,
    }
}

/// The tokens of `chars`, or the error that names where lexing stops.
pub open spec fn lex(chars: Seq<char>) -> Result<Seq<Token>, LexError> {
    match lexemes(chars, 0) {
        Ok(ls) => Ok(ls.map_values(|l: Lexeme| token_of(chars, l))),
        Err(at) => Err(LexError { offset: byte_offset(chars, at) as usize }),
    }
}

/// Whether `span` is a span of whole characters of a text with these bytes.
pub open spec fn span_in(bytes: Seq<u8>, span: (usize, usize)) -> bool {
    &&& span.0 <= span.1 <= bytes.len()
    &&& is_char_boundary(bytes, span.0 as int)
    &&& is_char_boundary(bytes, span.1 as int)
}

impl Token {
    pub fn new(span: (usize, usize), token_type: TokenType) -> (t: Token)
        ensures
            t.span == span,
            t.token_type == token_type,
    {
        Token { span, token_type }
    }

    /// The part of `text` that the token covers.
    pub fn span_text<'a, 'b>(&'a self, text: &'b str) -> (part: &'b str)
        requires
            span_in(text.spec_bytes(), self.span),
        ensures
            part.spec_bytes() == text.spec_bytes().subrange(
                self.span.0 as int,
                self.span.1 as int,
            ),
    {
        proof {
            encode_utf8_valid_utf8(text@);
            valid_utf8_split(text.spec_bytes(), self.span.1 as int);
        }
        let (head, _) = text.split_at(self.span.1);
        proof {
            let bytes = text.spec_bytes();
            let cut = bytes.subrange(0, self.span.1 as int);
            assert(head.spec_bytes() =~= cut);
            lemma_boundary_in_prefix(bytes, self.span.0 as int, self.span.1 as int);
        }
        let (_, part) = head.split_at(self.span.0);
        assert(part.spec_bytes() =~= text.spec_bytes().subrange(
            self.span.0 as int,
            self.span.1 as int,
        ));
        part
    }
}

/// A place in a text: the index of a character and the byte offset at which
/// that character starts.
#[derive(Clone, Copy, Debug)]
pub struct Cursor {
    pub pos: usize,
    pub offset: usize,
}

impl Cursor {
    /// The cursor points into `chars`, or just behind it, and its byte offset
    /// is that of its character position.
    pub open spec fn wf(self, chars: Seq<char>) -> bool {
        &&& self.pos <= chars.len()
        &&& self.offset == byte_offset(chars, self.pos as int)
        &&& encode_utf8(chars).len() <= usize::MAX
    }
}

pub fn is_digit(c: char) -> (b: bool)
    ensures
        b == digit(c),
{
    '0' <= c && c <= '9'
}

pub fn is_initial_number(c: char) -> (b: bool)
    ensures
        b == initial_number(c),
{
    is_digit(c) || c == '+' || c == '-'
}

pub fn is_subsequent_number(c: char) -> (b: bool)
    ensures
        b == subsequent_number(c),
{
    is_digit(c) || c == '.'
}

pub fn is_initial_identifier(c: char) -> (b: bool)
    ensures
        b == initial_identifier(c),
{
    char_is_alphabetic(c) || c == '!' || c == '$' || c == '%' || c == '&' || c == '*' || c == '/'
        || c == ':' || c == '<' || c == '=' || c == '>' || c == '?' || c == '^' || c == '_' || c
        == '~'
}

pub fn is_special_subsequent(c: char) -> (b: bool)
    ensures
        b == special_subsequent(c),
{
    c == '+' || c == '-' || c == '.' || c == '@'
}

pub fn is_subsequent_identifier(c: char) -> (b: bool)
    ensures
        b == subsequent_identifier(c),
{
    is_initial_identifier(c) || is_digit(c) || is_special_subsequent(c)
}

pub fn is_number_prefix(c: char) -> (b: bool)
    ensures
        b == number_prefix(c),
{
    c == 'x' || c == 'e' || c == 'i' || c == 'b' || c == 'o' || c == 'd'
}

/// Whether `c` extends a token of the given kind.
pub fn is_continuation(kind: TokenType, c: char) -> (b: bool)
    ensures
        b == continues(kind, c),
{
    match kind {
        TokenType::Symbol => is_subsequent_identifier(c),
        TokenType::Number => is_subsequent_number(c),
        TokenType::Char => char_is_alphabetic(c) || is_digit(c),
        _ => false,
    }
}

/// A run never ends before it starts nor behind the text.
pub proof fn lemma_run_end_bounds(chars: Seq<char>, pos: int, kind: TokenType)
    requires
        0 <= pos <= chars.len(),
    ensures
        pos <= run_end(chars, pos, kind) <= chars.len(),
    decreases chars.len() - pos,
{
    if pos < chars.len() && continues(kind, chars[pos]) {
        lemma_run_end_bounds(chars, pos + 1, kind);
    }
}

/// A string literal ends behind its body and within the text.
pub proof fn lemma_string_end_bounds(chars: Seq<char>, pos: int)
    requires
        0 <= pos,
    ensures
        string_end(chars, pos) matches Some(end) ==> pos < end <= chars.len(),
    decreases chars.len() - pos,
{
    if pos < chars.len() && chars[pos] != '"' {
        if chars[pos] == '\\' {
            if pos + 1 < chars.len() {
                lemma_string_end_bounds(chars, pos + 2);
            }
        } else {
            lemma_string_end_bounds(chars, pos + 1);
        }
    }
}

/// Every step but `Stop` leads forward and stays within the text, so
/// [`lexemes`] fails exactly where the step is `Stop`.
pub proof fn lemma_step_advances(chars: Seq<char>, pos: int)
    requires
        0 <= pos < chars.len(),
    ensures
        !(step(chars, pos) is Stop) ==> pos < step_end(step(chars, pos)) <= chars.len(),
{
    lemma_run_end_bounds(chars, pos + 1, TokenType::Symbol);
    lemma_run_end_bounds(chars, pos + 1, TokenType::Number);
    lemma_string_end_bounds(chars, pos + 1);
    if pos + 2 <= chars.len() {
        lemma_run_end_bounds(chars, pos + 2, TokenType::Symbol);
    }
    if pos + 3 <= chars.len() {
        lemma_run_end_bounds(chars, pos + 3, TokenType::Char);
    }
}

/// Moves the cursor over one character.
pub fn advance(chars: &Vec<char>, cur: &mut Cursor)
    requires
        old(cur).wf(chars@),
        old(cur).pos < chars.len(),
    ensures
        final(cur).wf(chars@),
        final(cur).pos == old(cur).pos + 1,
{
    proof {
        lemma_byte_offset_step(chars@, cur.pos as int);
        lemma_byte_offset_monotonic(chars@, cur.pos as int + 1, chars@.len() as int);
    }
    let width = len_utf8(chars[cur.pos]);
    cur.offset = cur.offset + width;
    cur.pos = cur.pos + 1;
}

/// Moves the cursor to the end of the run of characters that extend a token
/// of the given kind.
pub fn scan_run(chars: &Vec<char>, cur: &mut Cursor, kind: TokenType)
    requires
        old(cur).wf(chars@),
    ensures
        final(cur).wf(chars@),
        final(cur).pos == run_end(chars@, old(cur).pos as int, kind),
{
    while cur.pos < chars.len() && is_continuation(kind, chars[cur.pos])
        invariant
            cur.wf(chars@),
            run_end(chars@, cur.pos as int, kind) == run_end(chars@, old(cur).pos as int, kind),
        decreases chars.len() - cur.pos,
    {
        advance(chars, cur);
    }
}

/// Scans the symbol that starts at the cursor: its first character, then
/// all that may follow in an identifier.
pub fn scan_symbol(chars: &Vec<char>, cur: &mut Cursor) -> (t: Token)
    requires
        old(cur).wf(chars@),
        old(cur).pos < chars.len(),
    ensures
        final(cur).wf(chars@),
        final(cur).pos == run_end(chars@, old(cur).pos + 1, TokenType::Symbol),
        t == token_of(
            chars@,
            Lexeme { kind: TokenType::Symbol, start: old(cur).pos as int, end: final(cur).pos as int },
        ),
{
    let start = cur.offset;
    advance(chars, cur);
    scan_run(chars, cur, TokenType::Symbol);
    Token::new((start, cur.offset), TokenType::Symbol)
}

/// Scans the number that starts at the cursor: its first character, then
/// digits and dots.
pub fn scan_number(chars: &Vec<char>, cur: &mut Cursor) -> (t: Token)
    requires
        old(cur).wf(chars@),
        old(cur).pos < chars.len(),
    ensures
        final(cur).wf(chars@),
        final(cur).pos == run_end(chars@, old(cur).pos + 1, TokenType::Number),
        t == token_of(
            chars@,
            Lexeme { kind: TokenType::Number, start: old(cur).pos as int, end: final(cur).pos as int },
        ),
{
    let start = cur.offset;
    advance(chars, cur);
    scan_run(chars, cur, TokenType::Number);
    Token::new((start, cur.offset), TokenType::Number)
}

/// Moves the cursor from the body of a string literal to just behind its
/// closing quote; `false`, with the cursor somewhere in the body, when the
/// text ends first.
pub fn scan_string(chars: &Vec<char>, cur: &mut Cursor) -> (closed: bool)
    requires
        old(cur).wf(chars@),
    ensures
        final(cur).wf(chars@),
        closed == string_end(chars@, old(cur).pos as int).is_some(),
        closed ==> string_end(chars@, old(cur).pos as int) == Some(final(cur).pos as int),
{
    loop
        invariant
            cur.wf(chars@),
            string_end(chars@, cur.pos as int) == string_end(chars@, old(cur).pos as int),
        decreases chars.len() - cur.pos,
    {
        if cur.pos >= chars.len() {
            return false;
        }
        let c = chars[cur.pos];
        advance(chars, cur);
        if c == '"' {
            return true;
        }
        if c == '\\' {
            if cur.pos >= chars.len() {
                return false;
            }
            advance(chars, cur);
        }
    }
}

/// What the lexer found at one position.
#[derive(Clone, Copy, Debug)]
pub enum Scanned {
    Token(Token),
    Skipped,
    Stopped,
}

/// The token of the given kind from the byte offset `start` to the cursor.
fn token_to(chars: &Vec<char>, start: Cursor, cur: &Cursor, kind: TokenType) -> (r: Scanned)
    requires
        start.wf(chars@),
        cur.wf(chars@),
    ensures
        r == Scanned::Token(
            token_of(chars@, Lexeme { kind, start: start.pos as int, end: cur.pos as int }),
        ),
{
    Scanned::Token(Token::new((start.offset, cur.offset), kind))
}

/// Scans what follows a `#` at the cursor.
fn scan_hash(chars: &Vec<char>, cur: &mut Cursor) -> (r: Scanned)
    requires
        old(cur).wf(chars@),
        old(cur).pos < chars.len(),
    ensures
        final(cur).wf(chars@),
        match hash_step(chars@, old(cur).pos as int) {
            Step::Token(kind, end) => final(cur).pos == end && r == Scanned::Token(
                token_of(chars@, Lexeme { kind, start: old(cur).pos as int, end }),
            ),
            Step::Skip(end) => final(cur).pos == end && r is Skipped,
            Step::Stop => r is Stopped,
        },
{
    let start = *cur;
    advance(chars, cur);
    if cur.pos >= chars.len() {
        return Scanned::Stopped;
    }
    let d = chars[cur.pos];
    advance(chars, cur);
    if d == 't' {
        token_to(chars, start, cur, TokenType::True)
    } else if d == 'f' {
        token_to(chars, start, cur, TokenType::False)
    } else if d == '(' {
        token_to(chars, start, cur, TokenType::VectorOpen)
    } else if d == '\\' {
        if cur.pos >= chars.len() {
            return Scanned::Stopped;
        }
        advance(chars, cur);
        scan_run(chars, cur, TokenType::Char);
        token_to(chars, start, cur, TokenType::Char)
    } else if is_number_prefix(d) {
        let behind = cur.pos;
        proof {
            lemma_run_end_bounds(chars@, behind as int, TokenType::Symbol);
        }
        scan_run(chars, cur, TokenType::Symbol);
        if cur.pos == behind {
            return Scanned::Stopped;
        }
        token_to(chars, start, cur, TokenType::Number)
    } else {
        Scanned::Stopped
    }
}

/// Scans the token or the white space at the cursor and moves the cursor
/// behind it.
pub fn scan_step(chars: &Vec<char>, cur: &mut Cursor) -> (r: Scanned)
    requires
        old(cur).wf(chars@),
        old(cur).pos < chars.len(),
    ensures
        final(cur).wf(chars@),
        match step(chars@, old(cur).pos as int) {
            Step::Token(kind, end) => final(cur).pos == end && r == Scanned::Token(
                token_of(chars@, Lexeme { kind, start: old(cur).pos as int, end }),
            ),
            Step::Skip(end) => final(cur).pos == end && r is Skipped,
            Step::Stop => r is Stopped,
        },
{
    let start = *cur;
    let c = chars[cur.pos];
    if c == '(' {
        advance(chars, cur);
        token_to(chars, start, cur, TokenType::LeftParen)
    } else if c == ')' {
        advance(chars, cur);
        token_to(chars, start, cur, TokenType::RightParen)
    } else if c == '\'' {
        advance(chars, cur);
        token_to(chars, start, cur, TokenType::SingleQuote)
    } else if c == '.' {
        advance(chars, cur);
        token_to(chars, start, cur, TokenType::Dot)
    } else if c == '#' {
        scan_hash(chars, cur)
    } else if c == '"' {
        advance(chars, cur);
        if scan_string(chars, cur) {
            token_to(chars, start, cur, TokenType::String)
        } else {
            Scanned::Stopped
        }
    } else if is_initial_identifier(c) {
        Scanned::Token(scan_symbol(chars, cur))
    } else if is_initial_number(c) {
        Scanned::Token(scan_number(chars, cur))
    } else if char_is_whitespace(c) {
        advance(chars, cur);
        Scanned::Skipped
    } else {
        Scanned::Stopped
    }
}

/// Splits `text` into its tokens. White space separates tokens and is
/// dropped. A character that can start no token, or a token that the end of
/// the text cuts short, is an error that gives its byte offset.
pub fn tokenize(text: &str) -> (r: Result<Vec<Token>, LexError>)
    ensures
        match r {
            Ok(v) => lex(text@) == Ok::<Seq<Token>, LexError>(v@),
            Err(e) => lex(text@) == Err::<Seq<Token>, LexError>(e),
        },
        r matches Ok(v) ==> forall|i: int|
            0 <= i < v.len() ==> span_in(text.spec_bytes(), #[trigger] v[i].span),
{
    let chars = to_chars(text);
    let total = text.as_bytes().len();
    assert(encode_utf8(chars@).len() == total);
    let mut tokens: Vec<Token> = Vec::new();
    let mut cur = Cursor { pos: 0, offset: 0 };
    let ghost mut found: Seq<Lexeme> = Seq::empty();
    proof {
        assert(chars@.take(0) =~= Seq::<char>::empty());
        assert(byte_offset(chars@, 0) == 0);
        assert(found.map_values(|l: Lexeme| token_of(chars@, l)) =~= tokens@);
    }
    while cur.pos < chars.len()
        invariant
            chars@ == text@,
            cur.wf(chars@),
            tokens@ == found.map_values(|l: Lexeme| token_of(chars@, l)),
            lexemes(chars@, 0) == match lexemes(chars@, cur.pos as int) {
                Ok(rest) => Ok::<Seq<Lexeme>, int>(found + rest),
                Err(at) => Err(at),
            },
            forall|i: int|
                0 <= i < tokens.len() ==> span_in(text.spec_bytes(), #[trigger] tokens[i].span),
        decreases chars.len() - cur.pos,
    {
        let start = cur;
        let ghost here = step(chars@, cur.pos as int);
        proof {
            lemma_step_advances(chars@, cur.pos as int);
        }
        match scan_step(&chars, &mut cur) {
            Scanned::Stopped => {
                return Err(LexError { offset: start.offset });
            },
            Scanned::Skipped => {},
            Scanned::Token(token) => {
                let ghost l = Lexeme {
                    kind: here->Token_0,
                    start: start.pos as int,
                    end: cur.pos as int,
                };
                proof {
                    let rest = lexemes(chars@, cur.pos as int);
                    if rest is Ok {
                        assert(found + (seq![l] + rest->Ok_0) =~= found.push(l) + rest->Ok_0);
                    }
                    assert(found.push(l).map_values(|l: Lexeme| token_of(chars@, l))
                        =~= tokens@.push(token));
                    lemma_byte_offset_is_boundary(chars@, start.pos as int);
                    lemma_byte_offset_is_boundary(chars@, cur.pos as int);
                    lemma_byte_offset_monotonic(chars@, start.pos as int, cur.pos as int);
                    lemma_byte_offset_monotonic(chars@, cur.pos as int, chars@.len() as int);
                    found = found.push(l);
                }
                tokens.push(token);
            },
        }
    }
    proof {
        assert(found + Seq::<Lexeme>::empty() =~= found);
    }
    Ok(tokens)
}

/// The text of a token is what the text holds between the character
/// positions of its lexeme: a text whose bytes are those that the span of
/// the token covers has just these characters.
pub proof fn lemma_token_text(chars: Seq<char>, l: Lexeme, part: Seq<char>)
    requires
        0 <= l.start <= l.end <= chars.len(),
        encode_utf8(chars).len() <= usize::MAX,
        encode_utf8(part) == encode_utf8(chars).subrange(
            token_of(chars, l).span.0 as int,
            token_of(chars, l).span.1 as int,
        ),
    ensures
        part == chars.subrange(l.start, l.end),
{
    lemma_encode_subrange(chars, l.start, l.end);
    encode_utf8_decode_utf8(part);
    encode_utf8_decode_utf8(chars.subrange(l.start, l.end));
}

/// A character boundary of a text is one of each prefix that reaches it and
/// ends on a boundary itself.
pub proof fn lemma_boundary_in_prefix(bytes: Seq<u8>, at: int, end: int)
    requires
        valid_utf8(bytes),
        0 <= at <= end <= bytes.len(),
        is_char_boundary(bytes, at),
        is_char_boundary(bytes, end),
    ensures
        valid_utf8(bytes.subrange(0, end)),
        is_char_boundary(bytes.subrange(0, end), at),
{
    valid_utf8_split(bytes, end);
    let cut = bytes.subrange(0, end);
    if at == end {
        is_char_boundary_start_end_of_seq(cut);
    } else if at == 0 {
    } else {
        is_char_boundary_iff_not_is_continuation_byte(bytes, at);
        is_char_boundary_iff_not_is_continuation_byte(cut, at);
    }
}

} // verus!
