//! Reading: from tokens to the data that they write down.
use crate::builtin::list::{build_list, chain_head, chained};
use crate::error::{Error, ErrorView};
use crate::heap::{Heap, HeapView};
use crate::lexer::{lex, span_in, tokenize, LexError, Token, TokenType};
use crate::number::Number;
use crate::printer::{decimal, push_decimal};
use crate::text::{char_at, push_str, string_of, to_chars};
use crate::unicode::char_from_u32;
use crate::vcell::VCell;
use vstd::prelude::*;
use vstd::string::*;

verus! {

/// The largest magnitude that a number that is read may have.
pub const MAX_MAGNITUDE: u128 = 0x8000_0000_0000_0000;

/// The value of a digit in a radix up to sixteen.
pub open spec fn digit_in(c: char, radix: nat) -> Option<nat> {
    let v: int = if '0' <= c <= '9' {
        c as u32 - 48
    } else if 'a' <= c <= 'f' {
        c as u32 - 87
    } else if 'A' <= c <= 'F' {
        c as u32 - 55
    } else {
        16
    };
    if v < radix {
        Some(v as nat)
    } else {
        None
    }
}

/// The value of a run of digits, where there is at least one digit, all
/// are digits of the radix, and the value is no more than
/// [`MAX_MAGNITUDE`].
pub open spec fn digits_value(chars: Seq<char>, radix: nat) -> Option<nat>
    decreases chars.len(),
{
    if chars.len() == 0 {
        None
    } else {
        let front = if chars.len() == 1 {
            Some(0nat)
        } else {
            digits_value(chars.drop_last(), radix)
        };
        match (front, digit_in(chars.last(), radix)) {
            (Some(high), Some(low)) => if high * radix + low <= MAX_MAGNITUDE {
                Some(high * radix + low)
            } else {
                None
            },
            _ => None,
        }
    }
}

/// The radix that a prefix letter behind `#` asks for. An inexact number
/// (`i`) has no place here.
pub open spec fn prefix_radix(c: char) -> Option<nat> {
    if c == 'x' {
        Some(16)
    } else if c == 'b' {
        Some(2)
    } else if c == 'o' {
        Some(8)
    } else if c == 'd' || c == 'e' {
        Some(10)
    } else {
        None
    }
}

/// The integer that a signed run of digits stands for.
pub open spec fn signed_value(chars: Seq<char>, radix: nat) -> Option<int> {
    if chars.len() > 0 && chars[0] == '-' {
        match digits_value(chars.skip(1), radix) {
            Some(v) => Some(-(v as int)),
            None => None,
        }
    } else if chars.len() > 0 && chars[0] == '+' {
        match digits_value(chars.skip(1), radix) {
            Some(v) => Some(v as int),
            None => None,
        }
    } else {
        match digits_value(chars, radix) {
            Some(v) => Some(v as int),
            None => None,
        }
    }
}

/// The whole number that the text of a number token stands for: an
/// optional `#` with a radix letter, an optional sign, and digits. There
/// is none where the text is of another form or the number does not fit.
pub open spec fn number_value(chars: Seq<char>) -> Option<Number> {
    let value = if chars.len() >= 2 && chars[0] == '#' {
        match prefix_radix(chars[1]) {
            Some(radix) => signed_value(chars.skip(2), radix),
            None => None,
        }
    } else {
        signed_value(chars, 10)
    };
    match value {
        Some(v) => if v <= i64::MAX {
            Some(Number::Fixnum(v as i64))
        } else {
            None
        },
        None => None,
    }
}

/// The character that a backslash and `c` stand for in a string.
pub open spec fn escaped(c: char) -> char {
    if c == 'n' {
        '\n'
    } else if c == 't' {
        '\t'
    } else if c == 'r' {
        '\r'
    } else if c == '0' {
        '\0'
    } else {
        c
    }
}

/// The characters that the body of a string literal stands for: a
/// backslash and the character behind it stand for one character.
pub open spec fn unescaped(body: Seq<char>) -> Seq<char>
    decreases body.len(),
{
    if body.len() == 0 {
        Seq::empty()
    } else if body[0] == '\\' && body.len() >= 2 {
        seq![escaped(body[1])] + unescaped(body.skip(2))
    } else {
        seq![body[0]] + unescaped(body.skip(1))
    }
}

/// The character with a name.
pub open spec fn named_char(name: Seq<char>) -> Option<char> {
    if name == "space"@ {
        Some(' ')
    } else if name == "newline"@ {
        Some('\n')
    } else if name == "tab"@ {
        Some('\t')
    } else if name == "null"@ {
        Some('\0')
    } else if name == "alarm"@ {
        Some('\x07')
    } else if name == "backspace"@ {
        Some('\x08')
    } else if name == "delete"@ {
        Some('\x7f')
    } else if name == "escape"@ {
        Some('\x1b')
    } else if name == "return"@ {
        Some('\r')
    } else {
        None
    }
}

/// The character that a character literal stands for, given what follows
/// `#\`: a single character stands for itself; else a name or `x` and the
/// hexadecimal code of a Unicode scalar value are looked for.
pub open spec fn char_value(rest: Seq<char>) -> Option<char> {
    if rest.len() == 1 {
        Some(rest[0])
    } else if named_char(rest) is Some {
        named_char(rest)
    } else if rest.len() >= 2 && rest[0] == 'x' {
        match digits_value(rest.skip(1), 16) {
            Some(code) => if code <= u32::MAX && vstd::utf8::is_scalar(code as u32) {
                Some(code as u32 as char)
            } else {
                None
            },
            None => None,
        }
    } else {
        None
    }
}

pub fn digit_of(c: char, radix: u8) -> (r: Option<u8>)
    requires
        radix <= 16,
    ensures
        match r {
            Some(v) => digit_in(c, radix as nat) == Some(v as nat),
            None => digit_in(c, radix as nat) is None,
        },
{
    let code: u32 = c as u32;
    let v: u32 = if '0' <= c && c <= '9' {
        code - 48
    } else if 'a' <= c && c <= 'f' {
        code - 87
    } else if 'A' <= c && c <= 'F' {
        code - 55
    } else {
        16
    };
    if v < radix as u32 {
        Some(v as u8)
    } else {
        None
    }
}

/// The value of the digits from `from` on.
pub fn parse_digits(chars: &Vec<char>, from: usize, radix: u8) -> (r: Option<u128>)
    requires
        from <= chars.len(),
        2 <= radix <= 16,
    ensures
        match r {
            Some(v) => digits_value(chars@.skip(from as int), radix as nat) == Some(v as nat),
            None => digits_value(chars@.skip(from as int), radix as nat) is None,
        },
{
    if from == chars.len() {
        return None;
    }
    let ghost digits = chars@.skip(from as int);
    let mut value: Option<u128> = Some(0);
    let mut i = from;
    while i < chars.len()
        invariant
            from <= i <= chars.len(),
            from < chars.len(),
            2 <= radix <= 16,
            digits == chars@.skip(from as int),
            match value {
                Some(v) => v <= MAX_MAGNITUDE && (if i == from {
                    v == 0
                } else {
                    digits_value(digits.take(i - from), radix as nat) == Some(v as nat)
                }),
                None => i > from && digits_value(digits.take(i - from), radix as nat) is None,
            },
        decreases chars.len() - i,
    {
        assert(digits.take(i + 1 - from).drop_last() =~= digits.take(i - from));
        assert(digits.take(i + 1 - from).last() == chars@[i as int]);
        value = match value {
            Some(v) => match digit_of(chars[i], radix) {
                Some(d) => {
                    assert(v * radix + d <= 0x8000_0000_0000_0000 * 16 + 16) by (nonlinear_arith)
                        requires
                            v <= 0x8000_0000_0000_0000,
                            radix <= 16,
                            d <= 16,
                    ;
                    let next = v * (radix as u128) + (d as u128);
                    if next <= MAX_MAGNITUDE {
                        Some(next)
                    } else {
                        None
                    }
                },
                None => None,
            },
            None => None,
        };
        i = i + 1;
    }
    assert(digits.take(chars.len() - from) =~= digits);
    value
}

/// The whole number that the text of a number token stands for.
pub fn parse_number(chars: &Vec<char>) -> (r: Option<Number>)
    ensures
        r == number_value(chars@),
{
    let mut from: usize = 0;
    let mut radix: u8 = 10;
    if chars.len() >= 2 && chars[0] == '#' {
        let c = chars[1];
        radix = if c == 'x' {
            16
        } else if c == 'b' {
            2
        } else if c == 'o' {
            8
        } else if c == 'd' || c == 'e' {
            10
        } else {
            return None;
        };
        from = 2;
    }
    let ghost rest = chars@.skip(from as int);
    let negative = from < chars.len() && chars[from] == '-';
    let signed = from < chars.len() && (chars[from] == '-' || chars[from] == '+');
    let start = if signed {
        from + 1
    } else {
        from
    };
    proof {
        if signed {
            assert(rest.skip(1) =~= chars@.skip(from + 1));
        }
        assert(chars@.skip(0) =~= chars@);
    }
    match parse_digits(chars, start, radix) {
        None => None,
        Some(v) => {
            if negative {
                if v == MAX_MAGNITUDE {
                    Some(Number::Fixnum(i64::MIN))
                } else {
                    Some(Number::Fixnum(-(v as i64)))
                }
            } else if v <= i64::MAX as u128 {
                Some(Number::Fixnum(v as i64))
            } else {
                None
            }
        },
    }
}

/// The characters that the body of a string literal stands for.
pub fn unescape(chars: &Vec<char>, from: usize, to: usize) -> (r: Vec<char>)
    requires
        from <= to <= chars.len(),
    ensures
        r@ == unescaped(chars@.subrange(from as int, to as int)),
{
    let mut out: Vec<char> = Vec::new();
    let mut i = from;
    let ghost body = chars@.subrange(from as int, to as int);
    assert(body.skip(0) =~= body);
    while i < to
        invariant
            from <= i <= to <= chars.len(),
            body == chars@.subrange(from as int, to as int),
            out@ + unescaped(body.skip(i - from)) == unescaped(body),
        decreases to - i,
    {
        let ghost rest = body.skip(i - from);
        let c = char_at(chars, i);
        if c == '\\' && i + 1 < to {
            let d = char_at(chars, i + 1);
            let e = if d == 'n' {
                '\n'
            } else if d == 't' {
                '\t'
            } else if d == 'r' {
                '\r'
            } else if d == '0' {
                '\0'
            } else {
                d
            };
            assert(rest.skip(2) =~= body.skip(i + 2 - from));
            out.push(e);
            assert(out@ + unescaped(body.skip(i + 2 - from)) =~= unescaped(body));
            i = i + 2;
        } else {
            assert(rest.skip(1) =~= body.skip(i + 1 - from));
            out.push(c);
            assert(out@ + unescaped(body.skip(i + 1 - from)) =~= unescaped(body));
            i = i + 1;
        }
    }
    assert(out@ + Seq::<char>::empty() =~= out@);
    out
}

/// Whether the characters from `from` on are those of `name`.
pub fn is_text(chars: &Vec<char>, from: usize, name: &str) -> (r: bool)
    requires
        from <= chars.len(),
    ensures
        r == (chars@.skip(from as int) == name@),
{
    let wanted = to_chars(name);
    if chars.len() - from != wanted.len() {
        return false;
    }
    let mut i: usize = 0;
    while i < wanted.len()
        invariant
            i <= wanted.len(),
            from <= chars.len(),
            chars.len() - from == wanted.len(),
            wanted@ == name@,
            forall|k: int| 0 <= k < i ==> chars@[from + k] == wanted@[k],
        decreases wanted.len() - i,
    {
        if chars[from + i] != wanted[i] {
            assert(chars@.skip(from as int)[i as int] != wanted@[i as int]);
            return false;
        }
        i = i + 1;
    }
    assert(chars@.skip(from as int) =~= wanted@);
    true
}

/// The character that a character literal stands for, whose text is
/// `chars`: `#\` and what follows.
pub fn parse_char(chars: &Vec<char>) -> (r: Option<char>)
    requires
        chars.len() >= 2,
    ensures
        r == char_value(chars@.skip(2)),
{
    let ghost rest = chars@.skip(2);
    if chars.len() == 3 {
        return Some(char_at(chars, 2));
    }
    if is_text(chars, 2, "space") {
        Some(' ')
    } else if is_text(chars, 2, "newline") {
        Some('\n')
    } else if is_text(chars, 2, "tab") {
        Some('\t')
    } else if is_text(chars, 2, "null") {
        Some('\0')
    } else if is_text(chars, 2, "alarm") {
        Some('\x07')
    } else if is_text(chars, 2, "backspace") {
        Some('\x08')
    } else if is_text(chars, 2, "delete") {
        Some('\x7f')
    } else if is_text(chars, 2, "escape") {
        Some('\x1b')
    } else if is_text(chars, 2, "return") {
        Some('\r')
    } else if chars.len() >= 4 && chars[2] == 'x' {
        assert(rest.skip(1) =~= chars@.skip(3));
        match parse_digits(chars, 3, 16) {
            Some(code) => {
                if code <= 0xffff_ffff {
                    char_from_u32(code as u32)
                } else {
                    None
                }
            },
            None => None,
        }
    } else {
        None
    }
}

/// The error for a text that cannot be split into tokens.
pub open spec fn lex_failure(e: LexError) -> ErrorView {
    ErrorView::InvalidSyntax("no token starts at byte "@ + decimal(e.offset as int))
}

pub fn lex_error(e: LexError) -> (r: Error)
    ensures
        r@ == lex_failure(e),
{
    let mut text: Vec<char> = Vec::new();
    push_str(&mut text, "no token starts at byte ");
    push_decimal(&mut text, e.offset as i128);
    assert(text@ =~= "no token starts at byte "@ + decimal(e.offset as int));
    Error::InvalidSyntax(string_of(&text))
}

/// An error of the given text.
pub fn syntax_error(message: &str) -> (r: Error)
    ensures
        r@ == ErrorView::InvalidSyntax(message@),
{
    Error::InvalidSyntax(message.to_owned())
}

/// The error for a token whose text is not of the form that its kind
/// needs: the text and what is wrong with it.
pub fn token_error(chars: &Vec<char>, what: &str) -> (r: Error)
    ensures
        r@ == ErrorView::InvalidSyntax(chars@ + what@),
{
    let mut text: Vec<char> = Vec::new();
    crate::text::push_chars(&mut text, chars);
    push_str(&mut text, what);
    assert(text@ =~= chars@ + what@);
    Error::InvalidSyntax(string_of(&text))
}

/// The characters that a token covers in a text with these bytes.
pub open spec fn token_text(bytes: Seq<u8>, t: Token) -> Seq<char> {
    vstd::utf8::decode_utf8(bytes.subrange(t.span.0 as int, t.span.1 as int))
}

/// A datum that was read: the heap that holds it, the datum, and the
/// place of the token behind it.
pub struct Read {
    pub heap: HeapView,
    pub datum: VCell,
    pub next: int,
}

/// The items of a list or a vector that were read up to the closing
/// bracket: the heap that holds them, their addresses, the address of
/// what follows a dot, and the place of the token behind the bracket.
pub struct Items {
    pub heap: HeapView,
    pub elems: Seq<usize>,
    pub tail: Option<usize>,
    pub next: int,
}

/// The heap with a name interned, and the symbol of that name.
pub open spec fn symbol_read(h: HeapView, name: Seq<char>) -> (HeapView, VCell) {
    (h.interned(name), VCell::Symbol(h.interned(name).handle_of(name)))
}

/// What a token that is a datum by itself stands for, given its text: a
/// boolean, a number, a symbol, a character, or a new string. A sign that
/// stands alone is a symbol. A bracket or a dot out of place is an error.
pub open spec fn read_simple(h: HeapView, chars: Seq<char>, kind: TokenType) -> Result<
    (HeapView, VCell),
    ErrorView,
> {
    match kind {
        TokenType::True => Ok((h, VCell::Bool(true))),
        TokenType::False => Ok((h, VCell::Bool(false))),
        TokenType::Number => match number_value(chars) {
            Some(n) => Ok((h, VCell::Number(n))),
            None => if chars.len() == 1 && chars[0] != '#' && !crate::lexer::digit(chars[0]) {
                Ok(symbol_read(h, chars))
            } else {
                Err(ErrorView::InvalidSyntax(chars + " is not a valid number"@))
            },
        },
        TokenType::Symbol => Ok(symbol_read(h, chars)),
        TokenType::Char => if chars.len() < 3 {
            Err(ErrorView::InvalidSyntax(chars + " is not a valid character"@))
        } else {
            match char_value(chars.skip(2)) {
                Some(c) => Ok((h, VCell::Char(c))),
                None => Err(ErrorView::InvalidSyntax(chars + " is not a valid character"@)),
            }
        },
        TokenType::String => if chars.len() < 2 {
            Err(ErrorView::InvalidSyntax(chars + " is not a valid string"@))
        } else {
            Ok(
                (
                    HeapView {
                        strings: h.strings.push(unescaped(chars.subrange(1, chars.len() - 1))),
                        ..h
                    },
                    VCell::String(h.strings.len() as usize),
                ),
            )
        },
        TokenType::RightParen => Err(ErrorView::InvalidSyntax("unexpected closing bracket"@)),
        TokenType::Dot => Err(ErrorView::InvalidSyntax("unexpected dot"@)),
        _ => Err(ErrorView::InvalidSyntax("unexpected white space"@)),
    }
}

/// The heap with a new list of the cells at the addresses, which ends in
/// the cell at `end`, and the pointer to that list.
pub open spec fn listed(h: HeapView, elems: Seq<usize>, end: usize) -> (HeapView, VCell) {
    (chained(h, elems, end), VCell::Ptr(chain_head(h, elems, end)))
}

/// The heap with the list of the symbol `quote` and a datum, and the
/// pointer to that list.
pub open spec fn quoted(h: HeapView, datum: VCell) -> (HeapView, VCell) {
    let (named, quote) = symbol_read(h, "quote"@);
    let with_quote = named.put(quote);
    let with_datum = with_quote.put(datum);
    let with_nil = with_datum.put(VCell::Nil);
    listed(
        with_nil,
        seq![named.put_addr(quote), with_quote.put_addr(datum)],
        with_datum.put_addr(VCell::Nil),
    )
}

/// The heap with the vector or the list that the items make, and the
/// value that stands for it. A list ends in what follows the dot, or in
/// a new nil cell where there is no dot.
pub open spec fn collected(items: Items, vector: bool) -> (HeapView, VCell) {
    if vector {
        (
            HeapView { vectors: items.heap.vectors.push(items.elems), ..items.heap },
            VCell::Vector(items.heap.vectors.len() as usize),
        )
    } else {
        match items.tail {
            Some(end) => listed(items.heap, items.elems, end),
            None => listed(
                items.heap.put(VCell::Nil),
                items.elems,
                items.heap.put_addr(VCell::Nil),
            ),
        }
    }
}

/// What reading the datum that starts with the token at `pos` comes to.
/// A quote and the datum behind it are the list of `quote` and that
/// datum. An opening bracket starts a list, `#(` a vector, of the data
/// up to the closing bracket. Every other token is a datum by itself.
pub open spec fn read_at(h: HeapView, bytes: Seq<u8>, tokens: Seq<Token>, pos: int) -> Result<
    Read,
    ErrorView,
>
    decreases tokens.len() - pos, 0nat,
{
    if pos < 0 || pos >= tokens.len() {
        Err(ErrorView::InvalidSyntax("unexpected end of input"@))
    } else {
        match tokens[pos].token_type {
            TokenType::SingleQuote => match read_at(h, bytes, tokens, pos + 1) {
                Err(e) => Err(e),
                Ok(inner) => {
                    let (heap, datum) = quoted(inner.heap, inner.datum);
                    Ok(Read { heap, datum, next: inner.next })
                },
            },
            TokenType::LeftParen => match read_items(
                h,
                bytes,
                tokens,
                pos + 1,
                Seq::empty(),
                false,
            ) {
                Err(e) => Err(e),
                Ok(items) => {
                    let (heap, datum) = collected(items, false);
                    Ok(Read { heap, datum, next: items.next })
                },
            },
            TokenType::VectorOpen => match read_items(
                h,
                bytes,
                tokens,
                pos + 1,
                Seq::empty(),
                true,
            ) {
                Err(e) => Err(e),
                Ok(items) => {
                    let (heap, datum) = collected(items, true);
                    Ok(Read { heap, datum, next: items.next })
                },
            },
            kind => match read_simple(h, token_text(bytes, tokens[pos]), kind) {
                Err(e) => Err(e),
                Ok((heap, datum)) => Ok(Read { heap, datum, next: pos + 1 }),
            },
        }
    }
}

/// What reading the items of a list or a vector from the token at `p` on
/// comes to, behind the items at `elems`: each datum is stored where it
/// is no pointer, and its address is an item. A dot, which a vector has
/// none of and a list only behind an item, has one datum and the closing
/// bracket behind it.
pub open spec fn read_items(
    h: HeapView,
    bytes: Seq<u8>,
    tokens: Seq<Token>,
    p: int,
    elems: Seq<usize>,
    vector: bool,
) -> Result<Items, ErrorView>
    decreases tokens.len() - p, 1nat,
{
    if p < 0 || p >= tokens.len() {
        Err(ErrorView::InvalidSyntax("unexpected end of input"@))
    } else {
        match tokens[p].token_type {
            TokenType::RightParen => Ok(Items { heap: h, elems, tail: None, next: p + 1 }),
            TokenType::Dot => if vector || elems.len() == 0 || p + 1 >= tokens.len() {
                Err(ErrorView::InvalidSyntax("unexpected dot"@))
            } else {
                match read_at(h, bytes, tokens, p + 1) {
                    Err(e) => Err(e),
                    Ok(last) => if last.next < 0 || last.next >= tokens.len() {
                        Err(ErrorView::InvalidSyntax("unexpected end of input"@))
                    } else if tokens[last.next].token_type is RightParen {
                        Ok(
                            Items {
                                heap: last.heap.put(last.datum),
                                elems,
                                tail: Some(last.heap.put_addr(last.datum)),
                                next: last.next + 1,
                            },
                        )
                    } else {
                        Err(ErrorView::InvalidSyntax("expected a closing bracket"@))
                    },
                }
            },
            _ => match read_at(h, bytes, tokens, p) {
                Err(e) => Err(e),
                Ok(item) => if item.next <= p || item.next > tokens.len() {
                    Err(ErrorView::HeapCorruption)
                } else {
                    read_items(
                        item.heap.put(item.datum),
                        bytes,
                        tokens,
                        item.next,
                        elems.push(item.heap.put_addr(item.datum)),
                        vector,
                    )
                },
            },
        }
    }
}

/// A datum was read as was wanted: the error, or the datum, the place
/// behind it and the heap that holds it.
pub open spec fn was_read(
    r: Result<(VCell, usize), Error>,
    heap: HeapView,
    want: Result<Read, ErrorView>,
) -> bool {
    match want {
        Ok(read) => r matches Ok(found) && found.0 == read.datum && found.1 == read.next && heap
            == read.heap,
        Err(e) => r matches Err(x) && x@ == e,
    }
}

/// The characters of a token of a text.
fn text_of(text: &str, token: &Token) -> (chars: Vec<char>)
    requires
        span_in(text.spec_bytes(), token.span),
    ensures
        chars@ == token_text(text.spec_bytes(), *token),
{
    let part = token.span_text(text);
    proof {
        vstd::utf8::encode_utf8_decode_utf8(part@);
    }
    to_chars(part)
}

/// Reads a token that is a datum by itself.
fn read_token(heap: &mut Heap, chars: Vec<char>, kind: TokenType) -> (r: Result<VCell, Error>)
    requires
        old(heap).wf(),
    ensures
        final(heap).wf(),
        old(heap)@.extended_by(final(heap)@),
        match read_simple(old(heap)@, chars@, kind) {
            Ok((g, datum)) => r == Ok::<VCell, Error>(datum) && final(heap)@ == g,
            Err(e) => r matches Err(x) && x@ == e,
        },
        r matches Ok(v) ==> final(heap)@.holds(v),
{
    match kind {
        TokenType::True => Ok(VCell::Bool(true)),
        TokenType::False => Ok(VCell::Bool(false)),
        TokenType::Number => match parse_number(&chars) {
            Some(n) => Ok(VCell::Number(n)),
            None => {
                if chars.len() == 1 && !(chars[0] == '#') && !crate::lexer::is_digit(chars[0]) {
                    // A sign that stands alone is a symbol.
                    Ok(heap.intern(chars))
                } else {
                    Err(token_error(&chars, " is not a valid number"))
                }
            },
        },
        TokenType::Symbol => Ok(heap.intern(chars)),
        TokenType::Char => {
            if chars.len() < 3 {
                return Err(token_error(&chars, " is not a valid character"));
            }
            match parse_char(&chars) {
                Some(c) => Ok(VCell::Char(c)),
                None => Err(token_error(&chars, " is not a valid character")),
            }
        },
        TokenType::String => {
            if chars.len() < 2 {
                return Err(token_error(&chars, " is not a valid string"));
            }
            let body = unescape(&chars, 1, chars.len() - 1);
            Ok(heap.alloc_string(body))
        },
        TokenType::RightParen => Err(syntax_error("unexpected closing bracket")),
        TokenType::Dot => Err(syntax_error("unexpected dot")),
        _ => Err(syntax_error("unexpected white space")),
    }
}

/// Reads the datum that starts with the token at `pos` into the heap.
/// Returns the datum and the place of the token behind it.
fn read_datum(heap: &mut Heap, text: &str, tokens: &Vec<Token>, pos: usize) -> (r: Result<
    (VCell, usize),
    Error,
>)
    requires
        old(heap).wf(),
        pos < tokens.len(),
        forall|i: int| 0 <= i < tokens.len() ==> span_in(text.spec_bytes(), #[trigger] tokens[i].span),
    ensures
        final(heap).wf(),
        old(heap)@.extended_by(final(heap)@),
        was_read(r, final(heap)@, read_at(old(heap)@, text.spec_bytes(), tokens@, pos as int)),
        r matches Ok((v, next)) ==> final(heap)@.holds(v) && pos < next <= tokens.len(),
    decreases tokens.len() - pos,
{
    let token = tokens[pos];
    let ghost bytes = text.spec_bytes();
    let ghost start = heap@;
    match token.token_type {
        TokenType::SingleQuote => {
            if pos + 1 >= tokens.len() {
                assert(read_at(start, bytes, tokens@, pos + 1) is Err);
                return Err(syntax_error("unexpected end of input"));
            }
            let (datum, next) = read_datum(heap, text, tokens, pos + 1)?;
            let quote = heap.intern(to_chars("quote"));
            let q = heap.address(quote);
            let d = heap.address(datum);
            let nil = heap.address(VCell::Nil);
            let mut elems: Vec<usize> = Vec::new();
            elems.push(q);
            elems.push(d);
            assert(elems@ =~= seq![q, d]);
            let head = build_list(heap, &elems, nil);
            assert(old(heap)@.extended_by(heap@));
            Ok((VCell::Ptr(head), next))
        },
        TokenType::LeftParen | TokenType::VectorOpen => {
            let vector = match token.token_type {
                TokenType::VectorOpen => true,
                _ => false,
            };
            let mut elems: Vec<usize> = Vec::new();
            let mut tail: Option<usize> = None;
            let mut p = pos + 1;
            let ghost want = read_items(start, bytes, tokens@, pos + 1, Seq::empty(), vector);
            loop
                invariant_except_break
                    tail is None,
                    read_items(heap@, bytes, tokens@, p as int, elems@, vector) == want,
                invariant
                    heap.wf(),
                    old(heap)@.extended_by(heap@),
                    bytes == text.spec_bytes(),
                    start == old(heap)@,
                    pos < tokens.len(),
                    tokens@[pos as int].token_type is LeftParen || tokens@[pos as int].token_type
                        is VectorOpen,
                    vector == (tokens@[pos as int].token_type is VectorOpen),
                    want == read_items(start, bytes, tokens@, pos + 1, Seq::empty(), vector),
                    pos < p <= tokens.len(),
                    forall|i: int|
                        0 <= i < tokens.len() ==> span_in(
                            text.spec_bytes(),
                            #[trigger] tokens[i].span,
                        ),
                    forall|i: int| 0 <= i < elems.len() ==> (#[trigger] elems[i]) < heap@.cells.len(),
                ensures
                    heap.wf(),
                    old(heap)@.extended_by(heap@),
                    pos < p <= tokens.len(),
                    forall|i: int| 0 <= i < elems.len() ==> (#[trigger] elems[i]) < heap@.cells.len(),
                    tail matches Some(a) ==> a < heap@.cells.len(),
                    want == Ok::<Items, ErrorView>(
                        Items { heap: heap@, elems: elems@, tail, next: p as int },
                    ),
                decreases tokens.len() - p,
            {
                if p >= tokens.len() {
                    return Err(syntax_error("unexpected end of input"));
                }
                match tokens[p].token_type {
                    TokenType::RightParen => {
                        p = p + 1;
                        break ;
                    },
                    TokenType::Dot => {
                        if vector || elems.len() == 0 || p + 1 >= tokens.len() {
                            return Err(syntax_error("unexpected dot"));
                        }
                        let ghost before = heap@;
                        let (datum, next) = read_datum(heap, text, tokens, p + 1)?;
                        let a = heap.address(datum);
                        if next >= tokens.len() {
                            return Err(syntax_error("unexpected end of input"));
                        }
                        match tokens[next].token_type {
                            TokenType::RightParen => {},
                            _ => {
                                return Err(syntax_error("expected a closing bracket"));
                            },
                        }
                        assert forall|i: int| 0 <= i < elems.len() implies (#[trigger] elems[i])
                            < heap@.cells.len() by {
                            assert(elems[i] < before.cells.len());
                        }
                        tail = Some(a);
                        p = next + 1;
                        break ;
                    },
                    _ => {
                        let ghost before = heap@;
                        let (datum, next) = read_datum(heap, text, tokens, p)?;
                        let a = heap.address(datum);
                        assert forall|i: int| 0 <= i < elems.len() implies (#[trigger] elems[i])
                            < heap@.cells.len() by {
                            assert(elems[i] < before.cells.len());
                        }
                        elems.push(a);
                        p = next;
                    },
                }
            }
            if vector {
                let v = heap.alloc_vector(elems);
                Ok((v, p))
            } else {
                let ghost before = heap@;
                let end = match tail {
                    Some(a) => a,
                    None => heap.address(VCell::Nil),
                };
                assert forall|i: int| 0 <= i < elems.len() implies (#[trigger] elems[i])
                    < heap@.cells.len() by {
                    assert(elems[i] < before.cells.len());
                }
                let head = build_list(heap, &elems, end);
                Ok((VCell::Ptr(head), p))
            }
        },
        kind => {
            let chars = text_of(text, &token);
            let datum = read_token(heap, chars, kind)?;
            Ok((datum, pos + 1))
        },
    }
}

/// What reading a text comes to where the text cannot be split into
/// tokens: the error of the lexer, with the heap as it was.
pub open spec fn unreadable(
    text: Seq<char>,
    h: HeapView,
    g: HeapView,
    r: Result<Seq<VCell>, ErrorView>,
) -> bool {
    lex(text) matches Err(e) ==> g == h && r == Err::<Seq<VCell>, ErrorView>(lex_failure(e))
}

/// What reading the data from the token at `pos` on comes to, behind the
/// data found already: the heap that holds them all, and the data in
/// order.
pub open spec fn read_all(
    h: HeapView,
    bytes: Seq<u8>,
    tokens: Seq<Token>,
    pos: int,
    found: Seq<VCell>,
) -> Result<(HeapView, Seq<VCell>), ErrorView>
    decreases tokens.len() - pos,
{
    if pos < 0 || pos >= tokens.len() {
        Ok((h, found))
    } else {
        match read_at(h, bytes, tokens, pos) {
            Err(e) => Err(e),
            Ok(read) => if read.next <= pos || read.next > tokens.len() {
                Err(ErrorView::HeapCorruption)
            } else {
                read_all(read.heap, bytes, tokens, read.next, found.push(read.datum))
            },
        }
    }
}

/// What reading a text comes to: the error of the lexer where the text
/// cannot be split into tokens, else what reading its tokens comes to.
pub open spec fn text_read(h: HeapView, text: Seq<char>) -> Result<
    (HeapView, Seq<VCell>),
    ErrorView,
> {
    match lex(text) {
        Err(e) => Err(lex_failure(e)),
        Ok(tokens) => read_all(h, vstd::utf8::encode_utf8(text), tokens, 0, Seq::empty()),
    }
}

/// A text was read as was wanted: the error, or the data and the heap
/// that holds them.
pub open spec fn all_read(
    r: Result<Vec<VCell>, Error>,
    heap: HeapView,
    want: Result<(HeapView, Seq<VCell>), ErrorView>,
) -> bool {
    match want {
        Ok((g, data)) => r matches Ok(v) && v@ == data && heap == g,
        Err(e) => r matches Err(x) && x@ == e,
    }
}

/// Reads all data of a text into the heap, in order.
pub(crate) fn read(heap: &mut Heap, text: &str) -> (r: Result<Vec<VCell>, Error>)
    requires
        old(heap).wf(),
    ensures
        final(heap).wf(),
        old(heap)@.extended_by(final(heap)@),
        all_read(r, final(heap)@, text_read(old(heap)@, text@)),
        unreadable(
            text@,
            old(heap)@,
            final(heap)@,
            match r {
                Ok(v) => Ok(v@),
                Err(e) => Err(e@),
            },
        ),
        lex(text@) == Ok::<Seq<Token>, LexError>(Seq::empty()) ==> (r matches Ok(v) && v.len()
            == 0 && final(heap)@ == old(heap)@),
        r matches Ok(v) ==> forall|i: int| 0 <= i < v.len() ==> final(heap)@.holds(#[trigger] v[i]),
{
    let tokens = match tokenize(text) {
        Ok(tokens) => tokens,
        Err(e) => {
            return Err(lex_error(e));
        },
    };
    let mut data: Vec<VCell> = Vec::new();
    let mut pos: usize = 0;
    while pos < tokens.len()
        invariant
            heap.wf(),
            old(heap)@.extended_by(heap@),
            pos <= tokens.len(),
            lex(text@) == Ok::<Seq<Token>, LexError>(tokens@),
            read_all(heap@, text.spec_bytes(), tokens@, pos as int, data@) == read_all(
                old(heap)@,
                text.spec_bytes(),
                tokens@,
                0,
                Seq::empty(),
            ),
            tokens.len() == 0 ==> heap@ == old(heap)@ && data.len() == 0,
            forall|i: int|
                0 <= i < tokens.len() ==> span_in(text.spec_bytes(), #[trigger] tokens[i].span),
            forall|i: int| 0 <= i < data.len() ==> heap@.holds(#[trigger] data[i]),
        decreases tokens.len() - pos,
    {
        let ghost before = heap@;
        let (datum, next) = read_datum(heap, text, &tokens, pos)?;
        assert forall|i: int| 0 <= i < data.len() implies heap@.holds(#[trigger] data[i]) by {
            assert(before.holds(data[i]));
        }
        data.push(datum);
        pos = next;
    }
    Ok(data)
}

} // verus!
