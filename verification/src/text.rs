//! Characters, byte offsets and the UTF-8 layout of source text.
use vstd::prelude::*;
use vstd::string::*;
use vstd::utf8::*;

verus! {

/// Number of bytes that the UTF-8 encoding of `c` occupies.
pub open spec fn utf8_width(c: char) -> nat {
    encode_scalar(c as u32).len()
}

/// Byte offset at which the character with index `i` starts in the UTF-8
/// encoding of `chars`; for `i == chars.len()` the length of the encoding.
pub open spec fn byte_offset(chars: Seq<char>, i: int) -> nat {
    encode_utf8(chars.take(i)).len()
}

/// Encoding distributes over concatenation.
pub proof fn lemma_encode_concat(a: Seq<char>, b: Seq<char>)
    ensures
        encode_utf8(a + b) =~= encode_utf8(a) + encode_utf8(b),
    decreases a.len(),
{
    if a.len() == 0 {
        assert(a + b =~= b);
    } else {
        assert((a + b).drop_first() =~= a.drop_first() + b);
        lemma_encode_concat(a.drop_first(), b);
    }
}

/// A single character encodes to its scalar encoding.
pub proof fn lemma_encode_single(c: char)
    ensures
        encode_utf8(seq![c]) =~= encode_scalar(c as u32),
        1 <= utf8_width(c) <= 4,
{
    reveal_with_fuel(encode_utf8, 2);
    assert(seq![c].drop_first() =~= Seq::<char>::empty());
}

/// Byte offsets advance by the width of the character stepped over.
pub proof fn lemma_byte_offset_step(chars: Seq<char>, i: int)
    requires
        0 <= i < chars.len(),
    ensures
        byte_offset(chars, i + 1) == byte_offset(chars, i) + utf8_width(chars[i]),
        byte_offset(chars, 0) == 0,
{
    assert(chars.take(i + 1) =~= chars.take(i) + seq![chars[i]]);
    lemma_encode_concat(chars.take(i), seq![chars[i]]);
    lemma_encode_single(chars[i]);
    assert(chars.take(0) =~= Seq::<char>::empty());
}

/// Byte offsets grow with the character index.
pub proof fn lemma_byte_offset_monotonic(chars: Seq<char>, i: int, j: int)
    requires
        0 <= i <= j <= chars.len(),
    ensures
        byte_offset(chars, i) + (j - i) <= byte_offset(chars, j),
        byte_offset(chars, chars.len() as int) == encode_utf8(chars).len(),
    decreases j - i,
{
    assert(chars.take(chars.len() as int) =~= chars);
    if i < j {
        lemma_byte_offset_monotonic(chars, i, j - 1);
        lemma_byte_offset_step(chars, j - 1);
        lemma_encode_single(chars[j - 1]);
    }
}

/// The bytes between two character offsets encode the characters between them.
pub proof fn lemma_encode_subrange(chars: Seq<char>, i: int, j: int)
    requires
        0 <= i <= j <= chars.len(),
    ensures
        byte_offset(chars, i) <= byte_offset(chars, j) <= encode_utf8(chars).len(),
        encode_utf8(chars).subrange(byte_offset(chars, i) as int, byte_offset(chars, j) as int)
            =~= encode_utf8(chars.subrange(i, j)),
{
    lemma_byte_offset_monotonic(chars, i, j);
    lemma_byte_offset_monotonic(chars, j, chars.len() as int);
    let a = chars.take(i);
    let b = chars.subrange(i, j);
    let c = chars.subrange(j, chars.len() as int);
    assert(chars.take(j) =~= a + b);
    assert(chars =~= (a + b) + c);
    lemma_encode_concat(a, b);
    lemma_encode_concat(a + b, c);
}

/// Every character offset is a character boundary of the encoding.
pub proof fn lemma_byte_offset_is_boundary(chars: Seq<char>, i: int)
    requires
        0 <= i <= chars.len(),
    ensures
        is_char_boundary(encode_utf8(chars), byte_offset(chars, i) as int),
    decreases i,
{
    let bytes = encode_utf8(chars);
    encode_utf8_valid_utf8(chars);
    if i == 0 {
        assert(chars.take(0) =~= Seq::<char>::empty());
    } else {
        let rest = chars.drop_first();
        encode_utf8_first_scalar(chars);
        assert(pop_first_scalar(bytes) =~= encode_utf8(rest));
        lemma_byte_offset_is_boundary(rest, i - 1);
        assert(chars.take(i) =~= seq![chars[0]] + rest.take(i - 1));
        lemma_encode_concat(seq![chars[0]], rest.take(i - 1));
        lemma_encode_single(chars[0]);
        lemma_byte_offset_monotonic(chars, i, chars.len() as int);
        assert(byte_offset(chars, i) == utf8_width(chars[0]) + byte_offset(rest, i - 1));
    }
}

/// The characters of `text`, in order.
pub fn to_chars(text: &str) -> (v: Vec<char>)
    ensures
        v@ == text@,
{
    let mut v: Vec<char> = Vec::new();
    let it = text.chars();
    for c in iter: it
        invariant
            v@ == iter.seq().take(iter.index()),
    {
        v.push(c);
    }
    v
}

/// Number of bytes that `c` takes in UTF-8.
pub fn len_utf8(c: char) -> (n: usize)
    ensures
        n == utf8_width(c),
        1 <= n <= 4,
{
    let code: u32 = c as u32;
    if code < 0x80 {
        1
    } else if code < 0x800 {
        2
    } else if code < 0x10000 {
        3
    } else {
        4
    }
}

/// The character at a place of a vector.
pub fn char_at(chars: &Vec<char>, i: usize) -> (c: char)
    requires
        i < chars.len(),
    ensures
        c == chars@[i as int],
{
    chars[i]
}

/// Appends the characters of `text` to `out`.
pub fn push_str(out: &mut Vec<char>, text: &str)
    ensures
        final(out)@ == old(out)@ + text@,
{
    let it = text.chars();
    for c in iter: it
        invariant
            iter.seq() == text@,
            out@ == old(out)@ + iter.seq().take(iter.index()),
    {
        out.push(c);
        assert(old(out)@ + text@.take(iter.index() + 1) =~= (old(out)@ + text@.take(
            iter.index(),
        )).push(c));
    }
    assert(text@.take(text@.len() as int) =~= text@);
}

/// Appends the characters of `more` to `out`.
pub fn push_chars(out: &mut Vec<char>, more: &Vec<char>)
    ensures
        final(out)@ == old(out)@ + more@,
{
    let mut i: usize = 0;
    while i < more.len()
        invariant
            i <= more.len(),
            out@ == old(out)@ + more@.take(i as int),
        decreases more.len() - i,
    {
        out.push(more[i]);
        assert(old(out)@ + more@.take(i + 1) =~= (old(out)@ + more@.take(i as int)).push(
            more@[i as int],
        ));
        i += 1;
    }
    assert(more@.take(more.len() as int) =~= more@);
}

/// `String::from_iter` over the characters of `chars`: the string that
/// holds exactly these characters, in this order.
#[verifier::external_body]
pub(crate) fn string_of(chars: &Vec<char>) -> (s: String)
    ensures
        s@ == chars@,
{
    String::from_iter(chars.iter())
}

} // verus!
