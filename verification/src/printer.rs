//! The external representation of values: how a value is written as text.
use crate::heap::{Heap, HeapView};
use crate::lexer::{
    initial_identifier, is_initial_identifier, is_subsequent_identifier, subsequent_identifier,
};
use crate::number::{abs, Number};
use crate::text::{push_chars, push_str};
use crate::vcell::VCell;
use vstd::prelude::*;

verus! {

/// How deep the writer follows nested pairs and vectors before it writes
/// `...` in place of what lies deeper.
pub const RENDER_DEPTH: usize = 128;

/// The character that stands for a digit below sixteen.
pub open spec fn digit_char(d: nat) -> char {
    if d < 10 {
        (48 + d) as char
    } else {
        (87 + d) as char
    }
}

/// The digits of `n` to a base from two to sixteen, highest first.
pub open spec fn radix(n: nat, base: nat) -> Seq<char>
    decreases n,
{
    if n < base || base < 2 {
        seq![digit_char(n)]
    } else {
        proof {
            vstd::arithmetic::div_mod::lemma_div_decreases(n as int, base as int);
        }
        radix(n / base, base).push(digit_char(n % base))
    }
}

/// An integer in decimal, with `-` before a negative one.
pub open spec fn decimal(i: int) -> Seq<char> {
    if i < 0 {
        seq!['-'] + radix(abs(i), 10)
    } else {
        radix(abs(i), 10)
    }
}

/// A number as text: an integer in decimal, a fraction as numerator,
/// `/` and denominator.
pub open spec fn render_number(n: Number) -> Seq<char> {
    match n {
        Number::Fixnum(i) => decimal(i as int),
        Number::Rational(num, den) => decimal(num as int) + seq!['/'] + decimal(den as int),
    }
}

/// The characters of the general category `Cc`.
pub open spec fn control(c: char) -> bool {
    c as u32 <= 0x1f || 0x7f <= c as u32 <= 0x9f
}

/// What follows `#\` when a character is written: a name for some, the
/// hexadecimal code behind `x` for the other control characters, else the
/// character itself.
pub open spec fn char_name(c: char) -> Seq<char> {
    if c as u32 == 0x07 {
        "alarm"@
    } else if c as u32 == 0x08 {
        "backspace"@
    } else if c as u32 == 0x7f {
        "delete"@
    } else if c as u32 == 0x1b {
        "escape"@
    } else if c as u32 == 0x0a {
        "newline"@
    } else if c as u32 == 0x00 {
        "null"@
    } else if c as u32 == 0x0d {
        "return"@
    } else if c as u32 == 0x20 {
        "space"@
    } else if c as u32 == 0x09 {
        "tab"@
    } else if control(c) {
        seq!['x'] + radix(c as u32 as nat, 16)
    } else {
        seq![c]
    }
}

pub open spec fn render_char(c: char) -> Seq<char> {
    seq!['#', '\\'] + char_name(c)
}

/// The body of a written string: `"` and `\` get a `\` before them.
pub open spec fn escape_string(chars: Seq<char>) -> Seq<char>
    decreases chars.len(),
{
    if chars.len() == 0 {
        Seq::empty()
    } else {
        let c = chars.last();
        escape_string(chars.drop_last()) + (if c == '"' || c == '\\' {
            seq!['\\', c]
        } else {
            seq![c]
        })
    }
}

pub open spec fn render_string(chars: Seq<char>) -> Seq<char> {
    seq!['"'] + escape_string(chars) + seq!['"']
}

/// A character of a symbol's name as written: itself where an identifier
/// may hold it at this place, else its hexadecimal code between `\x`
/// and `;`.
pub open spec fn symbol_char(c: char, first: bool) -> Seq<char> {
    if (first && initial_identifier(c)) || (!first && subsequent_identifier(c)) {
        seq![c]
    } else {
        seq!['\\', 'x'] + radix(c as u32 as nat, 16) + seq![';']
    }
}

/// The characters of a name from the first on, as written.
pub open spec fn escape_symbol(name: Seq<char>) -> Seq<char>
    decreases name.len(),
{
    if name.len() == 0 {
        Seq::empty()
    } else {
        escape_symbol(name.drop_last()) + symbol_char(name.last(), name.len() == 1)
    }
}

/// The names that are written as they are although no identifier starts
/// like them.
pub open spec fn peculiar(name: Seq<char>) -> bool {
    name == seq!['+'] || name == seq!['-'] || name == seq!['.', '.', '.']
}

pub open spec fn render_symbol(name: Seq<char>) -> Seq<char> {
    if peculiar(name) {
        name
    } else {
        escape_symbol(name)
    }
}

/// A cell that is neither pair nor vector, as text.
pub open spec fn render_atom(h: HeapView, c: VCell) -> Seq<char> {
    match c {
        VCell::Nil => "()"@,
        VCell::Void => "#<void>"@,
        VCell::Undefined => "#<undefined>"@,
        VCell::Bool(b) => if b {
            "#t"@
        } else {
            "#f"@
        },
        VCell::Number(n) => render_number(n),
        VCell::Char(c) => render_char(c),
        VCell::Symbol(handle) => render_symbol(h.symbol(handle)),
        VCell::String(handle) => render_string(h.string(handle)),
        VCell::BuiltIn(_) => "#<procedure>"@,
        VCell::Lambda(_) => "#<procedure>"@,
        VCell::Closure(_, _) => "#<procedure>"@,
        _ => "#<internal>"@,
    }
}

/// A value as text. Pairs and vectors are followed `depth` levels deep;
/// what lies deeper is written as `...`.
pub open spec fn render(h: HeapView, v: VCell, depth: nat) -> Seq<char>
    decreases depth, 0nat, 0nat,
{
    match h.deref(v) {
        VCell::Pair(car, cdr) => if depth == 0 {
            "..."@
        } else {
            seq!['('] + render_items(h, car, cdr, (depth - 1) as nat, h.cells.len())
        },
        VCell::Vector(handle) => if depth == 0 {
            "..."@
        } else {
            seq!['#', '('] + render_slots(h, h.vector(handle), 0, (depth - 1) as nat)
        },
        c => render_atom(h, c),
    }
}

/// The items of a list from the pair of `car` and `cdr` on, with the
/// closing bracket: a dotted tail where the list ends in neither pair nor
/// nil, and ` ...` in place of what follows `steps` further pairs.
pub open spec fn render_items(h: HeapView, car: usize, cdr: usize, depth: nat, steps: nat) -> Seq<
    char,
>
    decreases depth, 1nat, steps,
{
    render(h, VCell::Ptr(car), depth) + (match h.at(cdr) {
        VCell::Nil => seq![')'],
        VCell::Pair(a, d) => if steps == 0 {
            " ...)"@
        } else {
            seq![' '] + render_items(h, a, d, depth, (steps - 1) as nat)
        },
        _ => " . "@ + render(h, VCell::Ptr(cdr), depth) + seq![')'],
    })
}

/// The slots of a vector from `from` on, with the closing bracket.
pub open spec fn render_slots(h: HeapView, slots: Seq<usize>, from: int, depth: nat) -> Seq<char>
    decreases depth, 1nat, slots.len() - from,
{
    if from < 0 || from >= slots.len() {
        seq![')']
    } else {
        (if from > 0 {
            seq![' ']
        } else {
            Seq::empty()
        }) + render(h, VCell::Ptr(slots[from]), depth) + render_slots(h, slots, from + 1, depth)
    }
}

/// The text of a value as `display` gives it.
pub open spec fn written(h: HeapView, v: VCell) -> Seq<char> {
    render(h, v, RENDER_DEPTH as nat)
}

pub fn digit_of(d: u8) -> (c: char)
    requires
        d < 16,
    ensures
        c == digit_char(d as nat),
{
    if d < 10 {
        (48u8 + d) as char
    } else {
        (87u8 + d) as char
    }
}

/// Appends the digits of `n` to the given base.
pub fn push_radix(out: &mut Vec<char>, n: u128, base: u8)
    requires
        2 <= base <= 16,
    ensures
        final(out)@ == old(out)@ + radix(n as nat, base as nat),
    decreases n,
{
    if n >= base as u128 {
        proof {
            vstd::arithmetic::div_mod::lemma_div_decreases(n as int, base as int);
        }
        push_radix(out, n / (base as u128), base);
        out.push(digit_of((n % (base as u128)) as u8));
        assert(out@ =~= old(out)@ + radix(n as nat, base as nat));
    } else {
        out.push(digit_of(n as u8));
        assert(out@ =~= old(out)@ + radix(n as nat, base as nat));
    }
}

/// Appends an integer in decimal.
pub fn push_decimal(out: &mut Vec<char>, i: i128)
    requires
        i > i128::MIN,
    ensures
        final(out)@ == old(out)@ + decimal(i as int),
{
    if i < 0 {
        out.push('-');
        push_radix(out, (-i) as u128, 10);
        assert(out@ =~= old(out)@ + decimal(i as int));
    } else {
        push_radix(out, i as u128, 10);
    }
}

pub fn push_number(out: &mut Vec<char>, n: Number)
    ensures
        final(out)@ == old(out)@ + render_number(n),
{
    match n {
        Number::Fixnum(i) => push_decimal(out, i as i128),
        Number::Rational(num, den) => {
            push_decimal(out, num as i128);
            out.push('/');
            push_decimal(out, den as i128);
            assert(out@ =~= old(out)@ + render_number(n));
        },
    }
}

pub fn is_control(c: char) -> (b: bool)
    ensures
        b == control(c),
{
    let code: u32 = c as u32;
    code <= 0x1f || (0x7f <= code && code <= 0x9f)
}

pub fn push_char_name(out: &mut Vec<char>, c: char)
    ensures
        final(out)@ == old(out)@ + char_name(c),
{
    let code: u32 = c as u32;
    if code == 0x07 {
        push_str(out, "alarm");
    } else if code == 0x08 {
        push_str(out, "backspace");
    } else if code == 0x7f {
        push_str(out, "delete");
    } else if code == 0x1b {
        push_str(out, "escape");
    } else if code == 0x0a {
        push_str(out, "newline");
    } else if code == 0x00 {
        push_str(out, "null");
    } else if code == 0x0d {
        push_str(out, "return");
    } else if code == 0x20 {
        push_str(out, "space");
    } else if code == 0x09 {
        push_str(out, "tab");
    } else if is_control(c) {
        out.push('x');
        push_radix(out, code as u128, 16);
        assert(out@ =~= old(out)@ + char_name(c));
    } else {
        out.push(c);
        assert(out@ =~= old(out)@ + char_name(c));
    }
}

pub fn push_char(out: &mut Vec<char>, c: char)
    ensures
        final(out)@ == old(out)@ + render_char(c),
{
    out.push('#');
    out.push('\\');
    push_char_name(out, c);
    assert(out@ =~= old(out)@ + render_char(c));
}

pub fn push_string(out: &mut Vec<char>, chars: &Vec<char>)
    ensures
        final(out)@ == old(out)@ + render_string(chars@),
{
    out.push('"');
    let mut i: usize = 0;
    while i < chars.len()
        invariant
            i <= chars.len(),
            out@ == old(out)@ + seq!['"'] + escape_string(chars@.take(i as int)),
        decreases chars.len() - i,
    {
        let c = chars[i];
        assert(chars@.take(i + 1).drop_last() =~= chars@.take(i as int));
        if c == '"' || c == '\\' {
            out.push('\\');
        }
        out.push(c);
        assert(out@ =~= old(out)@ + seq!['"'] + escape_string(chars@.take(i + 1)));
        i += 1;
    }
    assert(chars@.take(chars.len() as int) =~= chars@);
    out.push('"');
    assert(out@ =~= old(out)@ + render_string(chars@));
}

pub fn is_peculiar(name: &Vec<char>) -> (b: bool)
    ensures
        b == peculiar(name@),
{
    if name.len() == 1 {
        let b = name[0] == '+' || name[0] == '-';
        assert(name@ =~= seq![name@[0]]);
        b
    } else if name.len() == 3 {
        let b = name[0] == '.' && name[1] == '.' && name[2] == '.';
        assert(name@ =~= seq![name@[0], name@[1], name@[2]]);
        b
    } else {
        false
    }
}

pub fn push_symbol(out: &mut Vec<char>, name: &Vec<char>)
    ensures
        final(out)@ == old(out)@ + render_symbol(name@),
{
    if is_peculiar(name) {
        push_chars(out, name);
        return ;
    }
    let mut i: usize = 0;
    while i < name.len()
        invariant
            i <= name.len(),
            out@ == old(out)@ + escape_symbol(name@.take(i as int)),
        decreases name.len() - i,
    {
        let c = name[i];
        assert(name@.take(i + 1).drop_last() =~= name@.take(i as int));
        let plain = if i == 0 {
            is_initial_identifier(c)
        } else {
            is_subsequent_identifier(c)
        };
        if plain {
            out.push(c);
        } else {
            out.push('\\');
            out.push('x');
            push_radix(out, c as u32 as u128, 16);
            out.push(';');
        }
        assert(out@ =~= old(out)@ + escape_symbol(name@.take(i + 1)));
        i += 1;
    }
    assert(name@.take(name.len() as int) =~= name@);
}

/// Appends a cell that is neither pair nor vector.
pub fn push_atom(heap: &Heap, c: VCell, out: &mut Vec<char>)
    ensures
        final(out)@ == old(out)@ + render_atom(heap@, c),
{
    match c {
        VCell::Nil => push_str(out, "()"),
        VCell::Void => push_str(out, "#<void>"),
        VCell::Undefined => push_str(out, "#<undefined>"),
        VCell::Bool(b) => {
            if b {
                push_str(out, "#t")
            } else {
                push_str(out, "#f")
            }
        },
        VCell::Number(n) => push_number(out, n),
        VCell::Char(c) => push_char(out, c),
        VCell::Symbol(handle) => {
            let name = heap.symbol_name(handle);
            push_symbol(out, &name)
        },
        VCell::String(handle) => {
            let chars = heap.string_chars(handle);
            push_string(out, &chars)
        },
        VCell::BuiltIn(_) => push_str(out, "#<procedure>"),
        VCell::Lambda(_) => push_str(out, "#<procedure>"),
        VCell::Closure(_, _) => push_str(out, "#<procedure>"),
        _ => push_str(out, "#<internal>"),
    }
}

/// Appends a value as text, following pairs and vectors `depth` levels deep.
pub fn push_value(heap: &Heap, v: VCell, depth: usize, out: &mut Vec<char>)
    ensures
        final(out)@ == old(out)@ + render(heap@, v, depth as nat),
    decreases depth,
{
    let ghost target = old(out)@ + render(heap@, v, depth as nat);
    match heap.get(v) {
        VCell::Pair(first, rest) => {
            if depth == 0 {
                push_str(out, "...");
                return ;
            }
            out.push('(');
            let mut car = first;
            let mut cdr = rest;
            let mut steps = heap.len();
            assert(out@ + render_items(heap@, car, cdr, (depth - 1) as nat, steps as nat)
                =~= target);
            loop
                invariant_except_break
                    out@ + render_items(heap@, car, cdr, (depth - 1) as nat, steps as nat)
                        == target,
                invariant
                    depth > 0,
                ensures
                    out@ == target,
                decreases steps,
            {
                let ghost before = out@;
                push_value(heap, VCell::Ptr(car), depth - 1, out);
                match heap.get_at_index(cdr) {
                    VCell::Nil => {
                        out.push(')');
                        assert(out@ =~= target);
                        break ;
                    },
                    VCell::Pair(a, d) => {
                        if steps == 0 {
                            let ghost mid = out@;
                            push_str(out, " ...)");
                            assert(out@ =~= target);
                            break ;
                        }
                        out.push(' ');
                        assert(out@ + render_items(
                            heap@,
                            a,
                            d,
                            (depth - 1) as nat,
                            (steps - 1) as nat,
                        ) =~= target);
                        car = a;
                        cdr = d;
                        steps = steps - 1;
                    },
                    _ => {
                        push_str(out, " . ");
                        push_value(heap, VCell::Ptr(cdr), depth - 1, out);
                        out.push(')');
                        assert(out@ =~= target);
                        break ;
                    },
                }
            }
        },
        VCell::Vector(handle) => {
            if depth == 0 {
                push_str(out, "...");
                return ;
            }
            out.push('#');
            out.push('(');
            let n = heap.vector_len(handle);
            let ghost slots = heap@.vector(handle);
            let mut i: usize = 0;
            assert(out@ + render_slots(heap@, slots, 0, (depth - 1) as nat) =~= target);
            while i < n
                invariant
                    depth > 0,
                    i <= n,
                    n == slots.len(),
                    slots == heap@.vector(handle),
                    out@ + render_slots(heap@, slots, i as int, (depth - 1) as nat) == target,
                decreases n - i,
            {
                if i > 0 {
                    out.push(' ');
                }
                let slot = heap.vector_get(handle, i).unwrap();
                push_value(heap, VCell::Ptr(slot), depth - 1, out);
                assert(out@ + render_slots(heap@, slots, i + 1, (depth - 1) as nat) =~= target);
                i += 1;
            }
            out.push(')');
            assert(out@ =~= target);
        },
        c => push_atom(heap, c, out),
    }
}

/// The text of a value.
pub fn write_value(heap: &Heap, v: VCell) -> (text: Vec<char>)
    ensures
        text@ == written(heap@, v),
{
    let mut out: Vec<char> = Vec::new();
    push_value(heap, v, RENDER_DEPTH, &mut out);
    assert(out@ =~= written(heap@, v));
    out
}

} // verus!
