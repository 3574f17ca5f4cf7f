//! Characters.
use crate::builtin::numeric::integer_of;
use crate::builtin::{pop_args, rendered_with};
use crate::error::{outcome, Error, ErrorView};
use crate::heap::{Heap, HeapView};
use crate::number::Number;
use crate::printer::{push_number, render_number, written};
use crate::text::{push_str, string_of};
use crate::unicode::{
    alphabetic, char_from_u32, char_is_alphabetic, char_is_lowercase, char_is_numeric,
    char_is_uppercase, char_is_whitespace, folded, lowercase, numeric, simple_lower,
    simple_upper, to_simple_lower, to_simple_upper, uppercase, whitespace,
};
use crate::vcell::{BuiltIn, VCell};
use crate::vm::Vm;
use vstd::prelude::*;

verus! {

/// The character that an argument stands for.
pub open spec fn char_of(h: HeapView, v: VCell) -> Result<char, ErrorView> {
    match h.deref(v) {
        VCell::Char(c) => Ok(c),
        c => Err(ErrorView::InvalidSyntax(written(h, c) + " is not a valid char"@)),
    }
}

/// The character that an argument stands for.
pub fn char_arg(heap: &Heap, v: VCell) -> (r: Result<char, Error>)
    ensures
        outcome(r) == char_of(heap@, v),
{
    match heap.get(v) {
        VCell::Char(c) => Ok(c),
        c => Err(Error::InvalidSyntax(rendered_with(heap, c, " is not a valid char"))),
    }
}

/// What a procedure of one character returns for that character.
pub open spec fn of_char(f: BuiltIn, c: char) -> VCell {
    match f {
        BuiltIn::CharAlphabetic => VCell::Bool(alphabetic(c)),
        BuiltIn::CharNumeric => VCell::Bool(numeric(c)),
        BuiltIn::CharWhitespace => VCell::Bool(whitespace(c)),
        BuiltIn::CharUpperCase => VCell::Bool(uppercase(c)),
        BuiltIn::CharLowerCase => VCell::Bool(lowercase(c)),
        BuiltIn::CharUpcase => VCell::Char(simple_upper(c)),
        BuiltIn::CharDowncase => VCell::Char(simple_lower(c)),
        BuiltIn::CharFoldcase => VCell::Char(folded(c)),
        BuiltIn::CharToInteger => VCell::Number(Number::Fixnum(c as u32 as i64)),
        BuiltIn::DigitValue => if '0' <= c <= '9' {
            VCell::Number(Number::Fixnum((c as u32 - 48) as i64))
        } else {
            VCell::Bool(false)
        },
        _ => VCell::Void,
    }
}

/// The result of a procedure of one character.
pub open spec fn char_unary_result(f: BuiltIn, h: HeapView, args: Seq<VCell>) -> Result<
    VCell,
    ErrorView,
> {
    match char_of(h, args[0]) {
        Err(e) => Err(e),
        Ok(c) => Ok(of_char(f, c)),
    }
}

/// `integer->char`: the character whose code the argument is. A whole
/// number that is no Unicode scalar value is not valid unicode.
pub open spec fn integer_to_char_result(h: HeapView, args: Seq<VCell>) -> Result<
    VCell,
    ErrorView,
> {
    match integer_of(h, args[0]) {
        Err(e) => Err(e),
        Ok(n) => if 0 <= n@.num <= u32::MAX && vstd::utf8::is_scalar(n@.num as u32) {
            Ok(VCell::Char(n@.num as u32 as char))
        } else {
            Err(ErrorView::InvalidSyntax(render_number(n) + " is not valid unicode"@))
        },
    }
}

/// How the character comparisons compare two characters: by their codes,
/// for those that ignore case by the codes of the folded characters.
pub open spec fn char_compares(f: BuiltIn, a: char, b: char) -> bool {
    match f {
        BuiltIn::CharEqual => a == b,
        BuiltIn::CharLt => a < b,
        BuiltIn::CharGt => a > b,
        BuiltIn::CharLtEq => a <= b,
        BuiltIn::CharGtEq => a >= b,
        BuiltIn::CharCiEqual => folded(a) == folded(b),
        BuiltIn::CharCiLt => folded(a) < folded(b),
        BuiltIn::CharCiGt => folded(a) > folded(b),
        BuiltIn::CharCiLtEq => folded(a) <= folded(b),
        BuiltIn::CharCiGtEq => folded(a) >= folded(b),
        _ => false,
    }
}

/// The characters that the arguments stand for; of several that are no
/// characters the first gives the error.
pub open spec fn chars_of(h: HeapView, args: Seq<VCell>) -> Result<Seq<char>, ErrorView>
    decreases args.len(),
{
    if args.len() == 0 {
        Ok(Seq::empty())
    } else {
        match chars_of(h, args.drop_last()) {
            Err(e) => Err(e),
            Ok(front) => match char_of(h, args.last()) {
                Err(e) => Err(e),
                Ok(c) => Ok(front.push(c)),
            },
        }
    }
}

/// Whether each character compares with the next as `f` asks.
pub open spec fn chars_in_order(f: BuiltIn, chars: Seq<char>) -> bool
    decreases chars.len(),
{
    if chars.len() < 2 {
        true
    } else {
        chars_in_order(f, chars.drop_last()) && char_compares(
            f,
            chars[chars.len() - 2],
            chars.last(),
        )
    }
}

/// A comparison of characters: all arguments have to be characters.
pub open spec fn char_comparison_result(f: BuiltIn, h: HeapView, args: Seq<VCell>) -> Result<
    VCell,
    ErrorView,
> {
    match chars_of(h, args) {
        Err(e) => Err(e),
        Ok(chars) => Ok(VCell::Bool(chars_in_order(f, chars))),
    }
}

/// The characters that the arguments stand for.
pub fn char_args(heap: &Heap, args: &Vec<VCell>) -> (r: Result<Vec<char>, Error>)
    ensures
        match r {
            Ok(v) => chars_of(heap@, args@) == Ok::<Seq<char>, ErrorView>(v@),
            Err(e) => chars_of(heap@, args@) == Err::<Seq<char>, ErrorView>(e@),
        },
{
    let mut out: Vec<char> = Vec::new();
    let mut failure: Option<Error> = None;
    let mut i: usize = 0;
    while i < args.len()
        invariant
            i <= args.len(),
            match failure {
                None => chars_of(heap@, args@.take(i as int)) == Ok::<Seq<char>, ErrorView>(out@),
                Some(e) => chars_of(heap@, args@.take(i as int)) == Err::<Seq<char>, ErrorView>(
                    e@,
                ),
            },
        decreases args.len() - i,
    {
        assert(args@.take(i + 1).drop_last() =~= args@.take(i as int));
        if failure.is_none() {
            match char_arg(heap, args[i]) {
                Ok(c) => {
                    out.push(c);
                },
                Err(e) => {
                    failure = Some(e);
                },
            }
        }
        i = i + 1;
    }
    assert(args@.take(args.len() as int) =~= args@);
    match failure {
        None => Ok(out),
        Some(e) => Err(e),
    }
}

pub fn compare_chars(f: BuiltIn, a: char, b: char) -> (r: bool)
    ensures
        r == char_compares(f, a, b),
{
    match f {
        BuiltIn::CharEqual => a == b,
        BuiltIn::CharLt => a < b,
        BuiltIn::CharGt => a > b,
        BuiltIn::CharLtEq => a <= b,
        BuiltIn::CharGtEq => a >= b,
        BuiltIn::CharCiEqual => to_simple_lower(a) == to_simple_lower(b),
        BuiltIn::CharCiLt => to_simple_lower(a) < to_simple_lower(b),
        BuiltIn::CharCiGt => to_simple_lower(a) > to_simple_lower(b),
        BuiltIn::CharCiLtEq => to_simple_lower(a) <= to_simple_lower(b),
        BuiltIn::CharCiGtEq => to_simple_lower(a) >= to_simple_lower(b),
        _ => false,
    }
}

/// Compares each character with the next.
pub fn char_comp(vm: &mut Vm, name: &str, f: BuiltIn) -> (r: Result<VCell, Error>)
    requires
        old(vm).wf(),
        name@ == crate::builtin::name(f),
        crate::builtin::min_args(f) == 1,
        crate::builtin::max_args(f) == None::<usize>,
        forall|h: HeapView, args: Seq<VCell>, g: HeapView, r: Result<VCell, ErrorView>|
            #[trigger] crate::builtin::effect(f, h, args, g, r) == (g == h && r
                == char_comparison_result(f, h, args)),
    ensures
        final(vm).wf(),
        crate::builtin::applied(f, *old(vm), *final(vm), r),
{
    let args = pop_args(vm, 1, None, name)?;
    let chars = char_args(&vm.heap, &args)?;
    let mut result = true;
    let mut i: usize = 1;
    assert(chars_in_order(f, chars@.take(1)));
    if chars.len() == 0 {
        return Ok(VCell::Bool(true));
    }
    while i < chars.len()
        invariant
            1 <= i <= chars.len(),
            result == chars_in_order(f, chars@.take(i as int)),
        decreases chars.len() - i,
    {
        assert(chars@.take(i + 1).drop_last() =~= chars@.take(i as int));
        if !compare_chars(f, chars[i - 1], chars[i]) {
            result = false;
        }
        i = i + 1;
    }
    assert(chars@.take(chars.len() as int) =~= chars@);
    Ok(VCell::Bool(result))
}

/// What a procedure of one character returns for that character.
pub fn apply_to_char(f: BuiltIn, c: char) -> (v: VCell)
    ensures
        v == of_char(f, c),
{
    match f {
        BuiltIn::CharAlphabetic => VCell::Bool(char_is_alphabetic(c)),
        BuiltIn::CharNumeric => VCell::Bool(char_is_numeric(c)),
        BuiltIn::CharWhitespace => VCell::Bool(char_is_whitespace(c)),
        BuiltIn::CharUpperCase => VCell::Bool(char_is_uppercase(c)),
        BuiltIn::CharLowerCase => VCell::Bool(char_is_lowercase(c)),
        BuiltIn::CharUpcase => VCell::Char(to_simple_upper(c)),
        BuiltIn::CharDowncase => VCell::Char(to_simple_lower(c)),
        BuiltIn::CharFoldcase => VCell::Char(to_simple_lower(c)),
        BuiltIn::CharToInteger => VCell::Number(Number::Fixnum(c as u32 as i64)),
        BuiltIn::DigitValue => if '0' <= c && c <= '9' {
            VCell::Number(Number::Fixnum((c as u32 - 48) as i64))
        } else {
            VCell::Bool(false)
        },
        _ => VCell::Void,
    }
}

/// Applies a procedure of one character.
pub fn char_unary(vm: &mut Vm, name: &str, f: BuiltIn) -> (r: Result<VCell, Error>)
    requires
        old(vm).wf(),
        name@ == crate::builtin::name(f),
        crate::builtin::min_args(f) == 1,
        crate::builtin::max_args(f) == Some(1usize),
        forall|h: HeapView, args: Seq<VCell>, g: HeapView, r: Result<VCell, ErrorView>|
            #[trigger] crate::builtin::effect(f, h, args, g, r) == (g == h && r
                == char_unary_result(f, h, args)),
    ensures
        final(vm).wf(),
        crate::builtin::applied(f, *old(vm), *final(vm), r),
{
    let args = pop_args(vm, 1, Some(1), name)?;
    let c = char_arg(&vm.heap, args[0])?;
    Ok(apply_to_char(f, c))
}

pub fn integer_to_char(vm: &mut Vm) -> (r: Result<VCell, Error>)
    requires
        old(vm).wf(),
    ensures
        final(vm).wf(),
        crate::builtin::applied(BuiltIn::IntegerToChar, *old(vm), *final(vm), r),
{
    let args = pop_args(vm, 1, Some(1), "integer->char")?;
    let n = crate::builtin::numeric::integer_arg(&vm.heap, args[0])?;
    let (code, _) = n.parts();
    if 0 <= code && code <= 0xffff_ffff {
        match char_from_u32(code as u32) {
            Some(c) => {
                return Ok(VCell::Char(c));
            },
            None => {},
        }
    }
    let mut text: Vec<char> = Vec::new();
    push_number(&mut text, n);
    push_str(&mut text, " is not valid unicode");
    assert(text@ =~= render_number(n) + " is not valid unicode"@);
    Err(Error::InvalidSyntax(string_of(&text)))
}

pub fn char_alphabetic(vm: &mut Vm) -> (r: Result<VCell, Error>)
    requires
        old(vm).wf(),
    ensures
        final(vm).wf(),
        crate::builtin::applied(BuiltIn::CharAlphabetic, *old(vm), *final(vm), r),
{
    char_unary(vm, "char-alphabetic?", BuiltIn::CharAlphabetic)
}

pub fn char_ci_equal(vm: &mut Vm) -> (r: Result<VCell, Error>)
    requires
        old(vm).wf(),
    ensures
        final(vm).wf(),
        crate::builtin::applied(BuiltIn::CharCiEqual, *old(vm), *final(vm), r),
{
    char_comp(vm, "char-ci=?", BuiltIn::CharCiEqual)
}

pub fn char_ci_gt(vm: &mut Vm) -> (r: Result<VCell, Error>)
    requires
        old(vm).wf(),
    ensures
        final(vm).wf(),
        crate::builtin::applied(BuiltIn::CharCiGt, *old(vm), *final(vm), r),
{
    char_comp(vm, "char-ci>?", BuiltIn::CharCiGt)
}

pub fn char_ci_gt_eq(vm: &mut Vm) -> (r: Result<VCell, Error>)
    requires
        old(vm).wf(),
    ensures
        final(vm).wf(),
        crate::builtin::applied(BuiltIn::CharCiGtEq, *old(vm), *final(vm), r),
{
    char_comp(vm, "char-ci>=?", BuiltIn::CharCiGtEq)
}

pub fn char_ci_lt(vm: &mut Vm) -> (r: Result<VCell, Error>)
    requires
        old(vm).wf(),
    ensures
        final(vm).wf(),
        crate::builtin::applied(BuiltIn::CharCiLt, *old(vm), *final(vm), r),
{
    char_comp(vm, "char-ci<?", BuiltIn::CharCiLt)
}

pub fn char_ci_lt_eq(vm: &mut Vm) -> (r: Result<VCell, Error>)
    requires
        old(vm).wf(),
    ensures
        final(vm).wf(),
        crate::builtin::applied(BuiltIn::CharCiLtEq, *old(vm), *final(vm), r),
{
    char_comp(vm, "char-ci<=?", BuiltIn::CharCiLtEq)
}

pub fn char_downcase(vm: &mut Vm) -> (r: Result<VCell, Error>)
    requires
        old(vm).wf(),
    ensures
        final(vm).wf(),
        crate::builtin::applied(BuiltIn::CharDowncase, *old(vm), *final(vm), r),
{
    char_unary(vm, "char-downcase", BuiltIn::CharDowncase)
}

pub fn char_equal(vm: &mut Vm) -> (r: Result<VCell, Error>)
    requires
        old(vm).wf(),
    ensures
        final(vm).wf(),
        crate::builtin::applied(BuiltIn::CharEqual, *old(vm), *final(vm), r),
{
    char_comp(vm, "char=?", BuiltIn::CharEqual)
}

pub fn char_foldcase(vm: &mut Vm) -> (r: Result<VCell, Error>)
    requires
        old(vm).wf(),
    ensures
        final(vm).wf(),
        crate::builtin::applied(BuiltIn::CharFoldcase, *old(vm), *final(vm), r),
{
    char_unary(vm, "char-foldcase", BuiltIn::CharFoldcase)
}

pub fn char_gt(vm: &mut Vm) -> (r: Result<VCell, Error>)
    requires
        old(vm).wf(),
    ensures
        final(vm).wf(),
        crate::builtin::applied(BuiltIn::CharGt, *old(vm), *final(vm), r),
{
    char_comp(vm, "char>?", BuiltIn::CharGt)
}

pub fn char_gt_eq(vm: &mut Vm) -> (r: Result<VCell, Error>)
    requires
        old(vm).wf(),
    ensures
        final(vm).wf(),
        crate::builtin::applied(BuiltIn::CharGtEq, *old(vm), *final(vm), r),
{
    char_comp(vm, "char>=?", BuiltIn::CharGtEq)
}

pub fn char_lower_case(vm: &mut Vm) -> (r: Result<VCell, Error>)
    requires
        old(vm).wf(),
    ensures
        final(vm).wf(),
        crate::builtin::applied(BuiltIn::CharLowerCase, *old(vm), *final(vm), r),
{
    char_unary(vm, "char-lower-case?", BuiltIn::CharLowerCase)
}

pub fn char_lt(vm: &mut Vm) -> (r: Result<VCell, Error>)
    requires
        old(vm).wf(),
    ensures
        final(vm).wf(),
        crate::builtin::applied(BuiltIn::CharLt, *old(vm), *final(vm), r),
{
    char_comp(vm, "char<?", BuiltIn::CharLt)
}

pub fn char_lt_eq(vm: &mut Vm) -> (r: Result<VCell, Error>)
    requires
        old(vm).wf(),
    ensures
        final(vm).wf(),
        crate::builtin::applied(BuiltIn::CharLtEq, *old(vm), *final(vm), r),
{
    char_comp(vm, "char<=?", BuiltIn::CharLtEq)
}

pub fn char_numeric(vm: &mut Vm) -> (r: Result<VCell, Error>)
    requires
        old(vm).wf(),
    ensures
        final(vm).wf(),
        crate::builtin::applied(BuiltIn::CharNumeric, *old(vm), *final(vm), r),
{
    char_unary(vm, "char-numeric?", BuiltIn::CharNumeric)
}

pub fn char_to_integer(vm: &mut Vm) -> (r: Result<VCell, Error>)
    requires
        old(vm).wf(),
    ensures
        final(vm).wf(),
        crate::builtin::applied(BuiltIn::CharToInteger, *old(vm), *final(vm), r),
{
    char_unary(vm, "char->integer", BuiltIn::CharToInteger)
}

pub fn char_upcase(vm: &mut Vm) -> (r: Result<VCell, Error>)
    requires
        old(vm).wf(),
    ensures
        final(vm).wf(),
        crate::builtin::applied(BuiltIn::CharUpcase, *old(vm), *final(vm), r),
{
    char_unary(vm, "char-upcase", BuiltIn::CharUpcase)
}

pub fn char_upper_case(vm: &mut Vm) -> (r: Result<VCell, Error>)
    requires
        old(vm).wf(),
    ensures
        final(vm).wf(),
        crate::builtin::applied(BuiltIn::CharUpperCase, *old(vm), *final(vm), r),
{
    char_unary(vm, "char-upper-case?", BuiltIn::CharUpperCase)
}

pub fn char_whitespace(vm: &mut Vm) -> (r: Result<VCell, Error>)
    requires
        old(vm).wf(),
    ensures
        final(vm).wf(),
        crate::builtin::applied(BuiltIn::CharWhitespace, *old(vm), *final(vm), r),
{
    char_unary(vm, "char-whitespace?", BuiltIn::CharWhitespace)
}

pub fn digit_value(vm: &mut Vm) -> (r: Result<VCell, Error>)
    requires
        old(vm).wf(),
    ensures
        final(vm).wf(),
        crate::builtin::applied(BuiltIn::DigitValue, *old(vm), *final(vm), r),
{
    char_unary(vm, "digit-value", BuiltIn::DigitValue)
}

} // verus!
