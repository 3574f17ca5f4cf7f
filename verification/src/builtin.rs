//! The native procedures.
//!
//! A native procedure is called like a compiled one: the arguments are
//! pushed left to right and the argument count on top of them. No frame is
//! set up for it. It takes the count and the arguments off the stack and
//! returns its value, which the caller pushes.
pub mod chars;
pub mod list;
pub mod numeric;
pub mod predicate;
pub mod strings;
pub mod vector;

use crate::error::{outcome, Error, ErrorView};
use crate::heap::{Heap, HeapView};
use crate::printer::{push_number, render_number, write_value, written};
use crate::text::{push_str, string_of, to_chars};
use crate::vcell::{BuiltIn, VCell};
use crate::vm::{with_slot, Machine, Vm};
use vstd::prelude::*;

verus! {

/// What a call finds on the stack.
pub enum Call {
    /// The arguments, first argument first.
    Args(Seq<VCell>),
    /// The call fails with this error before it looks at any argument.
    Fail(ErrorView),
}

/// Whether every cell is a value.
pub open spec fn all_values(cells: Seq<VCell>) -> bool {
    forall|i: int| 0 <= i < cells.len() ==> (#[trigger] cells[i]).is_value()
}

/// Whether every cell is a value of this heap.
pub open spec fn all_hold(h: HeapView, cells: Seq<VCell>) -> bool {
    forall|i: int| 0 <= i < cells.len() ==> h.holds(#[trigger] cells[i])
}

/// Whether a count of arguments is one that the procedure takes.
pub open spec fn arity_ok(n: usize, min: usize, max: Option<usize>) -> bool {
    min <= n && (max matches Some(m) ==> n <= m)
}

/// What the call of a procedure named `name`, which takes `min` to `max`
/// arguments, finds on the stack: the top cell has to be an argument count
/// that the procedure takes, and below it that many values.
pub open spec fn call(stack: Seq<VCell>, min: usize, max: Option<usize>, name: Seq<char>) -> Call {
    if stack.len() == 0 {
        Call::Fail(ErrorView::StackUnderflow)
    } else if let VCell::Argc(n) = stack.last() {
        if !arity_ok(n, min, max) {
            Call::Fail(ErrorView::InvalidNumArgs(name))
        } else if n >= stack.len() {
            Call::Fail(ErrorView::StackUnderflow)
        } else {
            let args = stack.subrange(stack.len() - 1 - n, stack.len() - 1);
            if all_values(args) {
                Call::Args(args)
            } else {
                Call::Fail(ErrorView::StackUnderflow)
            }
        }
    } else {
        Call::Fail(ErrorView::StackUnderflow)
    }
}

/// The stack below the frame of a call.
pub open spec fn below(stack: Seq<VCell>) -> Seq<VCell> {
    if stack.len() > 0 && stack.last() is Argc && stack.last()->Argc_0 < stack.len() {
        stack.take(stack.len() - 1 - stack.last()->Argc_0)
    } else {
        stack
    }
}

/// The stack without its top cell; an empty stack stays empty.
pub open spec fn taken(stack: Seq<VCell>) -> Seq<VCell> {
    if stack.len() > 0 {
        stack.drop_last()
    } else {
        stack
    }
}

/// The call failed with `e` at its frame: the top cell, which had to be
/// the argument count, is off the stack, and all else is as it was.
pub open spec fn failed(pre: Vm, post: Vm, r: Result<VCell, Error>, e: ErrorView) -> bool {
    &&& outcome(r) == Err::<VCell, ErrorView>(e)
    &&& post.heap@ == pre.heap@
    &&& post.globenv@ == pre.globenv@
    &&& post.stack@ == taken(pre.stack@)
}

/// The call took its frame off the stack and left the globals as they
/// were.
pub open spec fn returned(pre: Vm, post: Vm) -> bool {
    &&& post.stack@ == below(pre.stack@)
    &&& post.globenv@ == pre.globenv@
}

/// The Scheme name of a native procedure.
pub open spec fn name(f: BuiltIn) -> Seq<char> {
    match f {
        BuiltIn::Abs => "abs"@,
        BuiltIn::Append => "append"@,
        BuiltIn::Car => "car"@,
        BuiltIn::Cdr => "cdr"@,
        BuiltIn::CharAlphabetic => "char-alphabetic?"@,
        BuiltIn::CharCiEqual => "char-ci=?"@,
        BuiltIn::CharCiGt => "char-ci>?"@,
        BuiltIn::CharCiGtEq => "char-ci>=?"@,
        BuiltIn::CharCiLt => "char-ci<?"@,
        BuiltIn::CharCiLtEq => "char-ci<=?"@,
        BuiltIn::CharDowncase => "char-downcase"@,
        BuiltIn::CharEqual => "char=?"@,
        BuiltIn::CharFoldcase => "char-foldcase"@,
        BuiltIn::CharGt => "char>?"@,
        BuiltIn::CharGtEq => "char>=?"@,
        BuiltIn::CharLowerCase => "char-lower-case?"@,
        BuiltIn::CharLt => "char<?"@,
        BuiltIn::CharLtEq => "char<=?"@,
        BuiltIn::CharNumeric => "char-numeric?"@,
        BuiltIn::CharToInteger => "char->integer"@,
        BuiltIn::CharUpcase => "char-upcase"@,
        BuiltIn::CharUpperCase => "char-upper-case?"@,
        BuiltIn::CharWhitespace => "char-whitespace?"@,
        BuiltIn::Cons => "cons"@,
        BuiltIn::DigitValue => "digit-value"@,
        BuiltIn::Divide => "/"@,
        BuiltIn::Eq => "eq?"@,
        BuiltIn::Equal => "equal?"@,
        BuiltIn::Eqv => "eqv?"@,
        BuiltIn::Even => "even?"@,
        BuiltIn::Gt => ">"@,
        BuiltIn::GtEq => ">="@,
        BuiltIn::InexactExact => "inexact->exact"@,
        BuiltIn::IntegerToChar => "integer->char"@,
        BuiltIn::IsBoolean => "boolean?"@,
        BuiltIn::IsChar => "char?"@,
        BuiltIn::IsList => "list?"@,
        BuiltIn::IsNull => "null?"@,
        BuiltIn::IsNumber => "number?"@,
        BuiltIn::IsPair => "pair?"@,
        BuiltIn::IsPort => "port?"@,
        BuiltIn::IsProcedure => "procedure?"@,
        BuiltIn::IsString => "string?"@,
        BuiltIn::IsSymbol => "symbol?"@,
        BuiltIn::IsVector => "vector?"@,
        BuiltIn::ListRef => "list-ref"@,
        BuiltIn::ListTail => "list-tail"@,
        BuiltIn::ListToString => "list->string"@,
        BuiltIn::ListToVector => "list->vector"@,
        BuiltIn::Lt => "<"@,
        BuiltIn::LtEq => "<="@,
        BuiltIn::MakeString => "make-string"@,
        BuiltIn::MakeVector => "make-vector"@,
        BuiltIn::Minus => "-"@,
        BuiltIn::Multiply => "*"@,
        BuiltIn::Negative => "negative?"@,
        BuiltIn::Not => "not"@,
        BuiltIn::NumEqual => "="@,
        BuiltIn::Odd => "odd?"@,
        BuiltIn::Plus => "+"@,
        BuiltIn::Positive => "positive?"@,
        BuiltIn::Quotient => "quotient"@,
        BuiltIn::Remainder => "remainder"@,
        BuiltIn::Reverse => "reverse"@,
        BuiltIn::SetCar => "set-car!"@,
        BuiltIn::SetCdr => "set-cdr!"@,
        BuiltIn::String => "string"@,
        BuiltIn::StringAppend => "string-append"@,
        BuiltIn::StringCiEqual => "string-ci=?"@,
        BuiltIn::StringCiGt => "string-ci>?"@,
        BuiltIn::StringCiGtEq => "string-ci>=?"@,
        BuiltIn::StringCiLt => "string-ci<?"@,
        BuiltIn::StringCiLtEq => "string-ci<=?"@,
        BuiltIn::StringCopy => "string-copy"@,
        BuiltIn::StringDowncase => "string-downcase"@,
        BuiltIn::StringEqual => "string=?"@,
        BuiltIn::StringFill => "string-fill!"@,
        BuiltIn::StringFoldcase => "string-foldcase"@,
        BuiltIn::StringGt => "string>?"@,
        BuiltIn::StringGtEq => "string>=?"@,
        BuiltIn::StringLength => "string-length"@,
        BuiltIn::StringLt => "string<?"@,
        BuiltIn::StringLtEq => "string<=?"@,
        BuiltIn::StringRef => "string-ref"@,
        BuiltIn::StringSet => "string-set!"@,
        BuiltIn::StringToList => "string->list"@,
        BuiltIn::StringToSymbol => "string->symbol"@,
        BuiltIn::StringToVector => "string->vector"@,
        BuiltIn::StringUpcase => "string-upcase"@,
        BuiltIn::Substring => "substring"@,
        BuiltIn::SymbolEqual => "symbol=?"@,
        BuiltIn::SymbolToString => "symbol->string"@,
        BuiltIn::Vector => "vector"@,
        BuiltIn::VectorFill => "vector-fill!"@,
        BuiltIn::VectorLength => "vector-length"@,
        BuiltIn::VectorRef => "vector-ref"@,
        BuiltIn::VectorSet => "vector-set!"@,
        BuiltIn::VectorToList => "vector->list"@,
        BuiltIn::VectorToString => "vector->string"@,
        BuiltIn::Zero => "zero?"@,
    }
}

/// The least number of arguments that a native procedure takes.
pub open spec fn min_args(f: BuiltIn) -> usize {
    match f {
        BuiltIn::Abs => 1,
        BuiltIn::Append => 0,
        BuiltIn::Car => 1,
        BuiltIn::Cdr => 1,
        BuiltIn::CharAlphabetic => 1,
        BuiltIn::CharCiEqual => 1,
        BuiltIn::CharCiGt => 1,
        BuiltIn::CharCiGtEq => 1,
        BuiltIn::CharCiLt => 1,
        BuiltIn::CharCiLtEq => 1,
        BuiltIn::CharDowncase => 1,
        BuiltIn::CharEqual => 1,
        BuiltIn::CharFoldcase => 1,
        BuiltIn::CharGt => 1,
        BuiltIn::CharGtEq => 1,
        BuiltIn::CharLowerCase => 1,
        BuiltIn::CharLt => 1,
        BuiltIn::CharLtEq => 1,
        BuiltIn::CharNumeric => 1,
        BuiltIn::CharToInteger => 1,
        BuiltIn::CharUpcase => 1,
        BuiltIn::CharUpperCase => 1,
        BuiltIn::CharWhitespace => 1,
        BuiltIn::Cons => 2,
        BuiltIn::DigitValue => 1,
        BuiltIn::Divide => 1,
        BuiltIn::Eq => 2,
        BuiltIn::Equal => 2,
        BuiltIn::Eqv => 2,
        BuiltIn::Even => 1,
        BuiltIn::Gt => 1,
        BuiltIn::GtEq => 1,
        BuiltIn::InexactExact => 1,
        BuiltIn::IntegerToChar => 1,
        BuiltIn::IsBoolean => 1,
        BuiltIn::IsChar => 1,
        BuiltIn::IsList => 1,
        BuiltIn::IsNull => 1,
        BuiltIn::IsNumber => 1,
        BuiltIn::IsPair => 1,
        BuiltIn::IsPort => 1,
        BuiltIn::IsProcedure => 1,
        BuiltIn::IsString => 1,
        BuiltIn::IsSymbol => 1,
        BuiltIn::IsVector => 1,
        BuiltIn::ListRef => 2,
        BuiltIn::ListTail => 2,
        BuiltIn::ListToString => 1,
        BuiltIn::ListToVector => 1,
        BuiltIn::Lt => 1,
        BuiltIn::LtEq => 1,
        BuiltIn::MakeString => 1,
        BuiltIn::MakeVector => 1,
        BuiltIn::Minus => 1,
        BuiltIn::Multiply => 0,
        BuiltIn::Negative => 1,
        BuiltIn::Not => 1,
        BuiltIn::NumEqual => 1,
        BuiltIn::Odd => 1,
        BuiltIn::Plus => 0,
        BuiltIn::Positive => 1,
        BuiltIn::Quotient => 2,
        BuiltIn::Remainder => 2,
        BuiltIn::Reverse => 1,
        BuiltIn::SetCar => 2,
        BuiltIn::SetCdr => 2,
        BuiltIn::String => 0,
        BuiltIn::StringAppend => 0,
        BuiltIn::StringCiEqual => 1,
        BuiltIn::StringCiGt => 1,
        BuiltIn::StringCiGtEq => 1,
        BuiltIn::StringCiLt => 1,
        BuiltIn::StringCiLtEq => 1,
        BuiltIn::StringCopy => 1,
        BuiltIn::StringDowncase => 1,
        BuiltIn::StringEqual => 1,
        BuiltIn::StringFill => 2,
        BuiltIn::StringFoldcase => 1,
        BuiltIn::StringGt => 1,
        BuiltIn::StringGtEq => 1,
        BuiltIn::StringLength => 1,
        BuiltIn::StringLt => 1,
        BuiltIn::StringLtEq => 1,
        BuiltIn::StringRef => 2,
        BuiltIn::StringSet => 3,
        BuiltIn::StringToList => 1,
        BuiltIn::StringToSymbol => 1,
        BuiltIn::StringToVector => 1,
        BuiltIn::StringUpcase => 1,
        BuiltIn::Substring => 3,
        BuiltIn::SymbolEqual => 1,
        BuiltIn::SymbolToString => 1,
        BuiltIn::Vector => 0,
        BuiltIn::VectorFill => 2,
        BuiltIn::VectorLength => 1,
        BuiltIn::VectorRef => 2,
        BuiltIn::VectorSet => 3,
        BuiltIn::VectorToList => 1,
        BuiltIn::VectorToString => 1,
        BuiltIn::Zero => 1,
    }
}

/// The greatest number of arguments that a native procedure takes, if
/// there is one.
pub open spec fn max_args(f: BuiltIn) -> Option<usize> {
    match f {
        BuiltIn::Abs => Some(1),
        BuiltIn::Append => None,
        BuiltIn::Car => Some(1),
        BuiltIn::Cdr => Some(1),
        BuiltIn::CharAlphabetic => Some(1),
        BuiltIn::CharCiEqual => None,
        BuiltIn::CharCiGt => None,
        BuiltIn::CharCiGtEq => None,
        BuiltIn::CharCiLt => None,
        BuiltIn::CharCiLtEq => None,
        BuiltIn::CharDowncase => Some(1),
        BuiltIn::CharEqual => None,
        BuiltIn::CharFoldcase => Some(1),
        BuiltIn::CharGt => None,
        BuiltIn::CharGtEq => None,
        BuiltIn::CharLowerCase => Some(1),
        BuiltIn::CharLt => None,
        BuiltIn::CharLtEq => None,
        BuiltIn::CharNumeric => Some(1),
        BuiltIn::CharToInteger => Some(1),
        BuiltIn::CharUpcase => Some(1),
        BuiltIn::CharUpperCase => Some(1),
        BuiltIn::CharWhitespace => Some(1),
        BuiltIn::Cons => Some(2),
        BuiltIn::DigitValue => Some(1),
        BuiltIn::Divide => Some(2),
        BuiltIn::Eq => Some(2),
        BuiltIn::Equal => Some(2),
        BuiltIn::Eqv => Some(2),
        BuiltIn::Even => Some(1),
        BuiltIn::Gt => None,
        BuiltIn::GtEq => None,
        BuiltIn::InexactExact => Some(1),
        BuiltIn::IntegerToChar => Some(1),
        BuiltIn::IsBoolean => Some(1),
        BuiltIn::IsChar => Some(1),
        BuiltIn::IsList => Some(1),
        BuiltIn::IsNull => Some(1),
        BuiltIn::IsNumber => Some(1),
        BuiltIn::IsPair => Some(1),
        BuiltIn::IsPort => Some(1),
        BuiltIn::IsProcedure => Some(1),
        BuiltIn::IsString => Some(1),
        BuiltIn::IsSymbol => Some(1),
        BuiltIn::IsVector => Some(1),
        BuiltIn::ListRef => Some(2),
        BuiltIn::ListTail => Some(2),
        BuiltIn::ListToString => Some(1),
        BuiltIn::ListToVector => Some(1),
        BuiltIn::Lt => None,
        BuiltIn::LtEq => None,
        BuiltIn::MakeString => Some(2),
        BuiltIn::MakeVector => Some(2),
        BuiltIn::Minus => None,
        BuiltIn::Multiply => None,
        BuiltIn::Negative => Some(1),
        BuiltIn::Not => Some(1),
        BuiltIn::NumEqual => None,
        BuiltIn::Odd => Some(1),
        BuiltIn::Plus => None,
        BuiltIn::Positive => Some(1),
        BuiltIn::Quotient => Some(2),
        BuiltIn::Remainder => Some(2),
        BuiltIn::Reverse => Some(1),
        BuiltIn::SetCar => Some(2),
        BuiltIn::SetCdr => Some(2),
        BuiltIn::String => None,
        BuiltIn::StringAppend => None,
        BuiltIn::StringCiEqual => None,
        BuiltIn::StringCiGt => None,
        BuiltIn::StringCiGtEq => None,
        BuiltIn::StringCiLt => None,
        BuiltIn::StringCiLtEq => None,
        BuiltIn::StringCopy => Some(3),
        BuiltIn::StringDowncase => Some(1),
        BuiltIn::StringEqual => None,
        BuiltIn::StringFill => Some(4),
        BuiltIn::StringFoldcase => Some(1),
        BuiltIn::StringGt => None,
        BuiltIn::StringGtEq => None,
        BuiltIn::StringLength => Some(1),
        BuiltIn::StringLt => None,
        BuiltIn::StringLtEq => None,
        BuiltIn::StringRef => Some(2),
        BuiltIn::StringSet => Some(3),
        BuiltIn::StringToList => Some(3),
        BuiltIn::StringToSymbol => Some(1),
        BuiltIn::StringToVector => Some(3),
        BuiltIn::StringUpcase => Some(1),
        BuiltIn::Substring => Some(3),
        BuiltIn::SymbolEqual => None,
        BuiltIn::SymbolToString => Some(1),
        BuiltIn::Vector => None,
        BuiltIn::VectorFill => Some(2),
        BuiltIn::VectorLength => Some(1),
        BuiltIn::VectorRef => Some(2),
        BuiltIn::VectorSet => Some(3),
        BuiltIn::VectorToList => Some(1),
        BuiltIn::VectorToString => Some(3),
        BuiltIn::Zero => Some(1),
    }
}

/// What a native procedure does, given the heap `h` and its arguments:
/// the heap `g` that it leaves and what it returns. No procedure takes
/// anything out of the heap.
pub open spec fn effect(
    f: BuiltIn,
    h: HeapView,
    args: Seq<VCell>,
    g: HeapView,
    r: Result<VCell, ErrorView>,
) -> bool {
    match f {
        BuiltIn::Abs => g == h && r == numeric::abs_result(h, args),
        BuiltIn::Append => list::append_effect(h, args, g, r),
        BuiltIn::Car => g == h && r == list::car_result(h, args),
        BuiltIn::Cdr => g == h && r == list::cdr_result(h, args),
        BuiltIn::CharAlphabetic => g == h && r == chars::char_unary_result(f, h, args),
        BuiltIn::CharCiEqual => g == h && r == chars::char_comparison_result(f, h, args),
        BuiltIn::CharCiGt => g == h && r == chars::char_comparison_result(f, h, args),
        BuiltIn::CharCiGtEq => g == h && r == chars::char_comparison_result(f, h, args),
        BuiltIn::CharCiLt => g == h && r == chars::char_comparison_result(f, h, args),
        BuiltIn::CharCiLtEq => g == h && r == chars::char_comparison_result(f, h, args),
        BuiltIn::CharDowncase => g == h && r == chars::char_unary_result(f, h, args),
        BuiltIn::CharEqual => g == h && r == chars::char_comparison_result(f, h, args),
        BuiltIn::CharFoldcase => g == h && r == chars::char_unary_result(f, h, args),
        BuiltIn::CharGt => g == h && r == chars::char_comparison_result(f, h, args),
        BuiltIn::CharGtEq => g == h && r == chars::char_comparison_result(f, h, args),
        BuiltIn::CharLowerCase => g == h && r == chars::char_unary_result(f, h, args),
        BuiltIn::CharLt => g == h && r == chars::char_comparison_result(f, h, args),
        BuiltIn::CharLtEq => g == h && r == chars::char_comparison_result(f, h, args),
        BuiltIn::CharNumeric => g == h && r == chars::char_unary_result(f, h, args),
        BuiltIn::CharToInteger => g == h && r == chars::char_unary_result(f, h, args),
        BuiltIn::CharUpcase => g == h && r == chars::char_unary_result(f, h, args),
        BuiltIn::CharUpperCase => g == h && r == chars::char_unary_result(f, h, args),
        BuiltIn::CharWhitespace => g == h && r == chars::char_unary_result(f, h, args),
        BuiltIn::Cons => list::cons_effect(h, args, g, r),
        BuiltIn::DigitValue => g == h && r == chars::char_unary_result(f, h, args),
        BuiltIn::Divide => g == h && r == numeric::divide_result(h, args),
        BuiltIn::Eq => g == h && r == predicate::equivalence_result(f, h, args),
        BuiltIn::Equal => g == h && r == predicate::equivalence_result(f, h, args),
        BuiltIn::Eqv => g == h && r == predicate::equivalence_result(f, h, args),
        BuiltIn::Even => g == h && r == numeric::unary_result(f, h, args),
        BuiltIn::Gt => g == h && r == numeric::comparison_result(f, h, args),
        BuiltIn::GtEq => g == h && r == numeric::comparison_result(f, h, args),
        BuiltIn::InexactExact => g == h && r == numeric::inexact_exact_result(h, args),
        BuiltIn::IntegerToChar => g == h && r == chars::integer_to_char_result(h, args),
        BuiltIn::IsBoolean => g == h && r == predicate::predicate_result(f, h, args),
        BuiltIn::IsChar => g == h && r == predicate::predicate_result(f, h, args),
        BuiltIn::IsList => g == h && r == list::is_list_result(h, args),
        BuiltIn::IsNull => g == h && r == predicate::predicate_result(f, h, args),
        BuiltIn::IsNumber => g == h && r == predicate::predicate_result(f, h, args),
        BuiltIn::IsPair => g == h && r == predicate::predicate_result(f, h, args),
        BuiltIn::IsPort => g == h && r == predicate::predicate_result(f, h, args),
        BuiltIn::IsProcedure => g == h && r == predicate::predicate_result(f, h, args),
        BuiltIn::IsString => g == h && r == predicate::predicate_result(f, h, args),
        BuiltIn::IsSymbol => g == h && r == predicate::predicate_result(f, h, args),
        BuiltIn::IsVector => g == h && r == predicate::predicate_result(f, h, args),
        BuiltIn::ListRef => g == h && r == list::list_ref_result(h, args),
        BuiltIn::ListTail => g == h && r == list::list_tail_result(h, args),
        BuiltIn::ListToString => strings::string_maker_effect(f, h, args, g, r),
        BuiltIn::ListToVector => vector::list_to_vector_effect(h, args, g, r),
        BuiltIn::Lt => g == h && r == numeric::comparison_result(f, h, args),
        BuiltIn::LtEq => g == h && r == numeric::comparison_result(f, h, args),
        BuiltIn::MakeString => strings::string_maker_effect(f, h, args, g, r),
        BuiltIn::MakeVector => vector::make_vector_effect(h, args, g, r),
        BuiltIn::Minus => g == h && r == numeric::minus_result(h, args),
        BuiltIn::Multiply => g == h && r == numeric::multiply_result(h, args),
        BuiltIn::Negative => g == h && r == numeric::unary_result(f, h, args),
        BuiltIn::Not => g == h && r == predicate::predicate_result(f, h, args),
        BuiltIn::NumEqual => g == h && r == numeric::comparison_result(f, h, args),
        BuiltIn::Odd => g == h && r == numeric::unary_result(f, h, args),
        BuiltIn::Plus => g == h && r == numeric::plus_result(h, args),
        BuiltIn::Positive => g == h && r == numeric::unary_result(f, h, args),
        BuiltIn::Quotient => g == h && r == numeric::division_result(true, h, args),
        BuiltIn::Remainder => g == h && r == numeric::division_result(false, h, args),
        BuiltIn::Reverse => list::reverse_effect(h, args, g, r),
        BuiltIn::SetCar => list::set_part_effect(true, h, args, g, r),
        BuiltIn::SetCdr => list::set_part_effect(false, h, args, g, r),
        BuiltIn::String => strings::string_maker_effect(f, h, args, g, r),
        BuiltIn::StringAppend => strings::string_maker_effect(f, h, args, g, r),
        BuiltIn::StringCiEqual => g == h && r == strings::string_comparison_result(f, h, args),
        BuiltIn::StringCiGt => g == h && r == strings::string_comparison_result(f, h, args),
        BuiltIn::StringCiGtEq => g == h && r == strings::string_comparison_result(f, h, args),
        BuiltIn::StringCiLt => g == h && r == strings::string_comparison_result(f, h, args),
        BuiltIn::StringCiLtEq => g == h && r == strings::string_comparison_result(f, h, args),
        BuiltIn::StringCopy => strings::string_maker_effect(f, h, args, g, r),
        BuiltIn::StringDowncase => strings::string_maker_effect(f, h, args, g, r),
        BuiltIn::StringEqual => g == h && r == strings::string_comparison_result(f, h, args),
        BuiltIn::StringFill => strings::string_fill_effect(h, args, g, r),
        BuiltIn::StringFoldcase => strings::string_maker_effect(f, h, args, g, r),
        BuiltIn::StringGt => g == h && r == strings::string_comparison_result(f, h, args),
        BuiltIn::StringGtEq => g == h && r == strings::string_comparison_result(f, h, args),
        BuiltIn::StringLength => g == h && r == strings::string_length_result(h, args),
        BuiltIn::StringLt => g == h && r == strings::string_comparison_result(f, h, args),
        BuiltIn::StringLtEq => g == h && r == strings::string_comparison_result(f, h, args),
        BuiltIn::StringRef => g == h && r == strings::string_ref_result(h, args),
        BuiltIn::StringSet => strings::string_set_effect(h, args, g, r),
        BuiltIn::StringToList => strings::string_to_list_effect(h, args, g, r),
        BuiltIn::StringToSymbol => strings::string_to_symbol_effect(h, args, g, r),
        BuiltIn::StringToVector => strings::string_to_vector_effect(h, args, g, r),
        BuiltIn::StringUpcase => strings::string_maker_effect(f, h, args, g, r),
        BuiltIn::Substring => strings::string_maker_effect(f, h, args, g, r),
        BuiltIn::SymbolEqual => g == h && r == strings::symbol_equal_result(h, args),
        BuiltIn::SymbolToString => strings::string_maker_effect(f, h, args, g, r),
        BuiltIn::Vector => vector::vector_effect(h, args, g, r),
        BuiltIn::VectorFill => vector::vector_fill_effect(h, args, g, r),
        BuiltIn::VectorLength => g == h && r == vector::vector_length_result(h, args),
        BuiltIn::VectorRef => g == h && r == vector::vector_ref_result(h, args),
        BuiltIn::VectorSet => vector::vector_set_effect(h, args, g, r),
        BuiltIn::VectorToList => vector::vector_to_list_effect(h, args, g, r),
        BuiltIn::VectorToString => strings::string_maker_effect(f, h, args, g, r),
        BuiltIn::Zero => g == h && r == numeric::unary_result(f, h, args),
    }
}

/// The call of the native procedure `f` led from the machine `pre` to
/// the machine `post` and returned `r`: where the stack does not hold a
/// frame for `f`, the call fails; else the frame is gone and heap and
/// result are as [`effect`] says. A value that is returned is of the heap.
pub open spec fn applied(f: BuiltIn, pre: Vm, post: Vm, r: Result<VCell, Error>) -> bool {
    &&& r matches Ok(v) ==> post.heap@.holds(v)
    &&& pre.heap@.no_larger_than(post.heap@)
    &&& match call(pre.stack@, min_args(f), max_args(f), name(f)) {
        Call::Fail(e) => failed(pre, post, r, e),
        Call::Args(args) => returned(pre, post) && effect(f, pre.heap@, args, post.heap@, outcome(r)),
    }
}

/// Takes the top cell off the stack, which has to be the argument count.
/// It is an error if the stack is empty or the cell is no argument count
/// (`StackUnderflow`), or if the count is one that the procedure does not
/// take (`InvalidNumArgs`).
pub fn pop_argc(vm: &mut Vm, min: usize, max: Option<usize>, proc: &str) -> (r: Result<
    usize,
    Error,
>)
    ensures
        final(vm).heap@ == old(vm).heap@,
        final(vm).globenv@ == old(vm).globenv@,
        final(vm).stack@ == taken(old(vm).stack@),
        match r {
            Ok(n) => old(vm).stack@.len() > 0 && old(vm).stack@.last() == VCell::Argc(n)
                && arity_ok(n, min, max),
            Err(e) => if old(vm).stack@.len() > 0 && old(vm).stack@.last() is Argc {
                !arity_ok(old(vm).stack@.last()->Argc_0, min, max) && e@
                    == ErrorView::InvalidNumArgs(proc@)
            } else {
                e@ == ErrorView::StackUnderflow
            },
        },
{
    match vm.stack.pop()? {
        VCell::Argc(argc) => {
            let too_many = match max {
                Some(m) => argc > m,
                None => false,
            };
            if argc < min || too_many {
                Err(Error::InvalidNumArgs(proc.to_owned()))
            } else {
                Ok(argc)
            }
        },
        _ => Err(Error::StackUnderflow),
    }
}

/// Takes the frame of a call off the stack and returns the arguments,
/// first argument first. Where the stack holds no frame for the call only
/// the top cell is taken off.
pub fn pop_args(vm: &mut Vm, min: usize, max: Option<usize>, proc: &str) -> (r: Result<
    Vec<VCell>,
    Error,
>)
    requires
        old(vm).wf(),
    ensures
        final(vm).wf(),
        r matches Ok(v) ==> all_hold(final(vm).heap@, v@),
        final(vm).heap@ == old(vm).heap@,
        final(vm).globenv@ == old(vm).globenv@,
        match call(old(vm).stack@, min, max, proc@) {
            Call::Args(args) => r matches Ok(v) && v@ == args && final(vm).stack@ == below(
                old(vm).stack@,
            ) && all_values(args) && arity_ok(args.len() as usize, min, max),
            Call::Fail(e) => r matches Err(x) && x@ == e && final(vm).stack@ == taken(
                old(vm).stack@,
            ),
        },
{
    let popped = pop_argc(vm, min, max, proc);
    assert forall|i: int| 0 <= i < vm.stack@.len() implies vm.heap@.valid(
        #[trigger] vm.stack@[i],
    ) by {
        assert(old(vm).heap@.valid(old(vm).stack@[i]));
    }
    let argc = popped?;
    match vm.stack.pop_many(argc) {
        None => Err(Error::StackUnderflow),
        Some(args) => {
            assert(args@ =~= old(vm).stack@.subrange(
                old(vm).stack@.len() - 1 - argc,
                old(vm).stack@.len() - 1,
            ));
            assert(vm.stack@ =~= below(old(vm).stack@));
            assert forall|i: int| 0 <= i < args@.len() implies vm.heap@.valid(
                #[trigger] args@[i],
            ) by {
                assert(args@[i] == old(vm).stack@[old(vm).stack@.len() - 1 - argc + i]);
            }
            if are_values(&args) {
                assert forall|i: int| 0 <= i < vm.stack@.len() implies vm.heap@.valid(
                    #[trigger] vm.stack@[i],
                ) by {
                    assert(old(vm).heap@.valid(old(vm).stack@[i]));
                }
                Ok(args)
            } else {
                let mut i: usize = 0;
                while i < args.len()
                    invariant
                        i <= args.len(),
                        vm.heap@ == old(vm).heap@,
                        vm.globenv@ == old(vm).globenv@,
                        vm.stack@ == below(old(vm).stack@) + args@.take(i as int),
                    decreases args.len() - i,
                {
                    vm.stack.push(args[i]);
                    assert(vm.stack@ =~= below(old(vm).stack@) + args@.take(i + 1));
                    i = i + 1;
                }
                assert(args@.take(args.len() as int) =~= args@);
                assert(vm.stack@ =~= old(vm).stack@.drop_last());
                assert forall|k: int| 0 <= k < vm.stack@.len() implies vm.heap@.valid(
                    #[trigger] vm.stack@[k],
                ) by {
                    assert(old(vm).heap@.valid(old(vm).stack@[k]));
                }
                Err(Error::StackUnderflow)
            }
        },
    }
}

/// Whether every cell is a value.
pub fn are_values(cells: &Vec<VCell>) -> (b: bool)
    ensures
        b == all_values(cells@),
{
    let mut i: usize = 0;
    while i < cells.len()
        invariant
            i <= cells.len(),
            forall|j: int| 0 <= j < i ==> (#[trigger] cells@[j]).is_value(),
        decreases cells.len() - i,
    {
        if !cells[i].value() {
            return false;
        }
        i += 1;
    }
    true
}

/// The text of a cell, as a string.
pub fn rendered(heap: &Heap, c: VCell) -> (s: String)
    ensures
        s@ == written(heap@, c),
{
    string_of(&write_value(heap, c))
}

/// The text of a cell followed by `rest`, as a string.
pub fn rendered_with(heap: &Heap, c: VCell, rest: &str) -> (s: String)
    ensures
        s@ == written(heap@, c) + rest@,
{
    let mut text = write_value(heap, c);
    push_str(&mut text, rest);
    string_of(&text)
}

/// The index that a value stands for: a whole number that is not
/// negative and fits. Anything else is no valid index.
pub open spec fn index_of(h: HeapView, v: VCell) -> Result<usize, ErrorView> {
    match h.deref(v) {
        VCell::Number(n) => if n.spec_is_integer() && 0 <= n@.num <= usize::MAX {
            Ok(n@.num as usize)
        } else {
            Err(ErrorView::InvalidSyntax(render_number(n) + " is not a valid index"@))
        },
        c => Err(ErrorView::InvalidSyntax(written(h, c) + " is not a valid index"@)),
    }
}

/// The index that an argument stands for.
pub fn index_arg(heap: &Heap, v: VCell) -> (r: Result<usize, Error>)
    ensures
        outcome(r) == index_of(heap@, v),
{
    match heap.get(v) {
        VCell::Number(n) => match n.to_usize() {
            Some(i) => Ok(i),
            None => {
                let mut text: Vec<char> = Vec::new();
                push_number(&mut text, n);
                push_str(&mut text, " is not a valid index");
                assert(text@ =~= render_number(n) + " is not a valid index"@);
                Err(Error::InvalidSyntax(string_of(&text)))
            },
        },
        c => Err(Error::InvalidSyntax(rendered_with(heap, c, " is not a valid index"))),
    }
}

/// How many native procedures there are.
pub const CATALOG_LEN: usize = 100;

/// The native procedures, in the order in which they are registered.
pub open spec fn entry(i: int) -> BuiltIn {
    if i == 0 {
        BuiltIn::Abs
    } else if i == 1 {
        BuiltIn::Append
    } else if i == 2 {
        BuiltIn::Car
    } else if i == 3 {
        BuiltIn::Cdr
    } else if i == 4 {
        BuiltIn::CharAlphabetic
    } else if i == 5 {
        BuiltIn::CharCiEqual
    } else if i == 6 {
        BuiltIn::CharCiGt
    } else if i == 7 {
        BuiltIn::CharCiGtEq
    } else if i == 8 {
        BuiltIn::CharCiLt
    } else if i == 9 {
        BuiltIn::CharCiLtEq
    } else if i == 10 {
        BuiltIn::CharDowncase
    } else if i == 11 {
        BuiltIn::CharEqual
    } else if i == 12 {
        BuiltIn::CharFoldcase
    } else if i == 13 {
        BuiltIn::CharGt
    } else if i == 14 {
        BuiltIn::CharGtEq
    } else if i == 15 {
        BuiltIn::CharLowerCase
    } else if i == 16 {
        BuiltIn::CharLt
    } else if i == 17 {
        BuiltIn::CharLtEq
    } else if i == 18 {
        BuiltIn::CharNumeric
    } else if i == 19 {
        BuiltIn::CharToInteger
    } else if i == 20 {
        BuiltIn::CharUpcase
    } else if i == 21 {
        BuiltIn::CharUpperCase
    } else if i == 22 {
        BuiltIn::CharWhitespace
    } else if i == 23 {
        BuiltIn::Cons
    } else if i == 24 {
        BuiltIn::DigitValue
    } else if i == 25 {
        BuiltIn::Divide
    } else if i == 26 {
        BuiltIn::Eq
    } else if i == 27 {
        BuiltIn::Equal
    } else if i == 28 {
        BuiltIn::Eqv
    } else if i == 29 {
        BuiltIn::Even
    } else if i == 30 {
        BuiltIn::Gt
    } else if i == 31 {
        BuiltIn::GtEq
    } else if i == 32 {
        BuiltIn::InexactExact
    } else if i == 33 {
        BuiltIn::IntegerToChar
    } else if i == 34 {
        BuiltIn::IsBoolean
    } else if i == 35 {
        BuiltIn::IsChar
    } else if i == 36 {
        BuiltIn::IsList
    } else if i == 37 {
        BuiltIn::IsNull
    } else if i == 38 {
        BuiltIn::IsNumber
    } else if i == 39 {
        BuiltIn::IsPair
    } else if i == 40 {
        BuiltIn::IsPort
    } else if i == 41 {
        BuiltIn::IsProcedure
    } else if i == 42 {
        BuiltIn::IsString
    } else if i == 43 {
        BuiltIn::IsSymbol
    } else if i == 44 {
        BuiltIn::IsVector
    } else if i == 45 {
        BuiltIn::ListRef
    } else if i == 46 {
        BuiltIn::ListTail
    } else if i == 47 {
        BuiltIn::ListToString
    } else if i == 48 {
        BuiltIn::ListToVector
    } else if i == 49 {
        BuiltIn::Lt
    } else if i == 50 {
        BuiltIn::LtEq
    } else if i == 51 {
        BuiltIn::MakeString
    } else if i == 52 {
        BuiltIn::MakeVector
    } else if i == 53 {
        BuiltIn::Minus
    } else if i == 54 {
        BuiltIn::Multiply
    } else if i == 55 {
        BuiltIn::Negative
    } else if i == 56 {
        BuiltIn::Not
    } else if i == 57 {
        BuiltIn::NumEqual
    } else if i == 58 {
        BuiltIn::Odd
    } else if i == 59 {
        BuiltIn::Plus
    } else if i == 60 {
        BuiltIn::Positive
    } else if i == 61 {
        BuiltIn::Quotient
    } else if i == 62 {
        BuiltIn::Remainder
    } else if i == 63 {
        BuiltIn::Reverse
    } else if i == 64 {
        BuiltIn::SetCar
    } else if i == 65 {
        BuiltIn::SetCdr
    } else if i == 66 {
        BuiltIn::String
    } else if i == 67 {
        BuiltIn::StringAppend
    } else if i == 68 {
        BuiltIn::StringCiEqual
    } else if i == 69 {
        BuiltIn::StringCiGt
    } else if i == 70 {
        BuiltIn::StringCiGtEq
    } else if i == 71 {
        BuiltIn::StringCiLt
    } else if i == 72 {
        BuiltIn::StringCiLtEq
    } else if i == 73 {
        BuiltIn::StringCopy
    } else if i == 74 {
        BuiltIn::StringDowncase
    } else if i == 75 {
        BuiltIn::StringEqual
    } else if i == 76 {
        BuiltIn::StringFill
    } else if i == 77 {
        BuiltIn::StringFoldcase
    } else if i == 78 {
        BuiltIn::StringGt
    } else if i == 79 {
        BuiltIn::StringGtEq
    } else if i == 80 {
        BuiltIn::StringLength
    } else if i == 81 {
        BuiltIn::StringLt
    } else if i == 82 {
        BuiltIn::StringLtEq
    } else if i == 83 {
        BuiltIn::StringRef
    } else if i == 84 {
        BuiltIn::StringSet
    } else if i == 85 {
        BuiltIn::StringToList
    } else if i == 86 {
        BuiltIn::StringToSymbol
    } else if i == 87 {
        BuiltIn::StringToVector
    } else if i == 88 {
        BuiltIn::StringUpcase
    } else if i == 89 {
        BuiltIn::Substring
    } else if i == 90 {
        BuiltIn::SymbolEqual
    } else if i == 91 {
        BuiltIn::SymbolToString
    } else if i == 92 {
        BuiltIn::Vector
    } else if i == 93 {
        BuiltIn::VectorFill
    } else if i == 94 {
        BuiltIn::VectorLength
    } else if i == 95 {
        BuiltIn::VectorRef
    } else if i == 96 {
        BuiltIn::VectorSet
    } else if i == 97 {
        BuiltIn::VectorToList
    } else if i == 98 {
        BuiltIn::VectorToString
    } else {
        BuiltIn::Zero
    }
}

/// The native procedure at a place of the catalog.
pub fn entry_at(i: usize) -> (f: BuiltIn)
    requires
        i < CATALOG_LEN,
    ensures
        f == entry(i as int),
{
    if i == 0 {
        BuiltIn::Abs
    } else if i == 1 {
        BuiltIn::Append
    } else if i == 2 {
        BuiltIn::Car
    } else if i == 3 {
        BuiltIn::Cdr
    } else if i == 4 {
        BuiltIn::CharAlphabetic
    } else if i == 5 {
        BuiltIn::CharCiEqual
    } else if i == 6 {
        BuiltIn::CharCiGt
    } else if i == 7 {
        BuiltIn::CharCiGtEq
    } else if i == 8 {
        BuiltIn::CharCiLt
    } else if i == 9 {
        BuiltIn::CharCiLtEq
    } else if i == 10 {
        BuiltIn::CharDowncase
    } else if i == 11 {
        BuiltIn::CharEqual
    } else if i == 12 {
        BuiltIn::CharFoldcase
    } else if i == 13 {
        BuiltIn::CharGt
    } else if i == 14 {
        BuiltIn::CharGtEq
    } else if i == 15 {
        BuiltIn::CharLowerCase
    } else if i == 16 {
        BuiltIn::CharLt
    } else if i == 17 {
        BuiltIn::CharLtEq
    } else if i == 18 {
        BuiltIn::CharNumeric
    } else if i == 19 {
        BuiltIn::CharToInteger
    } else if i == 20 {
        BuiltIn::CharUpcase
    } else if i == 21 {
        BuiltIn::CharUpperCase
    } else if i == 22 {
        BuiltIn::CharWhitespace
    } else if i == 23 {
        BuiltIn::Cons
    } else if i == 24 {
        BuiltIn::DigitValue
    } else if i == 25 {
        BuiltIn::Divide
    } else if i == 26 {
        BuiltIn::Eq
    } else if i == 27 {
        BuiltIn::Equal
    } else if i == 28 {
        BuiltIn::Eqv
    } else if i == 29 {
        BuiltIn::Even
    } else if i == 30 {
        BuiltIn::Gt
    } else if i == 31 {
        BuiltIn::GtEq
    } else if i == 32 {
        BuiltIn::InexactExact
    } else if i == 33 {
        BuiltIn::IntegerToChar
    } else if i == 34 {
        BuiltIn::IsBoolean
    } else if i == 35 {
        BuiltIn::IsChar
    } else if i == 36 {
        BuiltIn::IsList
    } else if i == 37 {
        BuiltIn::IsNull
    } else if i == 38 {
        BuiltIn::IsNumber
    } else if i == 39 {
        BuiltIn::IsPair
    } else if i == 40 {
        BuiltIn::IsPort
    } else if i == 41 {
        BuiltIn::IsProcedure
    } else if i == 42 {
        BuiltIn::IsString
    } else if i == 43 {
        BuiltIn::IsSymbol
    } else if i == 44 {
        BuiltIn::IsVector
    } else if i == 45 {
        BuiltIn::ListRef
    } else if i == 46 {
        BuiltIn::ListTail
    } else if i == 47 {
        BuiltIn::ListToString
    } else if i == 48 {
        BuiltIn::ListToVector
    } else if i == 49 {
        BuiltIn::Lt
    } else if i == 50 {
        BuiltIn::LtEq
    } else if i == 51 {
        BuiltIn::MakeString
    } else if i == 52 {
        BuiltIn::MakeVector
    } else if i == 53 {
        BuiltIn::Minus
    } else if i == 54 {
        BuiltIn::Multiply
    } else if i == 55 {
        BuiltIn::Negative
    } else if i == 56 {
        BuiltIn::Not
    } else if i == 57 {
        BuiltIn::NumEqual
    } else if i == 58 {
        BuiltIn::Odd
    } else if i == 59 {
        BuiltIn::Plus
    } else if i == 60 {
        BuiltIn::Positive
    } else if i == 61 {
        BuiltIn::Quotient
    } else if i == 62 {
        BuiltIn::Remainder
    } else if i == 63 {
        BuiltIn::Reverse
    } else if i == 64 {
        BuiltIn::SetCar
    } else if i == 65 {
        BuiltIn::SetCdr
    } else if i == 66 {
        BuiltIn::String
    } else if i == 67 {
        BuiltIn::StringAppend
    } else if i == 68 {
        BuiltIn::StringCiEqual
    } else if i == 69 {
        BuiltIn::StringCiGt
    } else if i == 70 {
        BuiltIn::StringCiGtEq
    } else if i == 71 {
        BuiltIn::StringCiLt
    } else if i == 72 {
        BuiltIn::StringCiLtEq
    } else if i == 73 {
        BuiltIn::StringCopy
    } else if i == 74 {
        BuiltIn::StringDowncase
    } else if i == 75 {
        BuiltIn::StringEqual
    } else if i == 76 {
        BuiltIn::StringFill
    } else if i == 77 {
        BuiltIn::StringFoldcase
    } else if i == 78 {
        BuiltIn::StringGt
    } else if i == 79 {
        BuiltIn::StringGtEq
    } else if i == 80 {
        BuiltIn::StringLength
    } else if i == 81 {
        BuiltIn::StringLt
    } else if i == 82 {
        BuiltIn::StringLtEq
    } else if i == 83 {
        BuiltIn::StringRef
    } else if i == 84 {
        BuiltIn::StringSet
    } else if i == 85 {
        BuiltIn::StringToList
    } else if i == 86 {
        BuiltIn::StringToSymbol
    } else if i == 87 {
        BuiltIn::StringToVector
    } else if i == 88 {
        BuiltIn::StringUpcase
    } else if i == 89 {
        BuiltIn::Substring
    } else if i == 90 {
        BuiltIn::SymbolEqual
    } else if i == 91 {
        BuiltIn::SymbolToString
    } else if i == 92 {
        BuiltIn::Vector
    } else if i == 93 {
        BuiltIn::VectorFill
    } else if i == 94 {
        BuiltIn::VectorLength
    } else if i == 95 {
        BuiltIn::VectorRef
    } else if i == 96 {
        BuiltIn::VectorSet
    } else if i == 97 {
        BuiltIn::VectorToList
    } else if i == 98 {
        BuiltIn::VectorToString
    } else {
        BuiltIn::Zero
    }
}

/// The Scheme name of a native procedure.
pub fn name_of(f: BuiltIn) -> (s: &'static str)
    ensures
        s@ == name(f),
{
    match f {
        BuiltIn::Abs => "abs",
        BuiltIn::Append => "append",
        BuiltIn::Car => "car",
        BuiltIn::Cdr => "cdr",
        BuiltIn::CharAlphabetic => "char-alphabetic?",
        BuiltIn::CharCiEqual => "char-ci=?",
        BuiltIn::CharCiGt => "char-ci>?",
        BuiltIn::CharCiGtEq => "char-ci>=?",
        BuiltIn::CharCiLt => "char-ci<?",
        BuiltIn::CharCiLtEq => "char-ci<=?",
        BuiltIn::CharDowncase => "char-downcase",
        BuiltIn::CharEqual => "char=?",
        BuiltIn::CharFoldcase => "char-foldcase",
        BuiltIn::CharGt => "char>?",
        BuiltIn::CharGtEq => "char>=?",
        BuiltIn::CharLowerCase => "char-lower-case?",
        BuiltIn::CharLt => "char<?",
        BuiltIn::CharLtEq => "char<=?",
        BuiltIn::CharNumeric => "char-numeric?",
        BuiltIn::CharToInteger => "char->integer",
        BuiltIn::CharUpcase => "char-upcase",
        BuiltIn::CharUpperCase => "char-upper-case?",
        BuiltIn::CharWhitespace => "char-whitespace?",
        BuiltIn::Cons => "cons",
        BuiltIn::DigitValue => "digit-value",
        BuiltIn::Divide => "/",
        BuiltIn::Eq => "eq?",
        BuiltIn::Equal => "equal?",
        BuiltIn::Eqv => "eqv?",
        BuiltIn::Even => "even?",
        BuiltIn::Gt => ">",
        BuiltIn::GtEq => ">=",
        BuiltIn::InexactExact => "inexact->exact",
        BuiltIn::IntegerToChar => "integer->char",
        BuiltIn::IsBoolean => "boolean?",
        BuiltIn::IsChar => "char?",
        BuiltIn::IsList => "list?",
        BuiltIn::IsNull => "null?",
        BuiltIn::IsNumber => "number?",
        BuiltIn::IsPair => "pair?",
        BuiltIn::IsPort => "port?",
        BuiltIn::IsProcedure => "procedure?",
        BuiltIn::IsString => "string?",
        BuiltIn::IsSymbol => "symbol?",
        BuiltIn::IsVector => "vector?",
        BuiltIn::ListRef => "list-ref",
        BuiltIn::ListTail => "list-tail",
        BuiltIn::ListToString => "list->string",
        BuiltIn::ListToVector => "list->vector",
        BuiltIn::Lt => "<",
        BuiltIn::LtEq => "<=",
        BuiltIn::MakeString => "make-string",
        BuiltIn::MakeVector => "make-vector",
        BuiltIn::Minus => "-",
        BuiltIn::Multiply => "*",
        BuiltIn::Negative => "negative?",
        BuiltIn::Not => "not",
        BuiltIn::NumEqual => "=",
        BuiltIn::Odd => "odd?",
        BuiltIn::Plus => "+",
        BuiltIn::Positive => "positive?",
        BuiltIn::Quotient => "quotient",
        BuiltIn::Remainder => "remainder",
        BuiltIn::Reverse => "reverse",
        BuiltIn::SetCar => "set-car!",
        BuiltIn::SetCdr => "set-cdr!",
        BuiltIn::String => "string",
        BuiltIn::StringAppend => "string-append",
        BuiltIn::StringCiEqual => "string-ci=?",
        BuiltIn::StringCiGt => "string-ci>?",
        BuiltIn::StringCiGtEq => "string-ci>=?",
        BuiltIn::StringCiLt => "string-ci<?",
        BuiltIn::StringCiLtEq => "string-ci<=?",
        BuiltIn::StringCopy => "string-copy",
        BuiltIn::StringDowncase => "string-downcase",
        BuiltIn::StringEqual => "string=?",
        BuiltIn::StringFill => "string-fill!",
        BuiltIn::StringFoldcase => "string-foldcase",
        BuiltIn::StringGt => "string>?",
        BuiltIn::StringGtEq => "string>=?",
        BuiltIn::StringLength => "string-length",
        BuiltIn::StringLt => "string<?",
        BuiltIn::StringLtEq => "string<=?",
        BuiltIn::StringRef => "string-ref",
        BuiltIn::StringSet => "string-set!",
        BuiltIn::StringToList => "string->list",
        BuiltIn::StringToSymbol => "string->symbol",
        BuiltIn::StringToVector => "string->vector",
        BuiltIn::StringUpcase => "string-upcase",
        BuiltIn::Substring => "substring",
        BuiltIn::SymbolEqual => "symbol=?",
        BuiltIn::SymbolToString => "symbol->string",
        BuiltIn::Vector => "vector",
        BuiltIn::VectorFill => "vector-fill!",
        BuiltIn::VectorLength => "vector-length",
        BuiltIn::VectorRef => "vector-ref",
        BuiltIn::VectorSet => "vector-set!",
        BuiltIn::VectorToList => "vector->list",
        BuiltIn::VectorToString => "vector->string",
        BuiltIn::Zero => "zero?",
    }
}

/// Calls a native procedure on the frame that lies on the stack.
pub fn call_builtin(vm: &mut Vm, f: BuiltIn) -> (r: Result<VCell, Error>)
    requires
        old(vm).wf(),
    ensures
        final(vm).wf(),
        applied(f, *old(vm), *final(vm), r),
{
    match f {
        BuiltIn::Abs => numeric::abs(vm),
        BuiltIn::Append => list::append(vm),
        BuiltIn::Car => list::car(vm),
        BuiltIn::Cdr => list::cdr(vm),
        BuiltIn::CharAlphabetic => chars::char_alphabetic(vm),
        BuiltIn::CharCiEqual => chars::char_ci_equal(vm),
        BuiltIn::CharCiGt => chars::char_ci_gt(vm),
        BuiltIn::CharCiGtEq => chars::char_ci_gt_eq(vm),
        BuiltIn::CharCiLt => chars::char_ci_lt(vm),
        BuiltIn::CharCiLtEq => chars::char_ci_lt_eq(vm),
        BuiltIn::CharDowncase => chars::char_downcase(vm),
        BuiltIn::CharEqual => chars::char_equal(vm),
        BuiltIn::CharFoldcase => chars::char_foldcase(vm),
        BuiltIn::CharGt => chars::char_gt(vm),
        BuiltIn::CharGtEq => chars::char_gt_eq(vm),
        BuiltIn::CharLowerCase => chars::char_lower_case(vm),
        BuiltIn::CharLt => chars::char_lt(vm),
        BuiltIn::CharLtEq => chars::char_lt_eq(vm),
        BuiltIn::CharNumeric => chars::char_numeric(vm),
        BuiltIn::CharToInteger => chars::char_to_integer(vm),
        BuiltIn::CharUpcase => chars::char_upcase(vm),
        BuiltIn::CharUpperCase => chars::char_upper_case(vm),
        BuiltIn::CharWhitespace => chars::char_whitespace(vm),
        BuiltIn::Cons => list::cons(vm),
        BuiltIn::DigitValue => chars::digit_value(vm),
        BuiltIn::Divide => numeric::divide(vm),
        BuiltIn::Eq => predicate::eq(vm),
        BuiltIn::Equal => predicate::equal(vm),
        BuiltIn::Eqv => predicate::eqv(vm),
        BuiltIn::Even => numeric::even(vm),
        BuiltIn::Gt => numeric::gt(vm),
        BuiltIn::GtEq => numeric::gteq(vm),
        BuiltIn::InexactExact => numeric::inexact_exact(vm),
        BuiltIn::IntegerToChar => chars::integer_to_char(vm),
        BuiltIn::IsBoolean => predicate::is_boolean(vm),
        BuiltIn::IsChar => predicate::is_char(vm),
        BuiltIn::IsList => list::is_list(vm),
        BuiltIn::IsNull => predicate::is_null(vm),
        BuiltIn::IsNumber => predicate::is_number(vm),
        BuiltIn::IsPair => predicate::is_pair(vm),
        BuiltIn::IsPort => predicate::is_port(vm),
        BuiltIn::IsProcedure => predicate::is_procedure(vm),
        BuiltIn::IsString => predicate::is_string(vm),
        BuiltIn::IsSymbol => predicate::is_symbol(vm),
        BuiltIn::IsVector => predicate::is_vector(vm),
        BuiltIn::ListRef => list::list_ref(vm),
        BuiltIn::ListTail => list::list_tail(vm),
        BuiltIn::ListToString => strings::list_to_string(vm),
        BuiltIn::ListToVector => vector::list_to_vector(vm),
        BuiltIn::Lt => numeric::lt(vm),
        BuiltIn::LtEq => numeric::lteq(vm),
        BuiltIn::MakeString => strings::make_string(vm),
        BuiltIn::MakeVector => vector::make_vector(vm),
        BuiltIn::Minus => numeric::minus(vm),
        BuiltIn::Multiply => numeric::multiply(vm),
        BuiltIn::Negative => numeric::negative(vm),
        BuiltIn::Not => predicate::not(vm),
        BuiltIn::NumEqual => numeric::num_equal(vm),
        BuiltIn::Odd => numeric::odd(vm),
        BuiltIn::Plus => numeric::plus(vm),
        BuiltIn::Positive => numeric::positive(vm),
        BuiltIn::Quotient => numeric::quotient(vm),
        BuiltIn::Remainder => numeric::remainder(vm),
        BuiltIn::Reverse => list::reverse(vm),
        BuiltIn::SetCar => list::set_car(vm),
        BuiltIn::SetCdr => list::set_cdr(vm),
        BuiltIn::String => strings::string_of_chars(vm),
        BuiltIn::StringAppend => strings::string_append(vm),
        BuiltIn::StringCiEqual => strings::string_ci_equal(vm),
        BuiltIn::StringCiGt => strings::string_ci_gt(vm),
        BuiltIn::StringCiGtEq => strings::string_ci_gt_eq(vm),
        BuiltIn::StringCiLt => strings::string_ci_lt(vm),
        BuiltIn::StringCiLtEq => strings::string_ci_lt_eq(vm),
        BuiltIn::StringCopy => strings::string_copy(vm),
        BuiltIn::StringDowncase => strings::string_downcase(vm),
        BuiltIn::StringEqual => strings::string_equal(vm),
        BuiltIn::StringFill => strings::string_fill(vm),
        BuiltIn::StringFoldcase => strings::string_foldcase(vm),
        BuiltIn::StringGt => strings::string_gt(vm),
        BuiltIn::StringGtEq => strings::string_gt_eq(vm),
        BuiltIn::StringLength => strings::string_length(vm),
        BuiltIn::StringLt => strings::string_lt(vm),
        BuiltIn::StringLtEq => strings::string_lt_eq(vm),
        BuiltIn::StringRef => strings::string_ref(vm),
        BuiltIn::StringSet => strings::string_set(vm),
        BuiltIn::StringToList => strings::string_to_list(vm),
        BuiltIn::StringToSymbol => strings::string_to_symbol(vm),
        BuiltIn::StringToVector => strings::string_to_vector(vm),
        BuiltIn::StringUpcase => strings::string_upcase(vm),
        BuiltIn::Substring => strings::substring(vm),
        BuiltIn::SymbolEqual => strings::symbol_equal(vm),
        BuiltIn::SymbolToString => strings::symbol_to_string(vm),
        BuiltIn::Vector => vector::vector(vm),
        BuiltIn::VectorFill => vector::vector_fill(vm),
        BuiltIn::VectorLength => vector::vector_length(vm),
        BuiltIn::VectorRef => vector::vector_ref(vm),
        BuiltIn::VectorSet => vector::vector_set(vm),
        BuiltIn::VectorToList => vector::vector_to_list(vm),
        BuiltIn::VectorToString => strings::vector_to_string(vm),
        BuiltIn::Zero => numeric::zero(vm),
    }
}

/// The machine after a native procedure was registered under a name: a
/// new cell holds the procedure, the name is interned, and the global
/// slot of that symbol points to the new cell.
pub open spec fn registered(m: Machine, name: Seq<char>, f: BuiltIn) -> Machine {
    let heap = m.heap.put(VCell::BuiltIn(f)).interned(name);
    let slot = heap.handle_of(name);
    Machine {
        heap,
        stack: m.stack,
        globals: with_slot(m.globals, slot).update(
            slot as int,
            VCell::Ptr(m.heap.cells.len() as usize),
        ),
    }
}

/// The machine after the first `n` procedures of the catalog were
/// registered, each under its name, in order.
pub open spec fn loaded(m: Machine, n: nat) -> Machine
    decreases n,
{
    if n == 0 {
        m
    } else {
        registered(loaded(m, (n - 1) as nat), name(entry(n - 1)), entry(n - 1))
    }
}

impl Vm {
    /// Registers every native procedure under its name, and `remainder`
    /// under the name `%` as well.
    pub fn load_builtins(&mut self)
        requires
            old(self).wf(),
        ensures
            final(self).wf(),
            final(self)@ == registered(
                loaded(old(self)@, CATALOG_LEN as nat),
                "%"@,
                BuiltIn::Remainder,
            ),
    {
        let mut i: usize = 0;
        while i < CATALOG_LEN
            invariant
                self.wf(),
                i <= CATALOG_LEN,
                self@ == loaded(old(self)@, i as nat),
            decreases CATALOG_LEN - i,
        {
            let f = entry_at(i);
            self.load_builtin(name_of(f), f);
            i = i + 1;
        }
        self.load_builtin("%", BuiltIn::Remainder);
    }

    /// Registers a native procedure under a name.
    pub fn load_builtin(&mut self, symbol: &str, func: BuiltIn)
        requires
            old(self).wf(),
        ensures
            final(self).wf(),
            final(self)@ == registered(old(self)@, symbol@, func),
    {
        let syscall = self.heap.put(VCell::BuiltIn(func));
        match self.heap.intern(to_chars(symbol)) {
            VCell::Symbol(handle) => {
                let slot = self.globenv.get_binding(handle);
                self.globenv.put_slot(slot, syscall);
                assert forall|i: int| 0 <= i < self.globenv@.len() implies self.heap@.holds(
                    #[trigger] self.globenv@[i],
                ) by {
                    if i != slot && i < old(self).globenv@.len() {
                        assert(old(self).heap@.holds(old(self).globenv@[i]));
                    }
                }
                assert forall|i: int| 0 <= i < self.stack@.len() implies self.heap@.valid(
                    #[trigger] self.stack@[i],
                ) by {
                    assert(old(self).heap@.valid(old(self).stack@[i]));
                }
            },
            _ => {},
        }
    }

    /// A machine with the native procedures registered.
    pub fn new() -> (vm: Vm)
        ensures
            vm.wf(),
            vm@ == registered(
                loaded(crate::vm::blank(), CATALOG_LEN as nat),
                "%"@,
                BuiltIn::Remainder,
            ),
    {
        let mut vm = Vm::empty();
        vm.load_builtins();
        vm
    }
}

} // verus!
