//! Arithmetic and comparison.
use crate::builtin::{all_hold, pop_args, rendered, rendered_with};
use crate::error::{outcome, Error, ErrorView};
use crate::heap::{Heap, HeapView};
use crate::number::Number;
use crate::printer::{push_number, render_number, written};
use crate::text::{push_str, string_of};
use crate::vcell::{BuiltIn, VCell};
use crate::vm::Vm;
use vstd::prelude::*;

verus! {

/// The number that an argument stands for; anything else is no valid
/// number.
pub open spec fn number_of(h: HeapView, v: VCell) -> Result<Number, ErrorView> {
    match h.deref(v) {
        VCell::Number(n) => Ok(n),
        c => Err(ErrorView::InvalidSyntax(written(h, c) + " is not a valid number"@)),
    }
}

/// The whole number that an argument stands for.
pub open spec fn integer_of(h: HeapView, v: VCell) -> Result<Number, ErrorView> {
    match number_of(h, v) {
        Ok(n) => if n.spec_is_integer() {
            Ok(n)
        } else {
            Err(ErrorView::InvalidSyntax(render_number(n) + " is not a valid integer"@))
        },
        Err(e) => Err(e),
    }
}

/// The number that an operand of the procedure `name` stands for.
pub open spec fn operand(name: Seq<char>, h: HeapView, v: VCell) -> Result<Number, ErrorView> {
    match h.deref(v) {
        VCell::Number(n) => Ok(n),
        c => Err(ErrorView::InvalidArgs(name, "number"@, written(h, c))),
    }
}

/// The error of the procedure `name` for a result that no number holds.
pub open spec fn out_of_range(name: Seq<char>) -> ErrorView {
    ErrorView::InvalidSyntax(name + ": result is out of range"@)
}

/// The result of an operation of `name` as a value, or the error where
/// there is none.
pub open spec fn checked_value(name: Seq<char>, r: Option<Number>) -> Result<VCell, ErrorView> {
    match r {
        Some(x) => Ok(VCell::Number(x)),
        None => Err(out_of_range(name)),
    }
}

/// The sum (or, for `product`, the product) of the operands, taken from
/// the last operand to the first: the operands behind the first are
/// folded first. The first error on that way is the error of the whole.
pub open spec fn fold(product: bool, name: Seq<char>, h: HeapView, args: Seq<VCell>) -> Result<
    Number,
    ErrorView,
>
    decreases args.len(),
{
    if args.len() == 0 {
        Ok(
            Number::Fixnum(
                if product {
                    1
                } else {
                    0
                },
            ),
        )
    } else {
        match fold(product, name, h, args.drop_first()) {
            Err(e) => Err(e),
            Ok(acc) => match operand(name, h, args[0]) {
                Err(e) => Err(e),
                Ok(n) => match (if product {
                    acc.spec_mul(n)
                } else {
                    acc.spec_add(n)
                }) {
                    Some(x) => Ok(x),
                    None => Err(out_of_range(name)),
                },
            },
        }
    }
}

/// A number as the value that a procedure returns.
pub open spec fn as_value(r: Result<Number, ErrorView>) -> Result<VCell, ErrorView> {
    match r {
        Ok(n) => Ok(VCell::Number(n)),
        Err(e) => Err(e),
    }
}

/// `+`: the sum of the arguments, zero without any.
pub open spec fn plus_result(h: HeapView, args: Seq<VCell>) -> Result<VCell, ErrorView> {
    as_value(fold(false, "+"@, h, args))
}

/// `*`: the product of the arguments, one without any.
pub open spec fn multiply_result(h: HeapView, args: Seq<VCell>) -> Result<VCell, ErrorView> {
    as_value(fold(true, "*"@, h, args))
}

/// `-`: the first argument less the sum of the others; the negation of
/// a single argument.
pub open spec fn minus_result(h: HeapView, args: Seq<VCell>) -> Result<VCell, ErrorView> {
    match fold(false, "-"@, h, args.skip(1)) {
        Err(e) => Err(e),
        Ok(rest) => match operand("-"@, h, args[0]) {
            Err(e) => Err(e),
            Ok(n) => checked_value(
                "-"@,
                if args.len() == 1 {
                    Number::Fixnum(0).spec_sub(n)
                } else {
                    n.spec_sub(rest)
                },
            ),
        },
    }
}

/// `/`: the first argument by the second, or one by a single argument.
/// The divisor is looked at first. A divisor of zero is an error.
pub open spec fn divide_result(h: HeapView, args: Seq<VCell>) -> Result<VCell, ErrorView> {
    match number_of(h, args.last()) {
        Err(e) => Err(e),
        Ok(y) => if y.spec_is_zero() {
            Err(ErrorView::InvalidSyntax("/ is undefined for 0"@))
        } else if args.len() == 1 {
            checked_value("/"@, Number::Fixnum(1).spec_div(y))
        } else {
            match number_of(h, args[0]) {
                Err(e) => Err(e),
                Ok(x) => checked_value("/"@, x.spec_div(y)),
            }
        },
    }
}

/// `remainder` (or, for `quotient`, that): both arguments have to be
/// whole numbers, the second is looked at first, and it may not be zero.
pub open spec fn division_result(quotient: bool, h: HeapView, args: Seq<VCell>) -> Result<
    VCell,
    ErrorView,
> {
    let name = if quotient {
        "quotient"@
    } else {
        "remainder"@
    };
    match integer_of(h, args[1]) {
        Err(e) => Err(e),
        Ok(y) => match integer_of(h, args[0]) {
            Err(e) => Err(e),
            Ok(x) => if y.spec_is_zero() {
                Err(ErrorView::InvalidSyntax(name + " is undefined for 0"@))
            } else {
                match (if quotient {
                    x.spec_quotient(y)
                } else {
                    x.spec_remainder(y)
                }) {
                    Some(r) => Ok(VCell::Number(r)),
                    None => Err(
                        ErrorView::InvalidSyntax(
                            name + " is undefined for "@ + render_number(x) + " % "@
                                + render_number(y),
                        ),
                    ),
                }
            },
        },
    }
}

/// `abs`: the absolute value.
pub open spec fn abs_result(h: HeapView, args: Seq<VCell>) -> Result<VCell, ErrorView> {
    match number_of(h, args[0]) {
        Err(e) => Err(e),
        Ok(x) => checked_value("abs"@, x.spec_abs()),
    }
}

/// `inexact->exact`: every number of this machine is exact and is
/// returned as it is.
pub open spec fn inexact_exact_result(h: HeapView, args: Seq<VCell>) -> Result<VCell, ErrorView> {
    as_value(number_of(h, args[0]))
}

/// How `=`, `<`, `>`, `<=` and `>=` compare two numbers.
pub open spec fn compares(f: BuiltIn, a: Number, b: Number) -> bool {
    match f {
        BuiltIn::NumEqual => a.spec_eq(b),
        BuiltIn::Lt => a.spec_lt(b),
        BuiltIn::Gt => b.spec_lt(a),
        BuiltIn::LtEq => !b.spec_lt(a),
        BuiltIn::GtEq => !a.spec_lt(b),
        _ => false,
    }
}

/// Whether the arguments are numbers throughout and each compares with
/// the next as `f` asks.
pub open spec fn in_order(f: BuiltIn, h: HeapView, args: Seq<VCell>) -> bool
    decreases args.len(),
{
    if args.len() == 0 {
        true
    } else {
        &&& in_order(f, h, args.drop_last())
        &&& h.deref(args.last()) is Number
        &&& args.len() >= 2 ==> compares(
            f,
            h.deref(args[args.len() - 2])->Number_0,
            h.deref(args.last())->Number_0,
        )
    }
}

/// A comparison: true where all arguments are numbers and each compares
/// with the next; false otherwise, never an error.
pub open spec fn comparison_result(f: BuiltIn, h: HeapView, args: Seq<VCell>) -> Result<
    VCell,
    ErrorView,
> {
    Ok(VCell::Bool(in_order(f, h, args)))
}

/// What `zero?`, `positive?`, `negative?`, `odd?` and `even?` say of a
/// number. A number that is no whole number leaves no remainder of zero:
/// it counts as odd.
pub open spec fn number_is(f: BuiltIn, n: Number) -> bool {
    match f {
        BuiltIn::Zero => n.spec_eq(Number::Fixnum(0)),
        BuiltIn::Positive => Number::Fixnum(0).spec_lt(n),
        BuiltIn::Negative => n.spec_lt(Number::Fixnum(0)),
        BuiltIn::Odd => n.spec_remainder(Number::Fixnum(2)) != Some(Number::Fixnum(0)),
        BuiltIn::Even => n.spec_remainder(Number::Fixnum(2)) == Some(Number::Fixnum(0)),
        _ => false,
    }
}

/// A predicate on one number: false for what is no number.
pub open spec fn unary_result(f: BuiltIn, h: HeapView, args: Seq<VCell>) -> Result<
    VCell,
    ErrorView,
> {
    Ok(
        VCell::Bool(
            match h.deref(args[0]) {
                VCell::Number(n) => number_is(f, n),
                _ => false,
            },
        ),
    )
}

/// The number that an argument stands for.
pub fn number_arg(heap: &Heap, v: VCell) -> (r: Result<Number, Error>)
    requires
        heap.wf(),
        heap@.holds(v),
    ensures
        outcome(r) == number_of(heap@, v),
        r matches Ok(n) ==> n.valid(),
{
    match heap.get(v) {
        VCell::Number(n) => Ok(n),
        c => Err(Error::InvalidSyntax(rendered_with(heap, c, " is not a valid number"))),
    }
}

/// The whole number that an argument stands for.
pub fn integer_arg(heap: &Heap, v: VCell) -> (r: Result<Number, Error>)
    requires
        heap.wf(),
        heap@.holds(v),
    ensures
        outcome(r) == integer_of(heap@, v),
        r matches Ok(n) ==> n.valid(),
{
    let n = number_arg(heap, v)?;
    if n.is_integer() {
        Ok(n)
    } else {
        let mut text: Vec<char> = Vec::new();
        push_number(&mut text, n);
        push_str(&mut text, " is not a valid integer");
        assert(text@ =~= render_number(n) + " is not a valid integer"@);
        Err(Error::InvalidSyntax(string_of(&text)))
    }
}

/// The number that an operand of the procedure `name` stands for.
pub fn operand_arg(heap: &Heap, name: &str, v: VCell) -> (r: Result<Number, Error>)
    requires
        heap.wf(),
        heap@.holds(v),
    ensures
        outcome(r) == operand(name@, heap@, v),
        r matches Ok(n) ==> n.valid(),
{
    match heap.get(v) {
        VCell::Number(n) => Ok(n),
        c => Err(Error::InvalidArgs(name.to_owned(), "number".to_owned(), rendered(heap, c))),
    }
}

pub fn out_of_range_error(name: &str) -> (e: Error)
    ensures
        e@ == out_of_range(name@),
{
    let mut text: Vec<char> = Vec::new();
    push_str(&mut text, name);
    push_str(&mut text, ": result is out of range");
    assert(text@ =~= name@ + ": result is out of range"@);
    Error::InvalidSyntax(string_of(&text))
}

/// The result of an operation as a value.
pub fn checked(name: &str, r: Option<Number>) -> (v: Result<VCell, Error>)
    ensures
        outcome(v) == checked_value(name@, r),
{
    match r {
        Some(x) => Ok(VCell::Number(x)),
        None => Err(out_of_range_error(name)),
    }
}

/// Sum or product of the operands from `from` on.
pub fn accumulate(heap: &Heap, args: &Vec<VCell>, from: usize, product: bool, name: &str) -> (r:
    Result<Number, Error>)
    requires
        heap.wf(),
        all_hold(heap@, args@),
        from <= args.len(),
    ensures
        outcome(r) == fold(product, name@, heap@, args@.skip(from as int)),
        r matches Ok(n) ==> n.valid(),
{
    let mut acc = Number::Fixnum(
        if product {
            1
        } else {
            0
        },
    );
    let mut i = args.len();
    assert(args@.skip(i as int) =~= Seq::<VCell>::empty());
    while i > from
        invariant
            heap.wf(),
            all_hold(heap@, args@),
            from <= i <= args.len(),
            acc.valid(),
            fold(product, name@, heap@, args@.skip(i as int)) == Ok::<Number, ErrorView>(acc),
        decreases i,
    {
        i = i - 1;
        let ghost rest = args@.skip(i as int);
        assert(rest.drop_first() =~= args@.skip(i + 1));
        assert(rest[0] == args@[i as int]);
        proof {
            if i > from {
                lemma_fold_error(product, name@, heap@, args@.skip(from as int), i - from);
                assert(args@.skip(from as int).skip(i - from) =~= rest);
            } else {
                assert(args@.skip(from as int) =~= rest);
            }
        }
        let n = operand_arg(heap, name, args[i])?;
        let next = if product {
            acc.mul(n)
        } else {
            acc.add(n)
        };
        match next {
            Some(x) => {
                acc = x;
            },
            None => {
                return Err(out_of_range_error(name));
            },
        }
    }
    Ok(acc)
}

/// An error among the operands from `k` on is the error of all of them.
pub proof fn lemma_fold_error(
    product: bool,
    name: Seq<char>,
    h: HeapView,
    args: Seq<VCell>,
    k: int,
)
    requires
        0 <= k <= args.len(),
    ensures
        fold(product, name, h, args.skip(k)) is Err ==> fold(product, name, h, args) == fold(
            product,
            name,
            h,
            args.skip(k),
        ),
    decreases k,
{
    if k > 0 {
        assert(args.skip(k - 1).drop_first() =~= args.skip(k));
        lemma_fold_error(product, name, h, args, k - 1);
    } else {
        assert(args.skip(0) =~= args);
    }
}

pub fn plus(vm: &mut Vm) -> (r: Result<VCell, Error>)
    requires
        old(vm).wf(),
    ensures
        final(vm).wf(),
        crate::builtin::applied(BuiltIn::Plus, *old(vm), *final(vm), r),
{
    let args = pop_args(vm, 0, None, "+")?;
    assert(args@.skip(0) =~= args@);
    let sum = accumulate(&vm.heap, &args, 0, false, "+")?;
    Ok(VCell::Number(sum))
}

pub fn multiply(vm: &mut Vm) -> (r: Result<VCell, Error>)
    requires
        old(vm).wf(),
    ensures
        final(vm).wf(),
        crate::builtin::applied(BuiltIn::Multiply, *old(vm), *final(vm), r),
{
    let args = pop_args(vm, 0, None, "*")?;
    assert(args@.skip(0) =~= args@);
    let product = accumulate(&vm.heap, &args, 0, true, "*")?;
    Ok(VCell::Number(product))
}

pub fn minus(vm: &mut Vm) -> (r: Result<VCell, Error>)
    requires
        old(vm).wf(),
    ensures
        final(vm).wf(),
        crate::builtin::applied(BuiltIn::Minus, *old(vm), *final(vm), r),
{
    let args = pop_args(vm, 1, None, "-")?;
    let rest = accumulate(&vm.heap, &args, 1, false, "-")?;
    let n = operand_arg(&vm.heap, "-", args[0])?;
    if args.len() == 1 {
        checked("-", Number::Fixnum(0).sub(n))
    } else {
        checked("-", n.sub(rest))
    }
}

pub fn divide(vm: &mut Vm) -> (r: Result<VCell, Error>)
    requires
        old(vm).wf(),
    ensures
        final(vm).wf(),
        crate::builtin::applied(BuiltIn::Divide, *old(vm), *final(vm), r),
{
    let args = pop_args(vm, 1, Some(2), "/")?;
    let y = number_arg(&vm.heap, args[args.len() - 1])?;
    if y.is_zero() {
        return Err(Error::InvalidSyntax("/ is undefined for 0".to_owned()));
    }
    if args.len() == 1 {
        checked("/", Number::Fixnum(1).div(y))
    } else {
        let x = number_arg(&vm.heap, args[0])?;
        checked("/", x.div(y))
    }
}

/// The error for a division of whole numbers that has no result.
fn undefined_error(quotient: bool, x: Number, y: Number) -> (e: Error)
    ensures
        e@ == ErrorView::InvalidSyntax(
            (if quotient {
                "quotient"@
            } else {
                "remainder"@
            }) + " is undefined for "@ + render_number(x) + " % "@ + render_number(y),
        ),
{
    let mut text: Vec<char> = Vec::new();
    if quotient {
        push_str(&mut text, "quotient");
    } else {
        push_str(&mut text, "remainder");
    }
    push_str(&mut text, " is undefined for ");
    push_number(&mut text, x);
    push_str(&mut text, " % ");
    push_number(&mut text, y);
    assert(text@ =~= (if quotient {
        "quotient"@
    } else {
        "remainder"@
    }) + " is undefined for "@ + render_number(x) + " % "@ + render_number(y));
    Error::InvalidSyntax(string_of(&text))
}

/// `remainder` or `quotient` of the two arguments.
fn division(heap: &Heap, args: &Vec<VCell>, quotient: bool) -> (r: Result<VCell, Error>)
    requires
        heap.wf(),
        all_hold(heap@, args@),
        args.len() == 2,
    ensures
        outcome(r) == division_result(quotient, heap@, args@),
        r matches Ok(v) ==> heap@.holds(v),
{
    let y = integer_arg(heap, args[1])?;
    let x = integer_arg(heap, args[0])?;
    if y.is_zero() {
        let mut text: Vec<char> = Vec::new();
        if quotient {
            push_str(&mut text, "quotient");
        } else {
            push_str(&mut text, "remainder");
        }
        push_str(&mut text, " is undefined for 0");
        assert(text@ =~= (if quotient {
            "quotient"@
        } else {
            "remainder"@
        }) + " is undefined for 0"@);
        return Err(Error::InvalidSyntax(string_of(&text)));
    }
    let result = if quotient {
        x.quotient(y)
    } else {
        x.remainder(y)
    };
    match result {
        Some(n) => Ok(VCell::Number(n)),
        None => Err(undefined_error(quotient, x, y)),
    }
}

pub fn remainder(vm: &mut Vm) -> (r: Result<VCell, Error>)
    requires
        old(vm).wf(),
    ensures
        final(vm).wf(),
        crate::builtin::applied(BuiltIn::Remainder, *old(vm), *final(vm), r),
{
    let args = pop_args(vm, 2, Some(2), "remainder")?;
    division(&vm.heap, &args, false)
}

pub fn quotient(vm: &mut Vm) -> (r: Result<VCell, Error>)
    requires
        old(vm).wf(),
    ensures
        final(vm).wf(),
        crate::builtin::applied(BuiltIn::Quotient, *old(vm), *final(vm), r),
{
    let args = pop_args(vm, 2, Some(2), "quotient")?;
    division(&vm.heap, &args, true)
}

pub fn abs(vm: &mut Vm) -> (r: Result<VCell, Error>)
    requires
        old(vm).wf(),
    ensures
        final(vm).wf(),
        crate::builtin::applied(BuiltIn::Abs, *old(vm), *final(vm), r),
{
    let args = pop_args(vm, 1, Some(1), "abs")?;
    let x = number_arg(&vm.heap, args[0])?;
    checked("abs", x.abs())
}

pub fn inexact_exact(vm: &mut Vm) -> (r: Result<VCell, Error>)
    requires
        old(vm).wf(),
    ensures
        final(vm).wf(),
        crate::builtin::applied(BuiltIn::InexactExact, *old(vm), *final(vm), r),
{
    let args = pop_args(vm, 1, Some(1), "inexact->exact")?;
    let x = number_arg(&vm.heap, args[0])?;
    Ok(VCell::Number(x))
}

/// Whether two numbers compare as `f` asks.
pub fn compare(f: BuiltIn, a: Number, b: Number) -> (r: bool)
    ensures
        r == compares(f, a, b),
{
    match f {
        BuiltIn::NumEqual => a.same_value(b),
        BuiltIn::Lt => a.less_than(b),
        BuiltIn::Gt => b.less_than(a),
        BuiltIn::LtEq => !b.less_than(a),
        BuiltIn::GtEq => !a.less_than(b),
        _ => false,
    }
}

/// Compares each argument with the next.
pub fn num_comp(vm: &mut Vm, name: &str, f: BuiltIn) -> (r: Result<VCell, Error>)
    requires
        old(vm).wf(),
        name@ == crate::builtin::name(f),
        crate::builtin::min_args(f) == 1,
        crate::builtin::max_args(f) == None::<usize>,
        forall|h: HeapView, args: Seq<VCell>, g: HeapView, r: Result<VCell, ErrorView>|
            #[trigger] crate::builtin::effect(f, h, args, g, r) == (g == h && r
                == comparison_result(f, h, args)),
    ensures
        final(vm).wf(),
        crate::builtin::applied(f, *old(vm), *final(vm), r),
{
    let args = pop_args(vm, 1, None, name)?;
    let ghost h = vm.heap@;
    let mut result = true;
    let mut i: usize = 0;
    while i < args.len()
        invariant
            i <= args.len(),
            h == vm.heap@,
            result == in_order(f, h, args@.take(i as int)),
        decreases args.len() - i,
    {
        assert(args@.take(i + 1).drop_last() =~= args@.take(i as int));
        match vm.heap.get(args[i]) {
            VCell::Number(y) => {
                if i > 0 {
                    match vm.heap.get(args[i - 1]) {
                        VCell::Number(x) => {
                            if !compare(f, x, y) {
                                result = false;
                            }
                        },
                        _ => {
                            result = false;
                        },
                    }
                }
            },
            _ => {
                result = false;
            },
        }
        i = i + 1;
    }
    assert(args@.take(args.len() as int) =~= args@);
    Ok(VCell::Bool(result))
}

pub fn num_equal(vm: &mut Vm) -> (r: Result<VCell, Error>)
    requires
        old(vm).wf(),
    ensures
        final(vm).wf(),
        crate::builtin::applied(BuiltIn::NumEqual, *old(vm), *final(vm), r),
{
    num_comp(vm, "=", BuiltIn::NumEqual)
}

pub fn lt(vm: &mut Vm) -> (r: Result<VCell, Error>)
    requires
        old(vm).wf(),
    ensures
        final(vm).wf(),
        crate::builtin::applied(BuiltIn::Lt, *old(vm), *final(vm), r),
{
    num_comp(vm, "<", BuiltIn::Lt)
}

pub fn gt(vm: &mut Vm) -> (r: Result<VCell, Error>)
    requires
        old(vm).wf(),
    ensures
        final(vm).wf(),
        crate::builtin::applied(BuiltIn::Gt, *old(vm), *final(vm), r),
{
    num_comp(vm, ">", BuiltIn::Gt)
}

pub fn lteq(vm: &mut Vm) -> (r: Result<VCell, Error>)
    requires
        old(vm).wf(),
    ensures
        final(vm).wf(),
        crate::builtin::applied(BuiltIn::LtEq, *old(vm), *final(vm), r),
{
    num_comp(vm, "<=", BuiltIn::LtEq)
}

pub fn gteq(vm: &mut Vm) -> (r: Result<VCell, Error>)
    requires
        old(vm).wf(),
    ensures
        final(vm).wf(),
        crate::builtin::applied(BuiltIn::GtEq, *old(vm), *final(vm), r),
{
    num_comp(vm, ">=", BuiltIn::GtEq)
}

/// Whether a number is what `f` asks.
pub fn number_has(f: BuiltIn, n: Number) -> (r: bool)
    ensures
        r == number_is(f, n),
{
    match f {
        BuiltIn::Zero => n.same_value(Number::Fixnum(0)),
        BuiltIn::Positive => Number::Fixnum(0).less_than(n),
        BuiltIn::Negative => n.less_than(Number::Fixnum(0)),
        BuiltIn::Odd => n.remainder(Number::Fixnum(2)) != Some(Number::Fixnum(0)),
        BuiltIn::Even => n.remainder(Number::Fixnum(2)) == Some(Number::Fixnum(0)),
        _ => false,
    }
}

/// Answers a predicate on one number.
pub fn num_unary_predicate(vm: &mut Vm, name: &str, f: BuiltIn) -> (r: Result<VCell, Error>)
    requires
        old(vm).wf(),
        name@ == crate::builtin::name(f),
        crate::builtin::min_args(f) == 1,
        crate::builtin::max_args(f) == Some(1usize),
        forall|h: HeapView, args: Seq<VCell>, g: HeapView, r: Result<VCell, ErrorView>|
            #[trigger] crate::builtin::effect(f, h, args, g, r) == (g == h && r == unary_result(
                f,
                h,
                args,
            )),
    ensures
        final(vm).wf(),
        crate::builtin::applied(f, *old(vm), *final(vm), r),
{
    let args = pop_args(vm, 1, Some(1), name)?;
    match vm.heap.get(args[0]) {
        VCell::Number(n) => Ok(VCell::Bool(number_has(f, n))),
        _ => Ok(VCell::Bool(false)),
    }
}

pub fn zero(vm: &mut Vm) -> (r: Result<VCell, Error>)
    requires
        old(vm).wf(),
    ensures
        final(vm).wf(),
        crate::builtin::applied(BuiltIn::Zero, *old(vm), *final(vm), r),
{
    num_unary_predicate(vm, "zero?", BuiltIn::Zero)
}

pub fn positive(vm: &mut Vm) -> (r: Result<VCell, Error>)
    requires
        old(vm).wf(),
    ensures
        final(vm).wf(),
        crate::builtin::applied(BuiltIn::Positive, *old(vm), *final(vm), r),
{
    num_unary_predicate(vm, "positive?", BuiltIn::Positive)
}

pub fn negative(vm: &mut Vm) -> (r: Result<VCell, Error>)
    requires
        old(vm).wf(),
    ensures
        final(vm).wf(),
        crate::builtin::applied(BuiltIn::Negative, *old(vm), *final(vm), r),
{
    num_unary_predicate(vm, "negative?", BuiltIn::Negative)
}

pub fn odd(vm: &mut Vm) -> (r: Result<VCell, Error>)
    requires
        old(vm).wf(),
    ensures
        final(vm).wf(),
        crate::builtin::applied(BuiltIn::Odd, *old(vm), *final(vm), r),
{
    num_unary_predicate(vm, "odd?", BuiltIn::Odd)
}

pub fn even(vm: &mut Vm) -> (r: Result<VCell, Error>)
    requires
        old(vm).wf(),
    ensures
        final(vm).wf(),
        crate::builtin::applied(BuiltIn::Even, *old(vm), *final(vm), r),
{
    num_unary_predicate(vm, "even?", BuiltIn::Even)
}

} // verus!
