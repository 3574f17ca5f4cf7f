//! Type predicates and the three equivalences.
use crate::builtin::pop_args;
use crate::error::{Error, ErrorView};
use crate::heap::{Heap, HeapView};
use crate::vcell::{BuiltIn, VCell};
use crate::vm::Vm;
use vstd::prelude::*;

verus! {

/// How deep `equal?` follows nested pairs and vectors: one level more
/// than the heap has cells and vectors. What differs only deeper than
/// this counts as different.
pub open spec fn equal_depth(h: HeapView) -> nat {
    h.cells.len() + h.vectors.len() + 1
}

/// What a predicate of one argument says of the cell that its argument
/// stands for.
pub open spec fn holds_of(f: BuiltIn, c: VCell) -> bool {
    match f {
        BuiltIn::IsBoolean => c is Bool,
        BuiltIn::IsChar => c is Char,
        BuiltIn::IsNull => c is Nil,
        BuiltIn::IsNumber => c is Number,
        BuiltIn::IsPair => c is Pair,
        BuiltIn::IsProcedure => c is BuiltIn || c is Lambda || c is Closure,
        BuiltIn::IsString => c is String,
        BuiltIn::IsSymbol => c is Symbol,
        BuiltIn::IsVector => c is Vector,
        BuiltIn::Not => c == VCell::Bool(false),
        _ => false,
    }
}

/// The answer of a predicate of one argument. `port?` has none to say yes
/// to: there are no ports.
pub open spec fn predicate_result(f: BuiltIn, h: HeapView, args: Seq<VCell>) -> Result<
    VCell,
    ErrorView,
> {
    Ok(VCell::Bool(holds_of(f, h.deref(args[0]))))
}

/// `eq?`: the same value cell, or two cells other than pairs that hold
/// the same. Two pairs are the same only at the same address.
pub open spec fn eq_cells(h: HeapView, a: VCell, b: VCell) -> bool {
    a == b || (!(h.deref(a) is Pair) && h.deref(a) == h.deref(b))
}

/// `eqv?`: as `eq?`, and two numbers are equivalent where they stand for
/// the same rational number.
pub open spec fn eqv_cells(h: HeapView, a: VCell, b: VCell) -> bool {
    eq_cells(h, a, b) || match (h.deref(a), h.deref(b)) {
        (VCell::Number(m), VCell::Number(n)) => m.spec_eq(n),
        _ => false,
    }
}

/// `equal?` to a depth: equivalent values are equal; two pairs are equal
/// where their parts are, two vectors where they have equally many slots
/// and these are equal, two strings where they hold the same characters.
/// Pairs and vectors below `depth` levels are not looked into.
pub open spec fn equal_at(h: HeapView, a: VCell, b: VCell, depth: nat) -> bool
    decreases depth, 0nat, 0nat,
{
    eqv_cells(h, a, b) || match (h.deref(a), h.deref(b)) {
        (VCell::Pair(a1, d1), VCell::Pair(a2, d2)) => depth > 0 && equal_items(
            h,
            a1,
            d1,
            a2,
            d2,
            (depth - 1) as nat,
            h.cells.len(),
        ),
        (VCell::Vector(v1), VCell::Vector(v2)) => depth > 0 && h.vector(v1).len() == h.vector(
            v2,
        ).len() && equal_slots(
            h,
            h.vector(v1),
            h.vector(v2),
            h.vector(v1).len(),
            (depth - 1) as nat,
        ),
        (VCell::String(s1), VCell::String(s2)) => h.string(s1) == h.string(s2),
        _ => false,
    }
}

/// Two chains of pairs are equal from the pairs `(a1, d1)` and `(a2, d2)`
/// on: the cars are equal and so is what follows. At most `steps` further
/// pairs are followed.
pub open spec fn equal_items(
    h: HeapView,
    a1: usize,
    d1: usize,
    a2: usize,
    d2: usize,
    depth: nat,
    steps: nat,
) -> bool
    decreases depth, 1nat, steps,
{
    equal_at(h, VCell::Ptr(a1), VCell::Ptr(a2), depth) && match (h.at(d1), h.at(d2)) {
        (VCell::Pair(x1, y1), VCell::Pair(x2, y2)) => d1 == d2 || (steps > 0 && equal_items(
            h,
            x1,
            y1,
            x2,
            y2,
            depth,
            (steps - 1) as nat,
        )),
        _ => equal_at(h, VCell::Ptr(d1), VCell::Ptr(d2), depth),
    }
}

/// The first `n` slots of two vectors are equal one by one.
pub open spec fn equal_slots(h: HeapView, s1: Seq<usize>, s2: Seq<usize>, n: nat, depth: nat) -> bool
    decreases depth, 1nat, n,
{
    if n == 0 || n > s1.len() || n > s2.len() {
        n == 0
    } else {
        equal_slots(h, s1, s2, (n - 1) as nat, depth) && equal_at(
            h,
            VCell::Ptr(s1[n - 1]),
            VCell::Ptr(s2[n - 1]),
            depth,
        )
    }
}

/// `equal?` as the procedure answers it.
pub open spec fn equal_cells(h: HeapView, a: VCell, b: VCell) -> bool {
    equal_at(h, a, b, equal_depth(h))
}

/// The answer of `eq?`, `eqv?` or `equal?` to its two arguments.
pub open spec fn equivalence_result(f: BuiltIn, h: HeapView, args: Seq<VCell>) -> Result<
    VCell,
    ErrorView,
> {
    Ok(
        VCell::Bool(
            match f {
                BuiltIn::Eq => eq_cells(h, args[0], args[1]),
                BuiltIn::Eqv => eqv_cells(h, args[0], args[1]),
                _ => equal_cells(h, args[0], args[1]),
            },
        ),
    )
}

pub fn eq_values(heap: &Heap, a: VCell, b: VCell) -> (r: bool)
    ensures
        r == eq_cells(heap@, a, b),
{
    if a == b {
        return true;
    }
    let x = heap.get(a);
    !x.is_pair() && x == heap.get(b)
}

pub fn eqv_values(heap: &Heap, a: VCell, b: VCell) -> (r: bool)
    ensures
        r == eqv_cells(heap@, a, b),
{
    if eq_values(heap, a, b) {
        return true;
    }
    match heap.get(a) {
        VCell::Number(m) => match heap.get(b) {
            VCell::Number(n) => m.same_value(n),
            _ => false,
        },
        _ => false,
    }
}

/// Whether two values are equal to a depth.
pub fn equal_values(heap: &Heap, a: VCell, b: VCell, depth: u128) -> (r: bool)
    ensures
        r == equal_at(heap@, a, b, depth as nat),
    decreases depth,
{
    if eqv_values(heap, a, b) {
        return true;
    }
    let ghost target = equal_at(heap@, a, b, depth as nat);
    match heap.get(a) {
        VCell::Pair(a1, d1) => match heap.get(b) {
            VCell::Pair(a2, d2) => {
                if depth == 0 {
                    return false;
                }
                let mut x1 = a1;
                let mut y1 = d1;
                let mut x2 = a2;
                let mut y2 = d2;
                let mut steps = heap.len();
                let mut answer = false;
                loop
                    invariant_except_break
                        target == equal_items(
                            heap@,
                            x1,
                            y1,
                            x2,
                            y2,
                            (depth - 1) as nat,
                            steps as nat,
                        ),
                    invariant
                        depth > 0,
                    ensures
                        answer == target,
                    decreases steps,
                {
                    if !equal_values(heap, VCell::Ptr(x1), VCell::Ptr(x2), depth - 1) {
                        answer = false;
                        break ;
                    }
                    let t1 = heap.get_at_index(y1);
                    let t2 = heap.get_at_index(y2);
                    match t1 {
                        VCell::Pair(next1, rest1) => match t2 {
                            VCell::Pair(next2, rest2) => {
                                if y1 == y2 {
                                    answer = true;
                                    break ;
                                }
                                if steps == 0 {
                                    answer = false;
                                    break ;
                                }
                                x1 = next1;
                                y1 = rest1;
                                x2 = next2;
                                y2 = rest2;
                                steps = steps - 1;
                            },
                            _ => {
                                answer = equal_values(
                                    heap,
                                    VCell::Ptr(y1),
                                    VCell::Ptr(y2),
                                    depth - 1,
                                );
                                break ;
                            },
                        },
                        _ => {
                            answer = equal_values(heap, VCell::Ptr(y1), VCell::Ptr(y2), depth - 1);
                            break ;
                        },
                    }
                }
                answer
            },
            _ => false,
        },
        VCell::Vector(v1) => match heap.get(b) {
            VCell::Vector(v2) => {
                if depth == 0 {
                    return false;
                }
                let n = heap.vector_len(v1);
                if n != heap.vector_len(v2) {
                    return false;
                }
                let mut i: usize = 0;
                while i < n
                    invariant
                        depth > 0,
                        i <= n,
                        !eqv_cells(heap@, a, b),
                        heap@.deref(a) == VCell::Vector(v1),
                        heap@.deref(b) == VCell::Vector(v2),
                        n == heap@.vector(v1).len(),
                        n == heap@.vector(v2).len(),
                        equal_slots(
                            heap@,
                            heap@.vector(v1),
                            heap@.vector(v2),
                            i as nat,
                            (depth - 1) as nat,
                        ),
                    decreases n - i,
                {
                    let s1 = heap.vector_get(v1, i).unwrap();
                    let s2 = heap.vector_get(v2, i).unwrap();
                    if !equal_values(heap, VCell::Ptr(s1), VCell::Ptr(s2), depth - 1) {
                        proof {
                            lemma_slots_differ(
                                heap@,
                                heap@.vector(v1),
                                heap@.vector(v2),
                                n as nat,
                                (depth - 1) as nat,
                                i as int,
                            );
                        }
                        return false;
                    }
                    i = i + 1;
                }
                true
            },
            _ => false,
        },
        VCell::String(s1) => match heap.get(b) {
            VCell::String(s2) => {
                let x = heap.string_chars(s1);
                let y = heap.string_chars(s2);
                crate::heap::same_chars(&x, &y)
            },
            _ => false,
        },
        _ => false,
    }
}

/// Two vectors that differ in one of their first `n` slots are not equal
/// in these.
pub proof fn lemma_slots_differ(
    h: HeapView,
    s1: Seq<usize>,
    s2: Seq<usize>,
    n: nat,
    depth: nat,
    i: int,
)
    requires
        0 <= i < n,
        n <= s1.len(),
        n <= s2.len(),
        !equal_at(h, VCell::Ptr(s1[i]), VCell::Ptr(s2[i]), depth),
    ensures
        !equal_slots(h, s1, s2, n, depth),
    decreases n,
{
    if i < n - 1 {
        lemma_slots_differ(h, s1, s2, (n - 1) as nat, depth, i);
    }
}

/// The answer of a predicate to the one argument of the call.
fn answer(vm: &mut Vm, f: BuiltIn, name: &str) -> (r: Result<VCell, Error>)
    requires
        old(vm).wf(),
        name@ == crate::builtin::name(f),
        crate::builtin::min_args(f) == 1,
        crate::builtin::max_args(f) == Some(1usize),
        forall|h: HeapView, args: Seq<VCell>, g: HeapView, r: Result<VCell, ErrorView>|
            #[trigger] crate::builtin::effect(f, h, args, g, r) == (g == h && r
                == predicate_result(f, h, args)),
    ensures
        final(vm).wf(),
        crate::builtin::applied(f, *old(vm), *final(vm), r),
{
    let args = pop_args(vm, 1, Some(1), name)?;
    let c = vm.heap.get(args[0]);
    let yes = match f {
        BuiltIn::IsBoolean => c.is_boolean(),
        BuiltIn::IsChar => c.is_char(),
        BuiltIn::IsNull => c.is_nil(),
        BuiltIn::IsNumber => c.is_number(),
        BuiltIn::IsPair => c.is_pair(),
        BuiltIn::IsProcedure => c.is_procedure(),
        BuiltIn::IsString => c.is_string(),
        BuiltIn::IsSymbol => c.is_symbol(),
        BuiltIn::IsVector => c.is_vector(),
        BuiltIn::Not => c == VCell::Bool(false),
        _ => false,
    };
    Ok(VCell::Bool(yes))
}

pub fn is_boolean(vm: &mut Vm) -> (r: Result<VCell, Error>)
    requires
        old(vm).wf(),
    ensures
        final(vm).wf(),
        crate::builtin::applied(BuiltIn::IsBoolean, *old(vm), *final(vm), r),
{
    answer(vm, BuiltIn::IsBoolean, "boolean?")
}

pub fn is_char(vm: &mut Vm) -> (r: Result<VCell, Error>)
    requires
        old(vm).wf(),
    ensures
        final(vm).wf(),
        crate::builtin::applied(BuiltIn::IsChar, *old(vm), *final(vm), r),
{
    answer(vm, BuiltIn::IsChar, "char?")
}

pub fn is_null(vm: &mut Vm) -> (r: Result<VCell, Error>)
    requires
        old(vm).wf(),
    ensures
        final(vm).wf(),
        crate::builtin::applied(BuiltIn::IsNull, *old(vm), *final(vm), r),
{
    answer(vm, BuiltIn::IsNull, "null?")
}

pub fn is_number(vm: &mut Vm) -> (r: Result<VCell, Error>)
    requires
        old(vm).wf(),
    ensures
        final(vm).wf(),
        crate::builtin::applied(BuiltIn::IsNumber, *old(vm), *final(vm), r),
{
    answer(vm, BuiltIn::IsNumber, "number?")
}

pub fn is_pair(vm: &mut Vm) -> (r: Result<VCell, Error>)
    requires
        old(vm).wf(),
    ensures
        final(vm).wf(),
        crate::builtin::applied(BuiltIn::IsPair, *old(vm), *final(vm), r),
{
    answer(vm, BuiltIn::IsPair, "pair?")
}

pub fn is_port(vm: &mut Vm) -> (r: Result<VCell, Error>)
    requires
        old(vm).wf(),
    ensures
        final(vm).wf(),
        crate::builtin::applied(BuiltIn::IsPort, *old(vm), *final(vm), r),
{
    answer(vm, BuiltIn::IsPort, "port?")
}

pub fn is_procedure(vm: &mut Vm) -> (r: Result<VCell, Error>)
    requires
        old(vm).wf(),
    ensures
        final(vm).wf(),
        crate::builtin::applied(BuiltIn::IsProcedure, *old(vm), *final(vm), r),
{
    answer(vm, BuiltIn::IsProcedure, "procedure?")
}

pub fn is_string(vm: &mut Vm) -> (r: Result<VCell, Error>)
    requires
        old(vm).wf(),
    ensures
        final(vm).wf(),
        crate::builtin::applied(BuiltIn::IsString, *old(vm), *final(vm), r),
{
    answer(vm, BuiltIn::IsString, "string?")
}

pub fn is_symbol(vm: &mut Vm) -> (r: Result<VCell, Error>)
    requires
        old(vm).wf(),
    ensures
        final(vm).wf(),
        crate::builtin::applied(BuiltIn::IsSymbol, *old(vm), *final(vm), r),
{
    answer(vm, BuiltIn::IsSymbol, "symbol?")
}

pub fn is_vector(vm: &mut Vm) -> (r: Result<VCell, Error>)
    requires
        old(vm).wf(),
    ensures
        final(vm).wf(),
        crate::builtin::applied(BuiltIn::IsVector, *old(vm), *final(vm), r),
{
    answer(vm, BuiltIn::IsVector, "vector?")
}

pub fn not(vm: &mut Vm) -> (r: Result<VCell, Error>)
    requires
        old(vm).wf(),
    ensures
        final(vm).wf(),
        crate::builtin::applied(BuiltIn::Not, *old(vm), *final(vm), r),
{
    answer(vm, BuiltIn::Not, "not")
}

pub fn eq(vm: &mut Vm) -> (r: Result<VCell, Error>)
    requires
        old(vm).wf(),
    ensures
        final(vm).wf(),
        crate::builtin::applied(BuiltIn::Eq, *old(vm), *final(vm), r),
{
    let args = pop_args(vm, 2, Some(2), "eq?")?;
    Ok(VCell::Bool(eq_values(&vm.heap, args[0], args[1])))
}

pub fn eqv(vm: &mut Vm) -> (r: Result<VCell, Error>)
    requires
        old(vm).wf(),
    ensures
        final(vm).wf(),
        crate::builtin::applied(BuiltIn::Eqv, *old(vm), *final(vm), r),
{
    let args = pop_args(vm, 2, Some(2), "eqv?")?;
    Ok(VCell::Bool(eqv_values(&vm.heap, args[0], args[1])))
}

pub fn equal(vm: &mut Vm) -> (r: Result<VCell, Error>)
    requires
        old(vm).wf(),
    ensures
        final(vm).wf(),
        crate::builtin::applied(BuiltIn::Equal, *old(vm), *final(vm), r),
{
    let args = pop_args(vm, 2, Some(2), "equal?")?;
    let depth = vm.heap.len() as u128 + vm.heap.vectors_len() as u128 + 1;
    Ok(VCell::Bool(equal_values(&vm.heap, args[0], args[1], depth)))
}

} // verus!
