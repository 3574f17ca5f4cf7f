//! What holds of the procedures: laws that follow from their contracts.
use crate::builtin::chars::{char_unary_result, integer_to_char_result};
use crate::builtin::list::{
    append_effect, append_elems, car_result, cdr_result, chain_head, cons_effect,
    lemma_chain_seg, reverse_effect,
};
use crate::builtin::numeric::{checked_value, fold, plus_result};
use crate::builtin::predicate::{
    equal_at, equal_cells, equal_items, equal_slots, equivalence_result, eqv_cells,
    equal_depth,
};
use crate::builtin::strings::{
    char_cell, char_cells, element_chars, run, string_length_result, string_maker_effect,
    string_to_list_effect, with_cells,
};
use crate::builtin::vector::{list_to_vector_effect, make_vector_effect, vector_to_list_effect};
use crate::error::ErrorView;
use crate::heap::HeapView;
use crate::list::{
    elements, is_list, lemma_elements, lemma_list_bound, lemma_seg_extended, lemma_seg_join,
    lemma_seg_prefix, lemma_seg_restricted, list_of,
};
use crate::number::{
    checked, fits, lemma_ratio_eq_transitive, lemma_reduce, lemma_reduce_same, lowest, number_of,
    ratio_eq, reduce, Number, Ratio,
};
use crate::vcell::{BuiltIn, VCell};
use vstd::prelude::*;

verus! {

/// The empty list is a list and no pair.
pub proof fn law_nil(h: HeapView)
    ensures
        crate::builtin::list::is_list_result(h, seq![VCell::Nil]) == Ok::<VCell, ErrorView>(
            VCell::Bool(true),
        ),
        crate::builtin::predicate::predicate_result(BuiltIn::IsPair, h, seq![VCell::Nil]) == Ok::<
            VCell,
            ErrorView,
        >(VCell::Bool(false)),
        crate::builtin::predicate::predicate_result(BuiltIn::IsNull, h, seq![VCell::Nil]) == Ok::<
            VCell,
            ErrorView,
        >(VCell::Bool(true)),
{
    assert(list_of(h, VCell::Nil, Seq::empty()));
}

/// `eqv?` says yes to every value and itself.
pub proof fn law_eqv_reflexive(h: HeapView, v: VCell)
    ensures
        equivalence_result(BuiltIn::Eqv, h, seq![v, v]) == Ok::<VCell, ErrorView>(
            VCell::Bool(true),
        ),
        eqv_cells(h, v, v),
{
}

/// `eqv?` does not depend on the order of its arguments.
pub proof fn law_eqv_symmetric(h: HeapView, a: VCell, b: VCell)
    ensures
        eqv_cells(h, a, b) == eqv_cells(h, b, a),
{
}

/// Among values of a well-formed heap `eqv?` is transitive.
pub proof fn law_eqv_transitive(h: HeapView, a: VCell, b: VCell, c: VCell)
    requires
        h.wf(),
        h.holds(a),
        h.holds(b),
        h.holds(c),
        eqv_cells(h, a, b),
        eqv_cells(h, b, c),
    ensures
        eqv_cells(h, a, c),
{
    let x = h.deref(a);
    let y = h.deref(b);
    let z = h.deref(c);
    lemma_deref_holds(h, a);
    lemma_deref_holds(h, b);
    lemma_deref_holds(h, c);
    if x is Number && y is Number && z is Number {
        lemma_ratio_eq_transitive(x->Number_0@, y->Number_0@, z->Number_0@);
    }
}

/// What a value of a well-formed heap stands for is a value of the heap.
pub proof fn lemma_deref_holds(h: HeapView, v: VCell)
    requires
        h.wf(),
        h.holds(v),
    ensures
        h.holds(h.deref(v)),
        !(h.deref(v) is Ptr),
{
}

/// `equal?` to a depth does not depend on the order of its arguments.
pub proof fn lemma_equal_at_symmetric(h: HeapView, a: VCell, b: VCell, depth: nat)
    ensures
        equal_at(h, a, b, depth) == equal_at(h, b, a, depth),
    decreases depth, 0nat, 0nat,
{
    law_eqv_symmetric(h, a, b);
    match (h.deref(a), h.deref(b)) {
        (VCell::Pair(a1, d1), VCell::Pair(a2, d2)) => {
            if depth > 0 {
                lemma_equal_items_symmetric(
                    h,
                    a1,
                    d1,
                    a2,
                    d2,
                    (depth - 1) as nat,
                    h.cells.len(),
                );
            }
        },
        (VCell::Vector(v1), VCell::Vector(v2)) => {
            if depth > 0 && h.vector(v1).len() == h.vector(v2).len() {
                lemma_equal_slots_symmetric(
                    h,
                    h.vector(v1),
                    h.vector(v2),
                    h.vector(v1).len(),
                    (depth - 1) as nat,
                );
            }
        },
        _ => {},
    }
}

pub proof fn lemma_equal_items_symmetric(
    h: HeapView,
    a1: usize,
    d1: usize,
    a2: usize,
    d2: usize,
    depth: nat,
    steps: nat,
)
    ensures
        equal_items(h, a1, d1, a2, d2, depth, steps) == equal_items(
            h,
            a2,
            d2,
            a1,
            d1,
            depth,
            steps,
        ),
    decreases depth, 1nat, steps,
{
    lemma_equal_at_symmetric(h, VCell::Ptr(a1), VCell::Ptr(a2), depth);
    match (h.at(d1), h.at(d2)) {
        (VCell::Pair(x1, y1), VCell::Pair(x2, y2)) => {
            if steps > 0 {
                lemma_equal_items_symmetric(h, x1, y1, x2, y2, depth, (steps - 1) as nat);
            }
        },
        _ => {
            lemma_equal_at_symmetric(h, VCell::Ptr(d1), VCell::Ptr(d2), depth);
        },
    }
}

pub proof fn lemma_equal_slots_symmetric(
    h: HeapView,
    s1: Seq<usize>,
    s2: Seq<usize>,
    n: nat,
    depth: nat,
)
    ensures
        equal_slots(h, s1, s2, n, depth) == equal_slots(h, s2, s1, n, depth),
    decreases depth, 1nat, n,
{
    if !(n == 0 || n > s1.len() || n > s2.len()) {
        lemma_equal_slots_symmetric(h, s1, s2, (n - 1) as nat, depth);
        lemma_equal_at_symmetric(h, VCell::Ptr(s1[n - 1]), VCell::Ptr(s2[n - 1]), depth);
    }
}

/// What is equal to a depth is equal to the next depth.
pub proof fn lemma_equal_at_deeper(h: HeapView, a: VCell, b: VCell, depth: nat)
    requires
        equal_at(h, a, b, depth),
    ensures
        equal_at(h, a, b, depth + 1),
    decreases depth, 0nat, 0nat,
{
    if !eqv_cells(h, a, b) {
        match (h.deref(a), h.deref(b)) {
            (VCell::Pair(a1, d1), VCell::Pair(a2, d2)) => {
                lemma_equal_items_deeper(h, a1, d1, a2, d2, (depth - 1) as nat, h.cells.len());
            },
            (VCell::Vector(v1), VCell::Vector(v2)) => {
                lemma_equal_slots_deeper(
                    h,
                    h.vector(v1),
                    h.vector(v2),
                    h.vector(v1).len(),
                    (depth - 1) as nat,
                );
            },
            _ => {},
        }
    }
}

pub proof fn lemma_equal_items_deeper(
    h: HeapView,
    a1: usize,
    d1: usize,
    a2: usize,
    d2: usize,
    depth: nat,
    steps: nat,
)
    requires
        equal_items(h, a1, d1, a2, d2, depth, steps),
    ensures
        equal_items(h, a1, d1, a2, d2, depth + 1, steps),
    decreases depth, 1nat, steps,
{
    lemma_equal_at_deeper(h, VCell::Ptr(a1), VCell::Ptr(a2), depth);
    match (h.at(d1), h.at(d2)) {
        (VCell::Pair(x1, y1), VCell::Pair(x2, y2)) => {
            if d1 != d2 {
                lemma_equal_items_deeper(h, x1, y1, x2, y2, depth, (steps - 1) as nat);
            }
        },
        _ => {
            lemma_equal_at_deeper(h, VCell::Ptr(d1), VCell::Ptr(d2), depth);
        },
    }
}

pub proof fn lemma_equal_slots_deeper(
    h: HeapView,
    s1: Seq<usize>,
    s2: Seq<usize>,
    n: nat,
    depth: nat,
)
    requires
        equal_slots(h, s1, s2, n, depth),
    ensures
        equal_slots(h, s1, s2, n, depth + 1),
    decreases depth, 1nat, n,
{
    if !(n == 0 || n > s1.len() || n > s2.len()) {
        lemma_equal_slots_deeper(h, s1, s2, (n - 1) as nat, depth);
        lemma_equal_at_deeper(h, VCell::Ptr(s1[n - 1]), VCell::Ptr(s2[n - 1]), depth);
    }
}

/// The bound on the depth never makes `equal?` say yes: what it says yes
/// to is equal to every depth from the bound on.
pub proof fn law_equal_to_every_depth(h: HeapView, a: VCell, b: VCell, depth: nat)
    requires
        equal_cells(h, a, b),
        depth >= equal_depth(h),
    ensures
        equal_at(h, a, b, depth),
    decreases depth,
{
    if depth > equal_depth(h) {
        law_equal_to_every_depth(h, a, b, (depth - 1) as nat);
        lemma_equal_at_deeper(h, a, b, (depth - 1) as nat);
    }
}

/// `equal?` to a depth is transitive among values of a well-formed heap.
pub proof fn lemma_equal_at_transitive(h: HeapView, a: VCell, b: VCell, c: VCell, depth: nat)
    requires
        h.wf(),
        h.holds(a),
        h.holds(b),
        h.holds(c),
        equal_at(h, a, b, depth),
        equal_at(h, b, c, depth),
    ensures
        equal_at(h, a, c, depth),
    decreases depth, 0nat, 0nat,
{
    let x = h.deref(a);
    let y = h.deref(b);
    let z = h.deref(c);
    lemma_deref_holds(h, a);
    lemma_deref_holds(h, b);
    lemma_deref_holds(h, c);
    if eqv_cells(h, a, b) && eqv_cells(h, b, c) {
        law_eqv_transitive(h, a, b, c);
    } else if eqv_cells(h, a, b) {
        // `a` and `b` stand for the same cell, or for two numbers, which
        // are equal to nothing that they are not equivalent to.
        assert(x == y);
    } else if eqv_cells(h, b, c) {
        assert(y == z);
    } else {
        match (x, y, z) {
            (VCell::Pair(a1, d1), VCell::Pair(a2, d2), VCell::Pair(a3, d3)) => {
                lemma_equal_items_transitive(
                    h,
                    a1,
                    d1,
                    a2,
                    d2,
                    a3,
                    d3,
                    (depth - 1) as nat,
                    h.cells.len(),
                );
            },
            (VCell::Vector(v1), VCell::Vector(v2), VCell::Vector(v3)) => {
                lemma_equal_slots_transitive(
                    h,
                    h.vector(v1),
                    h.vector(v2),
                    h.vector(v3),
                    h.vector(v1).len(),
                    (depth - 1) as nat,
                );
            },
            _ => {},
        }
    }
}

pub proof fn lemma_equal_items_transitive(
    h: HeapView,
    a1: usize,
    d1: usize,
    a2: usize,
    d2: usize,
    a3: usize,
    d3: usize,
    depth: nat,
    steps: nat,
)
    requires
        h.wf(),
        h.holds(VCell::Pair(a1, d1)),
        h.holds(VCell::Pair(a2, d2)),
        h.holds(VCell::Pair(a3, d3)),
        equal_items(h, a1, d1, a2, d2, depth, steps),
        equal_items(h, a2, d2, a3, d3, depth, steps),
    ensures
        equal_items(h, a1, d1, a3, d3, depth, steps),
    decreases depth, 1nat, steps,
{
    lemma_equal_at_transitive(h, VCell::Ptr(a1), VCell::Ptr(a2), VCell::Ptr(a3), depth);
    let t1 = h.at(d1);
    let t2 = h.at(d2);
    let t3 = h.at(d3);
    if t1 is Pair && t2 is Pair && t3 is Pair {
        if d1 != d2 && d2 != d3 {
            lemma_equal_items_transitive(
                h,
                t1->Pair_0,
                t1->Pair_1,
                t2->Pair_0,
                t2->Pair_1,
                t3->Pair_0,
                t3->Pair_1,
                depth,
                (steps - 1) as nat,
            );
        }
    } else if !(t1 is Pair) && !(t2 is Pair) && !(t3 is Pair) {
        lemma_equal_at_transitive(h, VCell::Ptr(d1), VCell::Ptr(d2), VCell::Ptr(d3), depth);
    } else {
        // A pair is equal to no cell that is none.
        if t1 is Pair && !(t2 is Pair) {
            lemma_pair_and_other(h, d1, d2, depth);
        }
        if t2 is Pair && !(t3 is Pair) {
            lemma_pair_and_other(h, d2, d3, depth);
        }
        if t2 is Pair && !(t1 is Pair) {
            lemma_pair_and_other(h, d2, d1, depth);
        }
        if t3 is Pair && !(t2 is Pair) {
            lemma_pair_and_other(h, d3, d2, depth);
        }
        lemma_equal_at_symmetric(h, VCell::Ptr(d1), VCell::Ptr(d2), depth);
        lemma_equal_at_symmetric(h, VCell::Ptr(d2), VCell::Ptr(d3), depth);
    }
}

/// A pair is equal to no cell that is none.
pub proof fn lemma_pair_and_other(h: HeapView, d1: usize, d2: usize, depth: nat)
    requires
        h.at(d1) is Pair,
        !(h.at(d2) is Pair),
    ensures
        !equal_at(h, VCell::Ptr(d1), VCell::Ptr(d2), depth),
{
}

pub proof fn lemma_equal_slots_transitive(
    h: HeapView,
    s1: Seq<usize>,
    s2: Seq<usize>,
    s3: Seq<usize>,
    n: nat,
    depth: nat,
)
    requires
        h.wf(),
        n <= s1.len(),
        n <= s2.len(),
        n <= s3.len(),
        forall|i: int| 0 <= i < n ==> (#[trigger] s1[i]) < h.cells.len(),
        forall|i: int| 0 <= i < n ==> (#[trigger] s2[i]) < h.cells.len(),
        forall|i: int| 0 <= i < n ==> (#[trigger] s3[i]) < h.cells.len(),
        equal_slots(h, s1, s2, n, depth),
        equal_slots(h, s2, s3, n, depth),
    ensures
        equal_slots(h, s1, s3, n, depth),
    decreases depth, 1nat, n,
{
    if n > 0 {
        lemma_equal_slots_transitive(h, s1, s2, s3, (n - 1) as nat, depth);
        assert(s1[n - 1] < h.cells.len() && s2[n - 1] < h.cells.len() && s3[n - 1]
            < h.cells.len());
        lemma_equal_at_transitive(
            h,
            VCell::Ptr(s1[n - 1]),
            VCell::Ptr(s2[n - 1]),
            VCell::Ptr(s3[n - 1]),
            depth,
        );
    }
}

/// `equal?` does not depend on the order of its arguments.
pub proof fn law_equal_symmetric(h: HeapView, x: VCell, y: VCell)
    ensures
        equal_cells(h, x, y) == equal_cells(h, y, x),
{
    lemma_equal_at_symmetric(h, x, y, equal_depth(h));
}

/// `equal?` is transitive among the values of a well-formed heap, be they
/// cyclic or not.
pub proof fn law_equal_transitive(h: HeapView, x: VCell, y: VCell, z: VCell)
    requires
        h.wf(),
        h.holds(x),
        h.holds(y),
        h.holds(z),
        equal_cells(h, x, y),
        equal_cells(h, y, z),
    ensures
        equal_cells(h, x, z),
{
    lemma_equal_at_transitive(h, x, y, z, equal_depth(h));
}

/// `car` and `cdr` of the pair that `cons` returns, once it is stored,
/// point to the cells of the two arguments of `cons`: for an argument
/// that is a pointer, to the very cell that it points to.
pub proof fn law_car_cdr_of_cons(h: HeapView, a: VCell, b: VCell)
    requires
        h.holds(a),
        h.holds(b),
        h.cells.len() + 3 <= usize::MAX,
    ensures
        ({
            let g = h.put(a).put(b);
            let pair = VCell::Pair(h.put_addr(a), h.put(a).put_addr(b));
            let stored = g.put(pair);
            let p = g.put_ptr(pair);
            &&& cons_effect(h, seq![a, b], g, Ok(pair))
            &&& car_result(stored, seq![p]) == Ok::<VCell, ErrorView>(VCell::Ptr(h.put_addr(a)))
            &&& cdr_result(stored, seq![p]) == Ok::<VCell, ErrorView>(
                VCell::Ptr(h.put(a).put_addr(b)),
            )
            &&& stored.deref(VCell::Ptr(h.put_addr(a))) == h.deref(a)
            &&& stored.deref(VCell::Ptr(h.put(a).put_addr(b))) == h.deref(b)
            &&& a is Ptr ==> VCell::Ptr(h.put_addr(a)) == a
            &&& b is Ptr ==> VCell::Ptr(h.put(a).put_addr(b)) == b
        }),
{
}

/// Two chains of pairs of equal length whose cars are equal one by one,
/// and which both end in nil, are equal from any pair on.
pub proof fn lemma_items_equal(
    h: HeapView,
    a1: usize,
    d1: usize,
    a2: usize,
    d2: usize,
    e1: Seq<usize>,
    e2: Seq<usize>,
    depth: nat,
    steps: nat,
)
    requires
        e1.len() == e2.len(),
        e1.len() <= steps,
        equal_at(h, VCell::Ptr(a1), VCell::Ptr(a2), depth),
        list_of(h, h.at(d1), e1),
        list_of(h, h.at(d2), e2),
        forall|i: int|
            0 <= i < e1.len() ==> equal_at(
                h,
                VCell::Ptr(#[trigger] e1[i]),
                VCell::Ptr(e2[i]),
                depth,
            ),
    ensures
        equal_items(h, a1, d1, a2, d2, depth, steps),
    decreases e1.len(),
{
    if e1.len() == 0 {
        assert(h.at(d1) is Nil && h.at(d2) is Nil);
        assert(eqv_cells(h, VCell::Ptr(d1), VCell::Ptr(d2)));
        assert(equal_at(h, VCell::Ptr(d1), VCell::Ptr(d2), depth));
    } else {
        let t1 = h.at(d1);
        let t2 = h.at(d2);
        assert(t1 is Pair && t2 is Pair);
        assert(t1->Pair_0 == e1[0] && t2->Pair_0 == e2[0]);
        assert(list_of(h, h.at(t1->Pair_1), e1.drop_first()));
        assert(list_of(h, h.at(t2->Pair_1), e2.drop_first()));
        assert(equal_at(h, VCell::Ptr(e1[0]), VCell::Ptr(e2[0]), depth));
        assert forall|i: int| 0 <= i < e1.drop_first().len() implies equal_at(
            h,
            VCell::Ptr(#[trigger] e1.drop_first()[i]),
            VCell::Ptr(e2.drop_first()[i]),
            depth,
        ) by {
            assert(e1.drop_first()[i] == e1[i + 1]);
            assert(equal_at(h, VCell::Ptr(e1[i + 1]), VCell::Ptr(e2[i + 1]), depth));
        }
        lemma_items_equal(
            h,
            t1->Pair_0,
            t1->Pair_1,
            t2->Pair_0,
            t2->Pair_1,
            e1.drop_first(),
            e2.drop_first(),
            depth,
            (steps - 1) as nat,
        );
    }
}

/// Two proper lists of equal length whose elements are equal one by one
/// are equal.
pub proof fn lemma_lists_equal(h: HeapView, a: VCell, b: VCell, e1: Seq<usize>, e2: Seq<usize>)
    requires
        list_of(h, h.deref(a), e1),
        list_of(h, h.deref(b), e2),
        e1.len() == e2.len(),
        forall|i: int|
            0 <= i < e1.len() ==> equal_at(
                h,
                VCell::Ptr(#[trigger] e1[i]),
                VCell::Ptr(e2[i]),
                (equal_depth(h) - 1) as nat,
            ),
    ensures
        equal_cells(h, a, b),
{
    if e1.len() == 0 {
        assert(h.deref(a) is Nil && h.deref(b) is Nil);
        assert(eqv_cells(h, a, b));
    } else {
        let x = h.deref(a);
        let y = h.deref(b);
        lemma_list_bound(h, x, e1);
        assert(x is Pair && y is Pair);
        assert(x->Pair_0 == e1[0] && y->Pair_0 == e2[0]);
        assert(list_of(h, h.at(x->Pair_1), e1.drop_first()));
        assert(list_of(h, h.at(y->Pair_1), e2.drop_first()));
        assert(equal_at(h, VCell::Ptr(e1[0]), VCell::Ptr(e2[0]), (equal_depth(h) - 1) as nat));
        assert forall|i: int| 0 <= i < e1.drop_first().len() implies equal_at(
            h,
            VCell::Ptr(#[trigger] e1.drop_first()[i]),
            VCell::Ptr(e2.drop_first()[i]),
            (equal_depth(h) - 1) as nat,
        ) by {
            assert(e1.drop_first()[i] == e1[i + 1]);
            assert(equal_at(
                h,
                VCell::Ptr(e1[i + 1]),
                VCell::Ptr(e2[i + 1]),
                (equal_depth(h) - 1) as nat,
            ));
        }
        lemma_items_equal(
            h,
            x->Pair_0,
            x->Pair_1,
            y->Pair_0,
            y->Pair_1,
            e1.drop_first(),
            e2.drop_first(),
            (equal_depth(h) - 1) as nat,
            h.cells.len(),
        );
    }
}

/// The list that `reverse` returns for a proper list has the elements of
/// that list in reverse order, and so it is as long.
pub proof fn law_reverse(
    h: HeapView,
    list: VCell,
    g: HeapView,
    r: Result<VCell, ErrorView>,
)
    requires
        h.wf(),
        h.holds(list),
        is_list(h, h.deref(list)),
        g.bounded(),
        reverse_effect(h, seq![list], g, r),
    ensures
        r is Ok,
        list_of(g, g.deref(r->Ok_0), elements(h, h.deref(list)).reverse()),
        elements(g, g.deref(r->Ok_0)).len() == elements(h, h.deref(list)).len(),
        list_of(g, g.deref(list), elements(h, h.deref(list))),
        h.cells.is_prefix_of(g.cells),
        g.deref(list) == h.deref(list),
{
    let c = h.deref(list);
    let e = elements(h, c);
    lemma_deref_holds(h, list);
    if c is Nil {
        lemma_elements(h, c, Seq::empty());
        assert(e.reverse() =~= e);
        lemma_elements(g, g.deref(r->Ok_0), e.reverse());
    } else {
        let h1 = h.with_cell(VCell::Nil);
        let nil = h.cells.len() as usize;
        lemma_chain_seg(h1, g, e.reverse(), nil);
        assert(h1.cells[nil as int] == VCell::Nil);
        assert(g.cells[nil as int] == h1.cells[nil as int]);
        assert(g.at(nil) == VCell::Nil);
        lemma_elements(g, g.deref(r->Ok_0), e.reverse());
        assert(h.cells.is_prefix_of(g.cells)) by {
            assert forall|i: int| 0 <= i < h.cells.len() implies h.cells[i] == g.cells[i] by {
                assert(h1.cells[i] == h.cells[i]);
            }
        }
        lemma_seg_extended(h, g, c, e, VCell::Nil);
    }
}

/// To reverse the reverse of a proper list gives a list that is `equal?`
/// to the first: it has the very same elements in the same order.
pub proof fn law_reverse_twice(
    h: HeapView,
    list: VCell,
    g1: HeapView,
    r1: Result<VCell, ErrorView>,
    g2: HeapView,
    r2: Result<VCell, ErrorView>,
)
    requires
        h.wf(),
        g1.wf(),
        h.holds(list),
        is_list(h, h.deref(list)),
        g1.bounded(),
        g2.bounded(),
        reverse_effect(h, seq![list], g1, r1),
        r1 is Ok ==> g1.holds(r1->Ok_0) && reverse_effect(g1, seq![r1->Ok_0], g2, r2),
    ensures
        r1 is Ok,
        r2 is Ok,
        elements(g2, g2.deref(r2->Ok_0)) == elements(h, h.deref(list)),
        equal_cells(g2, r2->Ok_0, list),
{
    let e = elements(h, h.deref(list));
    law_reverse(h, list, g1, r1);
    lemma_elements(g1, g1.deref(r1->Ok_0), e.reverse());
    law_reverse(g1, r1->Ok_0, g2, r2);
    assert(e.reverse().reverse() =~= e);
    lemma_elements(g2, g2.deref(r2->Ok_0), e);
    lemma_deref_holds(h, list);
    lemma_seg_extended(g1, g2, g1.deref(list), e, VCell::Nil);
    assert(g2.deref(list) == g1.deref(list));
    assert forall|i: int| 0 <= i < e.len() implies equal_at(
        g2,
        VCell::Ptr(#[trigger] e[i]),
        VCell::Ptr(e[i]),
        (equal_depth(g2) - 1) as nat,
    ) by {
        assert(eqv_cells(g2, VCell::Ptr(e[i]), VCell::Ptr(e[i])));
    }
    lemma_lists_equal(g2, r2->Ok_0, list, e, e);
}

/// `append` of a proper list and a value is a proper list if and only if
/// the value is one, and then its elements are those of the list followed
/// by those of the value.
pub proof fn law_append(
    h: HeapView,
    xs: VCell,
    ys: VCell,
    g: HeapView,
    r: Result<VCell, ErrorView>,
)
    requires
        h.wf(),
        h.holds(xs),
        h.holds(ys),
        is_list(h, h.deref(xs)),
        g.bounded(),
        append_effect(h, seq![xs, ys], g, r),
    ensures
        r is Ok,
        is_list(g, g.deref(r->Ok_0)) == is_list(h, h.deref(ys)),
        is_list(h, h.deref(ys)) ==> elements(g, g.deref(r->Ok_0)) == elements(h, h.deref(xs))
            + elements(h, h.deref(ys)),
{
    let args = seq![xs, ys];
    let ex = elements(h, h.deref(xs));
    assert(args.drop_last() =~= seq![xs]);
    assert(seq![xs].drop_first() =~= Seq::<VCell>::empty());
    reveal_with_fuel(append_elems, 3);
    assert(append_elems(h, seq![xs]) == Ok::<Seq<usize>, ErrorView>(ex + Seq::<usize>::empty()));
    assert(ex + Seq::<usize>::empty() =~= ex);
    let cy = h.deref(ys);
    lemma_deref_holds(h, ys);
    if ex.len() == 0 {
        assert(r == Ok::<VCell, ErrorView>(ys));
        if is_list(h, cy) {
            assert(ex + elements(h, cy) =~= elements(h, cy));
        }
    } else {
        let h1 = h.put(ys);
        let tail = h.put_addr(ys);
        lemma_chain_seg(h1, g, ex, tail);
        let head = g.at(chain_head(h1, ex, tail));
        assert(h1.at(tail) == cy);
        assert(g.cells[tail as int] == h1.cells[tail as int]);
        assert(g.at(tail) == cy);
        assert(h.cells.is_prefix_of(g.cells)) by {
            assert forall|i: int| 0 <= i < h.cells.len() implies h.cells[i] == g.cells[i] by {
                assert(h1.cells[i] == h.cells[i]);
            }
        }
        if is_list(h, cy) {
            let ey = elements(h, cy);
            lemma_seg_extended(h, g, cy, ey, VCell::Nil);
            lemma_seg_join(g, head, ex, cy, ey, VCell::Nil);
            lemma_elements(g, head, ex + ey);
        }
        assert(g.deref(r->Ok_0) == head);
        if is_list(g, head) {
            let all = elements(g, head);
            if ex.len() <= all.len() {
                lemma_seg_prefix(g, head, ex, cy, all, VCell::Nil);
                lemma_seg_restricted(h, g, cy, all.skip(ex.len() as int), VCell::Nil);
                lemma_elements(h, cy, all.skip(ex.len() as int));
            } else {
                lemma_seg_prefix(g, head, all, VCell::Nil, ex, cy);
                assert(ex.skip(all.len() as int).len() > 0);
                assert(false);
            }
        }
    }
}

/// The slots of two vectors that hold the same addresses are equal.
pub proof fn lemma_same_slots_equal(h: HeapView, s: Seq<usize>, n: nat, depth: nat)
    requires
        n <= s.len(),
    ensures
        equal_slots(h, s, s, n, depth),
    decreases n,
{
    if n > 0 {
        lemma_same_slots_equal(h, s, (n - 1) as nat, depth);
        assert(eqv_cells(h, VCell::Ptr(s[n - 1]), VCell::Ptr(s[n - 1])));
        assert(equal_at(h, VCell::Ptr(s[n - 1]), VCell::Ptr(s[n - 1]), depth));
    }
}

/// `list->vector` of `vector->list` of a vector is a vector that is
/// `equal?` to the first: its slots hold the very same cells.
pub proof fn law_vector_round_trip(
    h: HeapView,
    v: VCell,
    g1: HeapView,
    r1: Result<VCell, ErrorView>,
    g2: HeapView,
    r2: Result<VCell, ErrorView>,
)
    requires
        h.wf(),
        h.holds(v),
        h.deref(v) is Vector,
        g1.bounded(),
        g2.bounded(),
        vector_to_list_effect(h, seq![v], g1, r1),
        r1 is Ok ==> list_to_vector_effect(g1, seq![r1->Ok_0], g2, r2),
    ensures
        r1 is Ok,
        r2 matches Ok(VCell::Vector(w)) && g2.vector(w) == h.vector(h.deref(v)->Vector_0),
        equal_cells(g2, r2->Ok_0, v),
{
    let handle = h.deref(v)->Vector_0;
    let slots = h.vector(handle);
    let h1 = h.with_cell(VCell::Nil);
    let nil = h.cells.len() as usize;
    lemma_chain_seg(h1, g1, slots, nil);
    assert(h1.cells[nil as int] == VCell::Nil);
    assert(g1.cells[nil as int] == h1.cells[nil as int]);
    assert(g1.at(nil) == VCell::Nil);
    lemma_deref_holds(h, v);
    let list = r1->Ok_0;
    lemma_elements(g1, g1.deref(list), slots);
    let w = g1.vectors.len() as usize;
    assert(g2.vector(w) == slots);
    assert(h.cells.is_prefix_of(g1.cells)) by {
        assert forall|i: int| 0 <= i < h.cells.len() implies h.cells[i] == g1.cells[i] by {
            assert(h1.cells[i] == h.cells[i]);
        }
    }
    assert(g2.deref(v) == h.deref(v));
    assert(g2.vector(handle) == slots);
    lemma_same_slots_equal(g2, slots, slots.len(), (equal_depth(g2) - 1) as nat);
}

/// The cells at the addresses hold just these characters.
pub proof fn lemma_run_chars(h: HeapView, base: nat, chars: Seq<char>, name: Seq<char>, n: nat)
    requires
        n <= chars.len(),
        base + chars.len() <= h.cells.len(),
        base + chars.len() <= usize::MAX,
        forall|i: int| 0 <= i < chars.len() ==> h.cells[base + i] == char_cell(chars, i),
    ensures
        element_chars(h, run(base, n), name) == Ok::<Seq<char>, ErrorView>(chars.take(n as int)),
    decreases n,
{
    if n == 0 {
        assert(chars.take(0) =~= Seq::<char>::empty());
    } else {
        lemma_run_chars(h, base, chars, name, (n - 1) as nat);
        assert(run(base, n).drop_last() =~= run(base, (n - 1) as nat));
        assert(h.at(run(base, n).last()) == char_cell(chars, n - 1));
        assert(chars.take(n as int) =~= chars.take(n - 1).push(chars[n - 1]));
    }
}

/// Where the cells at two runs of addresses hold the same characters,
/// they are equal one by one.
pub proof fn lemma_char_cells_equal(
    h: HeapView,
    e1: Seq<usize>,
    e2: Seq<usize>,
    chars: Seq<char>,
    name: Seq<char>,
    depth: nat,
)
    requires
        element_chars(h, e1, name) == Ok::<Seq<char>, ErrorView>(chars),
        element_chars(h, e2, name) == Ok::<Seq<char>, ErrorView>(chars),
    ensures
        e1.len() == chars.len(),
        e2.len() == chars.len(),
        forall|i: int|
            0 <= i < e1.len() ==> equal_at(
                h,
                VCell::Ptr(#[trigger] e1[i]),
                VCell::Ptr(e2[i]),
                depth,
            ),
    decreases e1.len(),
{
    lemma_element_chars_len(h, e1, name);
    lemma_element_chars_len(h, e2, name);
    if e1.len() > 0 {
        let f1 = element_chars(h, e1.drop_last(), name)->Ok_0;
        let f2 = element_chars(h, e2.drop_last(), name)->Ok_0;
        lemma_element_chars_len(h, e1.drop_last(), name);
        lemma_element_chars_len(h, e2.drop_last(), name);
        assert(f1 =~= chars.drop_last()) by {
            assert(f1.push(h.at(e1.last())->Char_0) == chars);
        }
        assert(f2 =~= chars.drop_last()) by {
            assert(f2.push(h.at(e2.last())->Char_0) == chars);
        }
        lemma_char_cells_equal(h, e1.drop_last(), e2.drop_last(), chars.drop_last(), name, depth);
        assert forall|i: int| 0 <= i < e1.len() implies equal_at(
            h,
            VCell::Ptr(#[trigger] e1[i]),
            VCell::Ptr(e2[i]),
            depth,
        ) by {
            if i < e1.len() - 1 {
                assert(e1.drop_last()[i] == e1[i]);
                assert(equal_at(
                    h,
                    VCell::Ptr(e1.drop_last()[i]),
                    VCell::Ptr(e2.drop_last()[i]),
                    depth,
                ));
            } else {
                assert(h.at(e1.last())->Char_0 == chars.last());
                assert(h.at(e2.last())->Char_0 == chars.last());
            }
        }
    }
}

/// As many characters come out as there are cells.
pub proof fn lemma_element_chars_len(h: HeapView, e: Seq<usize>, name: Seq<char>)
    ensures
        element_chars(h, e, name) matches Ok(chars) ==> chars.len() == e.len(),
    decreases e.len(),
{
    if e.len() > 0 {
        lemma_element_chars_len(h, e.drop_last(), name);
    }
}

/// The characters of cells stay what they are when the heap grows.
pub proof fn lemma_element_chars_extended(h: HeapView, g: HeapView, e: Seq<usize>, name: Seq<char>)
    requires
        h.cells.is_prefix_of(g.cells),
        forall|i: int| 0 <= i < e.len() ==> (#[trigger] e[i]) < h.cells.len(),
        element_chars(h, e, name) is Ok,
    ensures
        element_chars(g, e, name) == element_chars(h, e, name),
    decreases e.len(),
{
    if e.len() > 0 {
        assert forall|i: int| 0 <= i < e.drop_last().len() implies (#[trigger] e.drop_last()[i])
            < h.cells.len() by {
            assert(e.drop_last()[i] == e[i]);
        }
        lemma_element_chars_extended(h, g, e.drop_last(), name);
        assert(e.last() == e[e.len() - 1]);
        assert(h.at(e.last()) == g.at(e.last()));
    }
}

/// `string->list` of `list->string` of a list of characters is a list
/// that is `equal?` to the first.
pub proof fn law_string_round_trip(
    h: HeapView,
    xs: VCell,
    g1: HeapView,
    r1: Result<VCell, ErrorView>,
    g2: HeapView,
    r2: Result<VCell, ErrorView>,
)
    requires
        h.wf(),
        g1.wf(),
        h.holds(xs),
        is_list(h, h.deref(xs)),
        element_chars(h, elements(h, h.deref(xs)), "list->string"@) is Ok,
        g2.bounded(),
        string_maker_effect(BuiltIn::ListToString, h, seq![xs], g1, r1),
        r1 is Ok ==> string_to_list_effect(g1, seq![r1->Ok_0], g2, r2),
    ensures
        r1 is Ok,
        r2 is Ok,
        is_list(g2, g2.deref(r2->Ok_0)),
        element_chars(g2, elements(g2, g2.deref(r2->Ok_0)), "list->string"@) == element_chars(
            h,
            elements(h, h.deref(xs)),
            "list->string"@,
        ),
        equal_cells(g2, r2->Ok_0, xs),
{
    let name = "list->string"@;
    let cx = h.deref(xs);
    let ex = elements(h, cx);
    let chars = element_chars(h, ex, name)->Ok_0;
    let text = r1->Ok_0;
    assert(g1.deref(text) == text);
    assert(g1.string(h.strings.len() as usize) == chars);
    let args = seq![text];
    assert(chars.subrange(0, chars.len() as int) =~= chars);
    assert(crate::builtin::strings::text_of(g1, args[0]) == Ok::<usize, ErrorView>(
        h.strings.len() as usize,
    ));
    assert(crate::builtin::strings::range_of(g1, args, 1, chars.len()) == Ok::<
        (usize, usize),
        ErrorView,
    >((0usize, chars.len() as usize)));
    assert(crate::builtin::strings::substring_chars(g1, args) == Ok::<Seq<char>, ErrorView>(chars));
    let base = g1.cells.len();
    let h1 = with_cells(g1, char_cells(chars)).with_cell(VCell::Nil);
    let addrs = run(base, chars.len());
    let nil = (base + chars.len()) as usize;
    lemma_chain_seg(h1, g2, addrs, nil);
    assert(h1.cells[nil as int] == VCell::Nil);
    assert(g2.cells[nil as int] == h1.cells[nil as int]);
    assert(g2.at(nil) == VCell::Nil);
    let out = r2->Ok_0;
    lemma_elements(g2, g2.deref(out), addrs);
    assert forall|i: int| 0 <= i < chars.len() implies g2.cells[base + i] == char_cell(
        chars,
        i,
    ) by {
        assert(h1.cells[base + i] == char_cells(chars)[i]);
    }
    lemma_run_chars(g2, base, chars, name, chars.len());
    assert(chars.take(chars.len() as int) =~= chars);
    crate::list::lemma_links_valid(h, cx, ex, VCell::Nil);
    lemma_element_chars_extended(h, g2, ex, name);
    assert(h.cells.is_prefix_of(g2.cells)) by {
        assert(g1.cells == h.cells);
        assert forall|i: int| 0 <= i < h.cells.len() implies h.cells[i] == g2.cells[i] by {
            assert(h1.cells[i] == g1.cells[i]);
        }
    }
    lemma_deref_holds(h, xs);
    lemma_seg_extended(h, g2, cx, ex, VCell::Nil);
    assert(g2.deref(xs) == cx);
    lemma_char_cells_equal(g2, addrs, ex, chars, name, (equal_depth(g2) - 1) as nat);
    lemma_lists_equal(g2, out, xs, addrs, ex);
}

/// `string-length` is the number of characters of the string, whatever
/// the number of bytes that they take. Only a length that no number
/// holds is an error.
pub proof fn law_string_length(h: HeapView, s: VCell)
    requires
        h.deref(s) is String,
    ensures
        ({
            let n = h.string(h.deref(s)->String_0).len();
            &&& string_length_result(h, seq![s]) is Ok <==> n <= i64::MAX
            &&& string_length_result(h, seq![s]) matches Ok(v) ==> v == VCell::Number(
                Number::Fixnum(n as i64),
            ) && Number::Fixnum(n as i64)@.num == n
        }),
{
}

/// `make-vector` with a size that is an integer and not negative returns
/// a vector of that size, and every slot of it holds the fill value: the
/// cell that the fill argument stands for, or the number zero where there
/// is none. Only a size that is no address of this machine is refused.
pub proof fn law_make_vector_filled(
    h: HeapView,
    args: Seq<VCell>,
    g: HeapView,
    r: Result<VCell, ErrorView>,
    i: int,
)
    requires
        h.wf(),
        1 <= args.len() <= 2,
        args.len() == 2 ==> h.holds(args[1]),
        h.deref(args[0]) is Number,
        h.deref(args[0])->Number_0.spec_is_integer(),
        h.deref(args[0])->Number_0@.num >= 0,
        make_vector_effect(h, args, g, r),
    ensures
        r is Ok <==> h.deref(args[0])->Number_0@.num <= usize::MAX,
        r matches Ok(v) ==> v matches VCell::Vector(w) && g.vector(w).len() == h.deref(
            args[0],
        )->Number_0@.num && (0 <= i < g.vector(w).len() ==> g.at(g.vector(w)[i]) == (if args.len()
            == 2 {
            h.deref(args[1])
        } else {
            VCell::Number(Number::Fixnum(0))
        })),
{
}

/// `make-string` with a length that is an integer and not negative
/// returns a string of that length, and every character of it is the fill
/// character, or the null character where there is none. Only a length
/// that is no index of this machine is refused.
pub proof fn law_make_string_filled(
    h: HeapView,
    args: Seq<VCell>,
    g: HeapView,
    r: Result<VCell, ErrorView>,
    i: int,
)
    requires
        h.wf(),
        1 <= args.len() <= 2,
        args.len() == 2 ==> h.deref(args[1]) is Char,
        h.deref(args[0]) is Number,
        h.deref(args[0])->Number_0.spec_is_integer(),
        h.deref(args[0])->Number_0@.num >= 0,
        string_maker_effect(BuiltIn::MakeString, h, args, g, r),
    ensures
        r is Ok <==> h.deref(args[0])->Number_0@.num <= usize::MAX,
        r matches Ok(v) ==> v matches VCell::String(w) && g.string(w).len() == h.deref(
            args[0],
        )->Number_0@.num && (0 <= i < g.string(w).len() ==> g.string(w)[i] == (if args.len()
            == 2 {
            h.deref(args[1])->Char_0
        } else {
            '\0'
        })),
{
}

/// `integer->char` of `char->integer` of a character is that character.
pub proof fn law_char_integer_round_trip(h: HeapView, v: VCell, g: HeapView, w: VCell)
    requires
        h.deref(v) is Char,
        char_unary_result(BuiltIn::CharToInteger, h, seq![v]) == Ok::<VCell, ErrorView>(
            g.deref(w),
        ),
    ensures
        integer_to_char_result(g, seq![w]) == Ok::<VCell, ErrorView>(h.deref(v)),
{
    let c = h.deref(v)->Char_0;
    vstd::utf8::char_is_scalar(c);
    vstd::utf8::char_u32_cast(c, c as u32);
}

/// The sum of two numbers does not depend on their order.
pub proof fn law_add_commutative(a: Number, b: Number)
    ensures
        a.spec_add(b) == b.spec_add(a),
{
    assert(a@.num * b@.den + b@.num * a@.den == b@.num * a@.den + a@.num * b@.den);
    assert(a@.den * b@.den == b@.den * a@.den) by (nonlinear_arith);
}

/// The number that holds a fraction that fits stands for that fraction.
pub proof fn lemma_number_of(r: Ratio)
    requires
        fits(r),
    ensures
        number_of(r)@ == r,
        number_of(r).valid(),
{
}

/// What the sum of a sum and a third number stands for.
pub proof fn lemma_add_value(a: Number, b: Number, c: Number)
    requires
        a.valid(),
        b.valid(),
        c.valid(),
        a.spec_add(b) is Some,
    ensures
        a.spec_add(b)->Some_0.spec_add(c) == checked(
            c,
            c,
            reduce(
                a@.num * b@.den * c@.den + b@.num * a@.den * c@.den + c@.num * a@.den * b@.den,
                a@.den * b@.den * c@.den,
            ),
        ),
{
    let n = a@.num * b@.den + b@.num * a@.den;
    let d = a@.den * b@.den;
    assert(d > 0) by (nonlinear_arith)
        requires
            d == a@.den * b@.den,
            a@.den > 0,
            b@.den > 0,
    ;
    lemma_reduce(n, d);
    let ab = reduce(n, d);
    lemma_number_of(ab);
    let left = Ratio { num: ab.num * c@.den + c@.num * ab.den, den: ab.den * c@.den };
    let whole = Ratio {
        num: a@.num * b@.den * c@.den + b@.num * a@.den * c@.den + c@.num * a@.den * b@.den,
        den: a@.den * b@.den * c@.den,
    };
    assert(left.den > 0 && whole.den > 0) by (nonlinear_arith)
        requires
            left.den == ab.den * c@.den,
            whole.den == d * c@.den,
            ab.den > 0,
            d > 0,
            c@.den > 0,
    ;
    assert(whole.num == n * c@.den + c@.num * d) by (nonlinear_arith)
        requires
            whole.num == a@.num * b@.den * c@.den + b@.num * a@.den * c@.den + c@.num * a@.den
                * b@.den,
            n == a@.num * b@.den + b@.num * a@.den,
            d == a@.den * b@.den,
    ;
    assert(whole.den == d * c@.den);
    let p = ab.num;
    let q = ab.den;
    let e = c@.den;
    let m = c@.num;
    assert((p * e + m * q) * (d * e) == (p * d) * (e * e) + m * q * d * e) by (nonlinear_arith);
    assert((n * e) * (q * e) == (n * q) * (e * e)) by (nonlinear_arith);
    assert((m * d) * (q * e) == m * q * d * e) by (nonlinear_arith);
    assert((n * e + m * d) * (q * e) == (n * e) * (q * e) + (m * d) * (q * e))
        by (nonlinear_arith);
    assert(p * d == n * q);
    assert(ratio_eq(left, whole));
    lemma_reduce_same(left, whole);
}

/// The sum of three numbers does not depend on which two of them are
/// added first, where both of those sums fit.
pub proof fn law_add_associative(a: Number, b: Number, c: Number)
    requires
        a.valid(),
        b.valid(),
        c.valid(),
        a.spec_add(b) is Some,
        b.spec_add(c) is Some,
    ensures
        a.spec_add(b)->Some_0.spec_add(c) == a.spec_add(b.spec_add(c)->Some_0),
{
    lemma_add_value(a, b, c);
    lemma_add_value(b, c, a);
    law_add_commutative(a, b.spec_add(c)->Some_0);
    assert(b@.num * c@.den * a@.den + c@.num * b@.den * a@.den + a@.num * b@.den * c@.den
        == a@.num * b@.den * c@.den + b@.num * a@.den * c@.den + c@.num * a@.den * b@.den)
        by (nonlinear_arith);
    assert(b@.den * c@.den * a@.den == a@.den * b@.den * c@.den) by (nonlinear_arith);
}

/// `+` of two numbers does not depend on their order.
pub proof fn law_plus_commutative(h: HeapView, x: VCell, y: VCell)
    requires
        h.wf(),
        h.holds(x),
        h.holds(y),
        h.deref(x) is Number,
        h.deref(y) is Number,
    ensures
        plus_result(h, seq![x, y]) == plus_result(h, seq![y, x]),
{
    let a = h.deref(x)->Number_0;
    let b = h.deref(y)->Number_0;
    lemma_deref_holds(h, x);
    lemma_deref_holds(h, y);
    let zero = Number::Fixnum(0);
    reveal_with_fuel(fold, 3);
    assert(seq![x, y].drop_first() =~= seq![y]);
    assert(seq![y, x].drop_first() =~= seq![x]);
    assert(seq![y].drop_first() =~= Seq::<VCell>::empty());
    assert(seq![x].drop_first() =~= Seq::<VCell>::empty());
    lemma_zero_plus(a);
    lemma_zero_plus(b);
    lemma_add_value(zero, b, a);
    lemma_add_value(zero, a, b);
    assert(0 * b@.den * a@.den + b@.num * 1 * a@.den + a@.num * 1 * b@.den == 0 * a@.den * b@.den
        + a@.num * 1 * b@.den + b@.num * 1 * a@.den) by (nonlinear_arith);
    assert(1 * b@.den * a@.den == 1 * a@.den * b@.den) by (nonlinear_arith);
}

/// Zero and a number that stands for a fraction have a sum.
pub proof fn lemma_zero_plus(a: Number)
    requires
        a.valid(),
    ensures
        Number::Fixnum(0).spec_add(a) is Some,
{
    assert(0 * a@.den + a@.num * 1 == a@.num);
    assert(1 * a@.den == a@.den);
    lemma_reduce(a@.num, a@.den);
}

/// `+` of two numbers is their sum as a fraction in lowest terms, in
/// either order: the number that holds it where its two parts fit, and
/// the error of a result out of range where they do not.
pub proof fn law_plus_sum(h: HeapView, x: VCell, y: VCell)
    requires
        h.wf(),
        h.holds(x),
        h.holds(y),
        h.deref(x) is Number,
        h.deref(y) is Number,
    ensures
        ({
            let a = h.deref(x)->Number_0;
            let b = h.deref(y)->Number_0;
            let sum = a@.num * b@.den + b@.num * a@.den;
            &&& plus_result(h, seq![x, y]) == checked_value("+"@, a.spec_add(b))
            &&& plus_result(h, seq![y, x]) == plus_result(h, seq![x, y])
            &&& a.spec_add(b) is Some <==> fits(reduce(sum, a@.den * b@.den))
            &&& a.spec_add(b) matches Some(n) ==> n.valid() && lowest(n@) && n@.num * (a@.den
                * b@.den) == sum * n@.den
        }),
{
    let a = h.deref(x)->Number_0;
    let b = h.deref(y)->Number_0;
    lemma_deref_holds(h, x);
    lemma_deref_holds(h, y);
    law_plus_commutative(h, x, y);
    let zero = Number::Fixnum(0);
    reveal_with_fuel(fold, 3);
    assert(seq![x, y].drop_first() =~= seq![y]);
    assert(seq![y].drop_first() =~= Seq::<VCell>::empty());
    lemma_zero_plus(b);
    lemma_add_value(zero, b, a);
    assert(0 * b@.den * a@.den + b@.num * 1 * a@.den + a@.num * 1 * b@.den == a@.num * b@.den
        + b@.num * a@.den) by (nonlinear_arith);
    assert(1 * b@.den * a@.den == a@.den * b@.den) by (nonlinear_arith);
    assert(a@.den * b@.den > 0) by (nonlinear_arith)
        requires
            a@.den > 0,
            b@.den > 0,
    ;
    lemma_reduce(a@.num * b@.den + b@.num * a@.den, a@.den * b@.den);
}

/// `+` of three numbers is the same whichever two are added first,
/// where the sums of the first two and of the last two are numbers:
/// adding the third to the sum of the first two, adding the first to the
/// sum of the last two, and adding all three at once.
pub proof fn law_plus_associative(h: HeapView, x: VCell, y: VCell, z: VCell, xy: VCell, yz: VCell)
    requires
        h.wf(),
        h.holds(x),
        h.holds(y),
        h.holds(z),
        h.deref(x) is Number,
        h.deref(y) is Number,
        h.deref(z) is Number,
        plus_result(h, seq![x, y]) == Ok::<VCell, ErrorView>(xy),
        plus_result(h, seq![y, z]) == Ok::<VCell, ErrorView>(yz),
    ensures
        plus_result(h, seq![xy, z]) == plus_result(h, seq![x, yz]),
        plus_result(h, seq![x, y, z]) == plus_result(h, seq![x, yz]),
{
    let a = h.deref(x)->Number_0;
    let b = h.deref(y)->Number_0;
    let c = h.deref(z)->Number_0;
    lemma_deref_holds(h, x);
    lemma_deref_holds(h, y);
    lemma_deref_holds(h, z);
    law_plus_sum(h, x, y);
    law_plus_sum(h, y, z);
    let ab = a.spec_add(b)->Some_0;
    let bc = b.spec_add(c)->Some_0;
    assert(xy == VCell::Number(ab));
    assert(yz == VCell::Number(bc));
    law_plus_sum(h, xy, z);
    law_plus_sum(h, x, yz);
    law_add_associative(a, b, c);
    law_plus_of_three(h, x, y, z, yz);
}

/// `+` of three numbers at once is `+` of the first and the sum of the
/// last two, where that sum is a number.
pub proof fn law_plus_of_three(h: HeapView, x: VCell, y: VCell, z: VCell, yz: VCell)
    requires
        h.wf(),
        h.holds(x),
        h.holds(y),
        h.holds(z),
        h.deref(x) is Number,
        h.deref(y) is Number,
        h.deref(z) is Number,
        plus_result(h, seq![y, z]) == Ok::<VCell, ErrorView>(yz),
    ensures
        plus_result(h, seq![x, y, z]) == plus_result(h, seq![x, yz]),
{
    let a = h.deref(x)->Number_0;
    let b = h.deref(y)->Number_0;
    let c = h.deref(z)->Number_0;
    lemma_deref_holds(h, x);
    lemma_deref_holds(h, y);
    lemma_deref_holds(h, z);
    law_plus_sum(h, y, z);
    let bc = b.spec_add(c)->Some_0;
    assert(yz == VCell::Number(bc));
    law_plus_sum(h, x, yz);
    law_add_commutative(bc, a);
    assert(seq![x, y, z].drop_first() =~= seq![y, z]);
    reveal_with_fuel(fold, 2);
}

} // verus!
