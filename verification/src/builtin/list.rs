//! Pairs and lists.
use crate::builtin::{all_hold, index_arg, index_of, pop_args, rendered, rendered_with};
use crate::error::{Error, ErrorView};
use crate::heap::{Heap, HeapView};
use crate::list::{elements, lemma_elements, lemma_seg_extended, list_elements, seg};
use crate::printer::{decimal, push_decimal, push_value, written, RENDER_DEPTH};
use crate::text::{push_str, string_of};
use crate::vcell::VCell;
use crate::vm::Vm;
use vstd::prelude::*;

verus! {

/// `car`: a pointer to the first part of a pair.
pub open spec fn car_result(h: HeapView, args: Seq<VCell>) -> Result<VCell, ErrorView> {
    match h.deref(args[0]) {
        VCell::Pair(car, _) => Ok(VCell::Ptr(car)),
        c => Err(ErrorView::ExpectedPairButFound(written(h, c))),
    }
}

/// `cdr`: a pointer to the second part of a pair.
pub open spec fn cdr_result(h: HeapView, args: Seq<VCell>) -> Result<VCell, ErrorView> {
    match h.deref(args[0]) {
        VCell::Pair(_, cdr) => Ok(VCell::Ptr(cdr)),
        c => Err(ErrorView::ExpectedPairButFound(written(h, c))),
    }
}

/// `cons`: the pair of the addresses of its two arguments. An argument
/// that is no pointer is stored first.
pub open spec fn cons_effect(
    h: HeapView,
    args: Seq<VCell>,
    g: HeapView,
    r: Result<VCell, ErrorView>,
) -> bool {
    let h1 = h.put(args[0]);
    &&& g == h1.put(args[1])
    &&& r == Ok::<VCell, ErrorView>(VCell::Pair(h.put_addr(args[0]), h1.put_addr(args[1])))
}

/// What `set-car!` (`first`) or `set-cdr!` does: the pair that the first
/// argument points to gets the address of the second argument as its
/// part. A first argument that is no pair is an error; a pair that is
/// handed over as a cell, not by pointer, has no place to change.
pub open spec fn set_part_effect(
    first: bool,
    h: HeapView,
    args: Seq<VCell>,
    g: HeapView,
    r: Result<VCell, ErrorView>,
) -> bool {
    match h.deref(args[0]) {
        VCell::Pair(car, cdr) => match args[0] {
            VCell::Ptr(a) => {
                let h1 = h.put(args[1]);
                let part = h.put_addr(args[1]);
                &&& r == Ok::<VCell, ErrorView>(VCell::Void)
                &&& g == HeapView {
                    cells: h1.cells.update(
                        a as int,
                        if first {
                            VCell::Pair(part, cdr)
                        } else {
                            VCell::Pair(car, part)
                        },
                    ),
                    ..h1
                }
            },
            _ => g == h && r == Err::<VCell, ErrorView>(ErrorView::HeapCorruption),
        },
        _ => g == h && r == Err::<VCell, ErrorView>(
            ErrorView::InvalidSyntax(
                if first {
                    "set-car! expected a pair"@
                } else {
                    "set-cdr! expected a pair"@
                },
            ),
        ),
    }
}

pub fn car(vm: &mut Vm) -> (r: Result<VCell, Error>)
    requires
        old(vm).wf(),
    ensures
        final(vm).wf(),
        crate::builtin::applied(crate::vcell::BuiltIn::Car, *old(vm), *final(vm), r),
{
    let args = pop_args(vm, 1, Some(1), "car")?;
    match vm.heap.get(args[0]) {
        VCell::Pair(car, _) => Ok(VCell::Ptr(car)),
        c => Err(Error::ExpectedPairButFound(rendered(&vm.heap, c))),
    }
}

pub fn cdr(vm: &mut Vm) -> (r: Result<VCell, Error>)
    requires
        old(vm).wf(),
    ensures
        final(vm).wf(),
        crate::builtin::applied(crate::vcell::BuiltIn::Cdr, *old(vm), *final(vm), r),
{
    let args = pop_args(vm, 1, Some(1), "cdr")?;
    match vm.heap.get(args[0]) {
        VCell::Pair(_, cdr) => Ok(VCell::Ptr(cdr)),
        c => Err(Error::ExpectedPairButFound(rendered(&vm.heap, c))),
    }
}

pub fn cons(vm: &mut Vm) -> (r: Result<VCell, Error>)
    requires
        old(vm).wf(),
    ensures
        final(vm).wf(),
        crate::builtin::applied(crate::vcell::BuiltIn::Cons, *old(vm), *final(vm), r),
{
    let args = pop_args(vm, 2, Some(2), "cons")?;
    let car = vm.heap.address(args[0]);
    let cdr = vm.heap.address(args[1]);
    Ok(VCell::Pair(car, cdr))
}

/// Replaces one part of the pair that `args[0]` points to.
fn set_part(vm: &mut Vm, args: &Vec<VCell>, first: bool) -> (r: Result<VCell, Error>)
    requires
        old(vm).wf(),
        args.len() == 2,
        all_hold(old(vm).heap@, args@),
    ensures
        final(vm).wf(),
        final(vm).stack@ == old(vm).stack@,
        final(vm).globenv@ == old(vm).globenv@,
        set_part_effect(first, old(vm).heap@, args@, final(vm).heap@, crate::error::outcome(r)),
{
    match vm.heap.get(args[0]) {
        VCell::Pair(car, cdr) => match args[0] {
            VCell::Ptr(a) => {
                let part = vm.heap.address(args[1]);
                let pair = if first {
                    VCell::Pair(part, cdr)
                } else {
                    VCell::Pair(car, part)
                };
                vm.heap.set_at_index(a, pair);
                Ok(VCell::Void)
            },
            _ => Err(Error::HeapCorruption),
        },
        _ => Err(
            Error::InvalidSyntax(
                if first {
                    "set-car! expected a pair".to_owned()
                } else {
                    "set-cdr! expected a pair".to_owned()
                },
            ),
        ),
    }
}

pub fn set_car(vm: &mut Vm) -> (r: Result<VCell, Error>)
    requires
        old(vm).wf(),
    ensures
        final(vm).wf(),
        crate::builtin::applied(crate::vcell::BuiltIn::SetCar, *old(vm), *final(vm), r),
{
    let args = pop_args(vm, 2, Some(2), "set-car!")?;
    set_part(vm, &args, true)
}

pub fn set_cdr(vm: &mut Vm) -> (r: Result<VCell, Error>)
    requires
        old(vm).wf(),
    ensures
        final(vm).wf(),
        crate::builtin::applied(crate::vcell::BuiltIn::SetCdr, *old(vm), *final(vm), r),
{
    let args = pop_args(vm, 2, Some(2), "set-cdr!")?;
    set_part(vm, &args, false)
}

/// `g` is `h` with a chain of new pairs behind its cells: the cars of the
/// chain are `elems`, the cdr of its last pair is `tail`, and the pair of
/// the last element was stored first.
pub open spec fn chain_added(h: HeapView, g: HeapView, elems: Seq<usize>, tail: usize) -> bool {
    let n = elems.len();
    let base = h.cells.len();
    &&& g == HeapView { cells: g.cells, ..h }
    &&& g.cells.len() == base + n
    &&& h.cells.is_prefix_of(g.cells)
    &&& forall|i: int|
        0 <= i < n ==> #[trigger] g.cells[base + i] == VCell::Pair(
            elems[n - 1 - i],
            if i == 0 {
                tail
            } else {
                (base + i - 1) as usize
            },
        )
}

/// The pair of a chain that is stored as the `i`-th, behind `base` cells:
/// the pair of the last element is stored first.
pub open spec fn chain_cell(base: nat, elems: Seq<usize>, tail: usize, i: int) -> VCell {
    VCell::Pair(
        elems[elems.len() - 1 - i],
        if i == 0 {
            tail
        } else {
            (base + i - 1) as usize
        },
    )
}

/// The heap with a chain of new pairs behind its cells: the cars of the
/// chain are `elems`, the cdr of its last pair is `tail`.
pub open spec fn chained(h: HeapView, elems: Seq<usize>, tail: usize) -> HeapView {
    HeapView {
        cells: h.cells + Seq::new(
            elems.len(),
            |i: int| chain_cell(h.cells.len(), elems, tail, i),
        ),
        ..h
    }
}

/// There is one heap with a given chain added to a given heap.
pub proof fn lemma_chained(h: HeapView, g: HeapView, elems: Seq<usize>, tail: usize)
    requires
        chain_added(h, g, elems, tail),
    ensures
        g == chained(h, elems, tail),
{
    let base = h.cells.len();
    assert forall|k: int| 0 <= k < g.cells.len() implies g.cells[k] == chained(
        h,
        elems,
        tail,
    ).cells[k] by {
        if k >= base {
            assert(g.cells[base + (k - base)] == chain_cell(base, elems, tail, k - base));
        }
    }
    assert(g.cells =~= chained(h, elems, tail).cells);
}

/// The address of the first pair of the chain that [`chain_added`] speaks
/// of; `tail` where the chain has no pair.
pub open spec fn chain_head(h: HeapView, elems: Seq<usize>, tail: usize) -> usize {
    if elems.len() == 0 {
        tail
    } else {
        (h.cells.len() + elems.len() - 1) as usize
    }
}

/// The chain that was added leads from its head over `elems` to the cell
/// at `tail`.
pub proof fn lemma_chain_seg(h: HeapView, g: HeapView, elems: Seq<usize>, tail: usize)
    requires
        chain_added(h, g, elems, tail),
        tail < h.cells.len(),
        g.cells.len() <= usize::MAX,
    ensures
        seg(g, g.at(chain_head(h, elems, tail)), elems, g.at(tail)),
        forall|i: int|
            0 <= i < elems.len() ==> 0 <= #[trigger] crate::list::links(
                g,
                g.at(chain_head(h, elems, tail)),
                elems.len(),
            )[i] < g.cells.len(),
    decreases elems.len(),
{
    let n = elems.len();
    let base = h.cells.len();
    if n > 0 {
        let rest = elems.drop_first();
        // The heap without the pair that was stored last.
        let mid = HeapView { cells: g.cells.drop_last(), ..g };
        assert(chain_added(h, mid, rest, tail)) by {
            assert forall|i: int| 0 <= i < n - 1 implies #[trigger] mid.cells[base + i]
                == VCell::Pair(
                rest[n - 2 - i],
                if i == 0 {
                    tail
                } else {
                    (base + i - 1) as usize
                },
            ) by {
                assert(mid.cells[base + i] == g.cells[base + i]);
            }
        }
        lemma_chain_seg(h, mid, rest, tail);
        let next = chain_head(h, rest, tail);
        assert(g.cells[base + (n - 1)] == VCell::Pair(elems[0], next));
        assert(mid.at(tail) == g.at(tail));
        assert(mid.at(next) == g.at(next));
        crate::list::lemma_seg_kept_prefix(mid, g, mid.at(next), rest, mid.at(tail), base + n - 1);
        let all = crate::list::links(g, g.at(chain_head(h, elems, tail)), n);
        let inner = crate::list::links(g, g.at(next), (n - 1) as nat);
        crate::list::lemma_links_len(g, g.at(next), rest, g.at(tail));
        assert forall|i: int| 0 <= i < n implies 0 <= #[trigger] all[i] < g.cells.len() by {
            if i > 0 {
                assert(all[i] == inner[i - 1]);
            }
        }
    }
}

/// Two chains added one after the other are one chain.
pub proof fn lemma_chain_compose(
    h: HeapView,
    mid: HeapView,
    g: HeapView,
    back: Seq<usize>,
    front: Seq<usize>,
    tail: usize,
)
    requires
        chain_added(h, mid, back, tail),
        chain_added(mid, g, front, chain_head(h, back, tail)),
    ensures
        chain_added(h, g, front + back, tail),
        chain_head(h, front + back, tail) == chain_head(mid, front, chain_head(h, back, tail)),
{
    let all = front + back;
    let base = h.cells.len();
    let n = all.len();
    assert forall|i: int| 0 <= i < n implies #[trigger] g.cells[base + i] == VCell::Pair(
        all[n - 1 - i],
        if i == 0 {
            tail
        } else {
            (base + i - 1) as usize
        },
    ) by {
        if i < back.len() {
            assert(g.cells[base + i] == mid.cells[base + i]);
        } else {
            let j = i - back.len();
            assert(g.cells[mid.cells.len() + j] == g.cells[base + i]);
        }
    }
}

/// Stores a chain of pairs with the cars `elems` in front of the cell at
/// `tail` and returns the address of its first pair.
pub fn build_list(heap: &mut Heap, elems: &Vec<usize>, tail: usize) -> (head: usize)
    requires
        old(heap).wf(),
        tail < old(heap)@.cells.len(),
        forall|i: int| 0 <= i < elems.len() ==> (#[trigger] elems[i]) < old(heap)@.cells.len(),
    ensures
        final(heap).wf(),
        chain_added(old(heap)@, final(heap)@, elems@, tail),
        final(heap)@ == chained(old(heap)@, elems@, tail),
        head == chain_head(old(heap)@, elems@, tail),
        head < final(heap)@.cells.len(),
{
    let mut head = tail;
    let mut i = elems.len();
    let ghost n = elems@.len();
    let ghost base = old(heap)@.cells.len();
    while i > 0
        invariant
            heap.wf(),
            i <= elems.len(),
            n == elems@.len(),
            base == old(heap)@.cells.len(),
            tail < base,
            forall|k: int| 0 <= k < elems.len() ==> (#[trigger] elems[k]) < base,
            heap@ == (HeapView { cells: heap@.cells, ..old(heap)@ }),
            heap@.cells.len() == base + (n - i),
            old(heap)@.cells.is_prefix_of(heap@.cells),
            forall|k: int|
                0 <= k < n - i ==> #[trigger] heap@.cells[base + k] == VCell::Pair(
                    elems@[n - 1 - k],
                    if k == 0 {
                        tail
                    } else {
                        (base + k - 1) as usize
                    },
                ),
            head == if i == n {
                tail
            } else {
                (base + (n - i) - 1) as usize
            },
        decreases i,
    {
        i = i - 1;
        head = heap.address(VCell::Pair(elems[i], head));
    }
    proof {
        lemma_chained(old(heap)@, heap@, elems@, tail);
    }
    head
}

/// The vector in reverse order.
pub fn reversed(v: &Vec<usize>) -> (r: Vec<usize>)
    ensures
        r@ == v@.reverse(),
{
    let mut r: Vec<usize> = Vec::new();
    let mut i = v.len();
    while i > 0
        invariant
            i <= v.len(),
            r@.len() == v.len() - i,
            forall|k: int| 0 <= k < r@.len() ==> r@[k] == v@[v.len() - 1 - k],
        decreases i,
    {
        i = i - 1;
        r.push(v[i]);
    }
    assert(r@ =~= v@.reverse());
    r
}

/// The error for a cell that is no proper list: a chain of pairs that
/// ends in something other than nil, or never ends, is improper; anything
/// else is no pair.
pub open spec fn list_error(h: HeapView, c: VCell) -> ErrorView {
    if c is Pair {
        ErrorView::InvalidSyntax(written(h, c) + " is an improper list"@)
    } else {
        ErrorView::ExpectedPairButFound(written(h, c))
    }
}

pub fn list_error_for(heap: &Heap, c: VCell) -> (e: Error)
    ensures
        e@ == list_error(heap@, c),
{
    if c.is_pair() {
        Error::InvalidSyntax(rendered_with(heap, c, " is an improper list"))
    } else {
        Error::ExpectedPairButFound(rendered(heap, c))
    }
}

/// What [`clone_list`] does: for a proper list that is not empty, a chain
/// of new pairs with the same elements in front of the cell at `tail`.
pub open spec fn clone_effect(
    h: HeapView,
    list: VCell,
    tail: usize,
    g: HeapView,
    r: Result<VCell, ErrorView>,
) -> bool {
    let c = h.deref(list);
    if c is Pair && crate::list::is_list(h, c) {
        &&& chain_added(h, g, elements(h, c), tail)
        &&& r == Ok::<VCell, ErrorView>(VCell::Ptr(chain_head(h, elements(h, c), tail)))
    } else {
        g == h && r == Err::<VCell, ErrorView>(list_error(h, c))
    }
}

/// Clones the pairs of a list. The clone ends in the cell at `tail` where
/// the list ends in nil. It is an error if `list` is no pair or an
/// improper list.
pub fn clone_list(vm: &mut Vm, list: VCell, tail: usize) -> (r: Result<VCell, Error>)
    requires
        old(vm).wf(),
        old(vm).heap@.holds(list),
        tail < old(vm).heap@.cells.len(),
    ensures
        final(vm).wf(),
        final(vm).stack@ == old(vm).stack@,
        final(vm).globenv@ == old(vm).globenv@,
        clone_effect(old(vm).heap@, list, tail, final(vm).heap@, crate::error::outcome(r)),
        r matches Ok(v) ==> final(vm).heap@.holds(v),
{
    let c = vm.heap.get(list);
    if !c.is_pair() {
        return Err(list_error_for(&vm.heap, c));
    }
    match list_elements(&vm.heap, c) {
        None => Err(list_error_for(&vm.heap, c)),
        Some(elems) => {
            proof {
                lemma_elements(vm.heap@, c, elems@);
                crate::list::lemma_links_valid(vm.heap@, c, elems@, VCell::Nil);
            }
            let head = build_list(&mut vm.heap, &elems, tail);
            Ok(VCell::Ptr(head))
        },
    }
}

/// `reverse`: a new list with the elements of a proper list in reverse
/// order: a new nil cell and in front of it one new pair for each element.
/// The empty list is returned as it is.
pub open spec fn reverse_effect(
    h: HeapView,
    args: Seq<VCell>,
    g: HeapView,
    r: Result<VCell, ErrorView>,
) -> bool {
    let c = h.deref(args[0]);
    if c is Nil {
        g == h && r == Ok::<VCell, ErrorView>(c)
    } else if !crate::list::is_list(h, c) {
        g == h && r == Err::<VCell, ErrorView>(list_error(h, c))
    } else {
        let h1 = h.with_cell(VCell::Nil);
        let nil = h.cells.len() as usize;
        let order = elements(h, c).reverse();
        &&& chain_added(h1, g, order, nil)
        &&& r == Ok::<VCell, ErrorView>(VCell::Ptr(chain_head(h1, order, nil)))
    }
}

pub fn reverse(vm: &mut Vm) -> (r: Result<VCell, Error>)
    requires
        old(vm).wf(),
    ensures
        final(vm).wf(),
        crate::builtin::applied(crate::vcell::BuiltIn::Reverse, *old(vm), *final(vm), r),
{
    let args = pop_args(vm, 1, Some(1), "reverse")?;
    let c = vm.heap.get(args[0]);
    if c.is_nil() {
        return Ok(c);
    }
    match list_elements(&vm.heap, c) {
        None => Err(list_error_for(&vm.heap, c)),
        Some(elems) => {
            proof {
                lemma_elements(vm.heap@, c, elems@);
                crate::list::lemma_links_valid(vm.heap@, c, elems@, VCell::Nil);
            }
            let order = reversed(&elems);
            let nil = vm.heap.address(VCell::Nil);
            let head = build_list(&mut vm.heap, &order, nil);
            Ok(VCell::Ptr(head))
        },
    }
}

/// The elements of the lists `lists`, one list after the other; where
/// some are no proper lists, the error for the last of them.
pub open spec fn append_elems(h: HeapView, lists: Seq<VCell>) -> Result<Seq<usize>, ErrorView>
    decreases lists.len(),
{
    if lists.len() == 0 {
        Ok(Seq::empty())
    } else {
        let c = h.deref(lists[0]);
        match append_elems(h, lists.drop_first()) {
            Err(e) => Err(e),
            Ok(back) => if crate::list::is_list(h, c) {
                Ok(elements(h, c) + back)
            } else {
                Err(list_error(h, c))
            },
        }
    }
}

/// `append`: nil without arguments. Else the last argument is the tail,
/// whatever it is, and all before it have to be proper lists: the result
/// is a chain of new pairs with their elements in front of the tail, or
/// the tail itself, as it was handed over, where they have none.
pub open spec fn append_effect(
    h: HeapView,
    args: Seq<VCell>,
    g: HeapView,
    r: Result<VCell, ErrorView>,
) -> bool {
    if args.len() == 0 {
        g == h && r == Ok::<VCell, ErrorView>(VCell::Nil)
    } else {
        match append_elems(h, args.drop_last()) {
            Err(e) => g == h && r == Err::<VCell, ErrorView>(e),
            Ok(elems) => if elems.len() == 0 {
                g == h && r == Ok::<VCell, ErrorView>(args.last())
            } else {
                let h1 = h.put(args.last());
                let tail = h.put_addr(args.last());
                &&& chain_added(h1, g, elems, tail)
                &&& r == Ok::<VCell, ErrorView>(VCell::Ptr(chain_head(h1, elems, tail)))
            },
        }
    }
}

/// An error among the lists from `k` on is the error of all of them.
pub proof fn lemma_append_error(h: HeapView, lists: Seq<VCell>, k: int)
    requires
        0 <= k <= lists.len(),
        append_elems(h, lists.skip(k)) is Err,
    ensures
        append_elems(h, lists) == append_elems(h, lists.skip(k)),
    decreases k,
{
    if k > 0 {
        assert(lists.skip(k - 1).drop_first() =~= lists.skip(k));
        lemma_append_error(h, lists, k - 1);
    } else {
        assert(lists.skip(0) =~= lists);
    }
}

/// The elements of proper lists stay what they are when the heap grows.
pub proof fn lemma_append_elems_extended(h: HeapView, g: HeapView, lists: Seq<VCell>)
    requires
        h.wf(),
        all_hold(h, lists),
        h.cells.is_prefix_of(g.cells),
        append_elems(h, lists) is Ok,
    ensures
        append_elems(g, lists) == append_elems(h, lists),
    decreases lists.len(),
{
    if lists.len() > 0 {
        let c = h.deref(lists[0]);
        assert(h.holds(lists[0]));
        assert(g.deref(lists[0]) == c);
        assert(all_hold(h, lists.drop_first())) by {
            assert forall|i: int| 0 <= i < lists.drop_first().len() implies h.holds(
                #[trigger] lists.drop_first()[i],
            ) by {
                assert(lists.drop_first()[i] == lists[i + 1]);
            }
        }
        lemma_append_elems_extended(h, g, lists.drop_first());
        lemma_seg_extended(h, g, c, elements(h, c), VCell::Nil);
        lemma_elements(g, c, elements(h, c));
    }
}

#[verifier::loop_isolation(false)]
pub fn append(vm: &mut Vm) -> (r: Result<VCell, Error>)
    requires
        old(vm).wf(),
    ensures
        final(vm).wf(),
        crate::builtin::applied(crate::vcell::BuiltIn::Append, *old(vm), *final(vm), r),
{
    let args = pop_args(vm, 0, None, "append")?;
    let n = args.len();
    if n == 0 {
        return Ok(VCell::Nil);
    }
    let ghost h = vm.heap@;
    let ghost lists = args@.drop_last();
    let ghost after_pop = *vm;
    // Every argument but the last has to be a proper list; the last of
    // those that are none decides the error.
    let mut i = n - 1;
    let mut any = false;
    while i > 0
        invariant
            vm.wf(),
            *vm == after_pop,
            h == vm.heap@,
            n == args.len(),
            lists == args@.drop_last(),
            i <= n - 1,
            all_hold(h, args@),
            match append_elems(h, lists.skip(i as int)) {
                Ok(elems) => any == (elems.len() > 0),
                Err(_) => false,
            },
        decreases i,
    {
        i = i - 1;
        let c = vm.heap.get(args[i]);
        assert(lists.skip(i as int).drop_first() =~= lists.skip(i + 1));
        assert(lists.skip(i as int)[0] == args@[i as int]);
        match list_elements(&vm.heap, c) {
            None => {
                proof {
                    lemma_append_error(h, lists, i as int);
                }
                return Err(list_error_for(&vm.heap, c));
            },
            Some(elems) => {
                proof {
                    lemma_elements(h, c, elems@);
                }
                if elems.len() > 0 {
                    any = true;
                }
            },
        }
    }
    assert(lists.skip(0) =~= lists);
    if !any {
        return Ok(args[n - 1]);
    }
    let mut tail = vm.heap.address(args[n - 1]);
    let ghost h1 = vm.heap@;
    let ghost tail0 = tail;
    let mut i = n - 1;
    proof {
        lemma_append_elems_extended(h, h1, lists);
    }
    while i > 0
        invariant
            vm.wf(),
            vm.stack@ == after_pop.stack@,
            vm.globenv@ == after_pop.globenv@,
            h.wf(),
            h1.wf(),
            n == args.len(),
            lists == args@.drop_last(),
            i <= n - 1,
            all_hold(h, args@),
            h.cells.is_prefix_of(h1.cells),
            tail0 < h1.cells.len(),
            append_elems(h, lists) is Ok,
            append_elems(h, lists.skip(i as int)) is Ok,
            chain_added(h1, vm.heap@, append_elems(h, lists.skip(i as int))->Ok_0, tail0),
            tail == chain_head(h1, append_elems(h, lists.skip(i as int))->Ok_0, tail0),
            tail < vm.heap@.cells.len(),
        decreases i,
    {
        i = i - 1;
        let ghost before = vm.heap@;
        let ghost back = append_elems(h, lists.skip(i + 1))->Ok_0;
        assert(lists.skip(i as int).drop_first() =~= lists.skip(i + 1));
        assert(lists.skip(i as int)[0] == args@[i as int]);
        let c = vm.heap.get(args[i]);
        proof {
            lemma_append_ok(h, lists, i as int);
            let e = elements(h, h.deref(args@[i as int]));
            assert(h.holds(args@[i as int]));
            lemma_seg_extended(h, before, h.deref(args@[i as int]), e, VCell::Nil);
            lemma_elements(before, c, e);
            if c is Nil {
                assert(e.len() == 0);
                assert(e + back =~= back);
            }
        }
        if !c.is_nil() {
            match clone_list(vm, args[i], tail) {
                Ok(VCell::Ptr(head)) => {
                    proof {
                        lemma_chain_compose(
                            h1,
                            before,
                            vm.heap@,
                            back,
                            elements(before, c),
                            tail0,
                        );
                    }
                    tail = head;
                },
                _ => {
                    assert(false);
                },
            }
        }
    }
    assert(lists.skip(0) =~= lists);
    Ok(VCell::Ptr(tail))
}

/// Where all lists are proper, so are those from `k` on, and the list at
/// `k` is one.
pub proof fn lemma_append_ok(h: HeapView, lists: Seq<VCell>, k: int)
    requires
        0 <= k < lists.len(),
        append_elems(h, lists) is Ok,
    ensures
        append_elems(h, lists.skip(k)) is Ok,
        append_elems(h, lists.skip(k + 1)) is Ok,
        crate::list::is_list(h, h.deref(lists[k])),
        append_elems(h, lists.skip(k))->Ok_0 == elements(h, h.deref(lists[k])) + append_elems(
            h,
            lists.skip(k + 1),
        )->Ok_0,
{
    assert(lists.skip(k).drop_first() =~= lists.skip(k + 1));
    if append_elems(h, lists.skip(k)) is Err {
        lemma_append_error(h, lists, k);
    }
}

/// What lies `n` pairs down a chain from `v`: `v` itself for zero, else
/// what lies `n - 1` pairs down from the cdr of the pair that `v` stands
/// for. There is none where the chain has fewer than `n` pairs.
pub open spec fn nth_tail(h: HeapView, v: VCell, n: nat) -> Option<VCell>
    decreases n,
{
    if n == 0 {
        Some(v)
    } else {
        match h.deref(v) {
            VCell::Pair(_, cdr) => nth_tail(h, VCell::Ptr(cdr), (n - 1) as nat),
            _ => None,
        }
    }
}

/// The error for an index that a list does not reach.
pub open spec fn out_of_range(h: HeapView, idx: usize, list: VCell) -> ErrorView {
    ErrorView::InvalidSyntax(
        decimal(idx as int) + " is out of range for "@ + written(h, h.deref(list)),
    )
}

/// The tail of `list` behind `idx` pairs. It is an error if `list` is
/// neither pair nor nil, or has fewer pairs.
pub open spec fn list_tail_of(h: HeapView, list: VCell, idx: usize) -> Result<VCell, ErrorView> {
    let c = h.deref(list);
    if !(c is Pair) && !(c is Nil) {
        Err(ErrorView::ExpectedPairButFound(written(h, c)))
    } else {
        match nth_tail(h, list, idx as nat) {
            Some(v) => Ok(v),
            None => Err(out_of_range(h, idx, list)),
        }
    }
}

/// `list-tail`: the arguments are the list and the index.
pub open spec fn list_tail_result(h: HeapView, args: Seq<VCell>) -> Result<VCell, ErrorView> {
    match index_of(h, args[1]) {
        Err(e) => Err(e),
        Ok(idx) => list_tail_of(h, args[0], idx),
    }
}

/// `list-ref`: a pointer to the element at the index, which is the car of
/// the tail there.
pub open spec fn list_ref_result(h: HeapView, args: Seq<VCell>) -> Result<VCell, ErrorView> {
    match list_tail_result(h, args) {
        Err(e) => Err(e),
        Ok(tail) => match h.deref(tail) {
            VCell::Pair(car, _) => Ok(VCell::Ptr(car)),
            _ => Err(out_of_range(h, index_of(h, args[1])->Ok_0, args[0])),
        },
    }
}

/// `list?`: whether the argument is a proper list.
pub open spec fn is_list_result(h: HeapView, args: Seq<VCell>) -> Result<VCell, ErrorView> {
    Ok(VCell::Bool(crate::list::is_list(h, h.deref(args[0]))))
}

pub fn out_of_range_error(heap: &Heap, idx: usize, list: VCell) -> (e: Error)
    ensures
        e@ == out_of_range(heap@, idx, list),
{
    let mut text: Vec<char> = Vec::new();
    push_decimal(&mut text, idx as i128);
    push_str(&mut text, " is out of range for ");
    push_value(heap, heap.get(list), RENDER_DEPTH, &mut text);
    assert(text@ =~= decimal(idx as int) + " is out of range for "@ + written(
        heap@,
        heap@.deref(list),
    ));
    Error::InvalidSyntax(string_of(&text))
}

/// The tail of a list at an index, or an error where the index is not
/// one of the list.
pub fn get_list_tail(heap: &Heap, list: VCell, idx: usize) -> (r: Result<VCell, Error>)
    requires
        heap.wf(),
        heap@.holds(list),
    ensures
        crate::error::outcome(r) == list_tail_of(heap@, list, idx),
        r matches Ok(v) ==> heap@.holds(v),
{
    let c = heap.get(list);
    if !c.is_pair() && !c.is_nil() {
        return Err(Error::ExpectedPairButFound(rendered(heap, c)));
    }
    let mut rest = list;
    let mut left = idx;
    while left > 0
        invariant
            heap.wf(),
            heap@.holds(rest),
            heap@.deref(list) is Pair || heap@.deref(list) is Nil,
            nth_tail(heap@, list, idx as nat) == nth_tail(heap@, rest, left as nat),
        decreases left,
    {
        match heap.get(rest) {
            VCell::Pair(_, cdr) => {
                rest = VCell::Ptr(cdr);
                left = left - 1;
            },
            _ => {
                return Err(out_of_range_error(heap, idx, list));
            },
        }
    }
    Ok(rest)
}

pub fn list_tail(vm: &mut Vm) -> (r: Result<VCell, Error>)
    requires
        old(vm).wf(),
    ensures
        final(vm).wf(),
        crate::builtin::applied(crate::vcell::BuiltIn::ListTail, *old(vm), *final(vm), r),
{
    let args = pop_args(vm, 2, Some(2), "list-tail")?;
    let idx = index_arg(&vm.heap, args[1])?;
    get_list_tail(&vm.heap, args[0], idx)
}

pub fn list_ref(vm: &mut Vm) -> (r: Result<VCell, Error>)
    requires
        old(vm).wf(),
    ensures
        final(vm).wf(),
        crate::builtin::applied(crate::vcell::BuiltIn::ListRef, *old(vm), *final(vm), r),
{
    let args = pop_args(vm, 2, Some(2), "list-ref")?;
    let idx = index_arg(&vm.heap, args[1])?;
    let tail = get_list_tail(&vm.heap, args[0], idx)?;
    match vm.heap.get(tail) {
        VCell::Pair(car, _) => Ok(VCell::Ptr(car)),
        _ => Err(out_of_range_error(&vm.heap, idx, args[0])),
    }
}

pub fn is_list(vm: &mut Vm) -> (r: Result<VCell, Error>)
    requires
        old(vm).wf(),
    ensures
        final(vm).wf(),
        crate::builtin::applied(crate::vcell::BuiltIn::IsList, *old(vm), *final(vm), r),
{
    let args = pop_args(vm, 1, Some(1), "list?")?;
    let c = vm.heap.get(args[0]);
    Ok(VCell::Bool(list_elements(&vm.heap, c).is_some()))
}

} // verus!
