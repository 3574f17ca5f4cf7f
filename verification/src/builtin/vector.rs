//! Vectors.
use crate::builtin::list::{build_list, chain_added, chain_head, list_error, list_error_for};
use crate::builtin::{all_hold, index_arg, index_of, pop_args, rendered_with};
use crate::error::{outcome, Error, ErrorView};
use crate::heap::{Heap, HeapView};
use crate::list::{elements, is_list, lemma_elements, lemma_links_valid, list_elements};
use crate::number::Number;
use crate::printer::written;
use crate::vcell::{BuiltIn, VCell};
use crate::vm::Vm;
use vstd::prelude::*;

verus! {

/// The handle of the vector that an argument stands for.
pub open spec fn vector_of(h: HeapView, v: VCell) -> Result<usize, ErrorView> {
    match h.deref(v) {
        VCell::Vector(handle) => Ok(handle),
        c => Err(ErrorView::InvalidSyntax(written(h, c) + " is not a vector"@)),
    }
}

/// The heap after each of the values was stored that is no pointer, the
/// first value first.
pub open spec fn put_all(h: HeapView, values: Seq<VCell>) -> HeapView
    decreases values.len(),
{
    if values.len() == 0 {
        h
    } else {
        put_all(h, values.drop_last()).put(values.last())
    }
}

/// The addresses of the values after [`put_all`].
pub open spec fn addresses(h: HeapView, values: Seq<VCell>) -> Seq<usize>
    decreases values.len(),
{
    if values.len() == 0 {
        Seq::empty()
    } else {
        addresses(h, values.drop_last()).push(
            put_all(h, values.drop_last()).put_addr(values.last()),
        )
    }
}

/// The heap with one more vector.
pub open spec fn with_vector(h: HeapView, slots: Seq<usize>) -> HeapView {
    HeapView { vectors: h.vectors.push(slots), ..h }
}

/// The heap with the slots of one vector replaced.
pub open spec fn with_slots(h: HeapView, handle: usize, slots: Seq<usize>) -> HeapView {
    HeapView { vectors: h.vectors.update(handle as int, slots), ..h }
}

/// `vector`: a new vector whose slots are the addresses of the arguments.
pub open spec fn vector_effect(
    h: HeapView,
    args: Seq<VCell>,
    g: HeapView,
    r: Result<VCell, ErrorView>,
) -> bool {
    &&& g == with_vector(put_all(h, args), addresses(h, args))
    &&& r == Ok::<VCell, ErrorView>(VCell::Vector(h.vectors.len() as usize))
}

/// `make-vector`: a new vector of the given size, each slot the address
/// of the fill value; that is the number zero where none is given.
pub open spec fn make_vector_effect(
    h: HeapView,
    args: Seq<VCell>,
    g: HeapView,
    r: Result<VCell, ErrorView>,
) -> bool {
    match index_of(h, args[0]) {
        Err(_) => g == h && r == Err::<VCell, ErrorView>(
            ErrorView::InvalidSyntax("make-vector requires an integer size"@),
        ),
        Ok(n) => {
            let fill = if args.len() == 2 {
                args[1]
            } else {
                VCell::Number(Number::Fixnum(0))
            };
            &&& g == with_vector(h.put(fill), Seq::new(n as nat, |i: int| h.put_addr(fill)))
            &&& r == Ok::<VCell, ErrorView>(VCell::Vector(h.vectors.len() as usize))
        },
    }
}

/// `vector-length`.
pub open spec fn vector_length_result(h: HeapView, args: Seq<VCell>) -> Result<VCell, ErrorView> {
    match vector_of(h, args[0]) {
        Err(e) => Err(e),
        Ok(handle) => if h.vector(handle).len() <= i64::MAX {
            Ok(VCell::Number(Number::Fixnum(h.vector(handle).len() as i64)))
        } else {
            Err(crate::builtin::numeric::out_of_range("vector-length"@))
        },
    }
}

/// `vector-ref`: a pointer to what the slot at the index holds. The
/// index is looked at first.
pub open spec fn vector_ref_result(h: HeapView, args: Seq<VCell>) -> Result<VCell, ErrorView> {
    match index_of(h, args[1]) {
        Err(e) => Err(e),
        Ok(idx) => match vector_of(h, args[0]) {
            Err(e) => Err(e),
            Ok(handle) => if idx < h.vector(handle).len() {
                Ok(VCell::Ptr(h.vector(handle)[idx as int]))
            } else {
                Err(ErrorView::InvalidVectorIndex(idx, h.vector(handle).len() as usize))
            },
        },
    }
}

/// `vector-set!`: the slot at the index gets the address of the value.
pub open spec fn vector_set_effect(
    h: HeapView,
    args: Seq<VCell>,
    g: HeapView,
    r: Result<VCell, ErrorView>,
) -> bool {
    match index_of(h, args[1]) {
        Err(e) => g == h && r == Err::<VCell, ErrorView>(e),
        Ok(idx) => match vector_of(h, args[0]) {
            Err(e) => g == h && r == Err::<VCell, ErrorView>(e),
            Ok(handle) => if idx < h.vector(handle).len() {
                &&& g == with_slots(
                    h.put(args[2]),
                    handle,
                    h.vector(handle).update(idx as int, h.put_addr(args[2])),
                )
                &&& r == Ok::<VCell, ErrorView>(VCell::Void)
            } else {
                g == h && r == Err::<VCell, ErrorView>(
                    ErrorView::InvalidVectorIndex(idx, h.vector(handle).len() as usize),
                )
            },
        },
    }
}

/// `vector-fill!`: every slot gets the address of the value.
pub open spec fn vector_fill_effect(
    h: HeapView,
    args: Seq<VCell>,
    g: HeapView,
    r: Result<VCell, ErrorView>,
) -> bool {
    match vector_of(h, args[0]) {
        Err(e) => g == h && r == Err::<VCell, ErrorView>(e),
        Ok(handle) => {
            &&& g == with_slots(
                h.put(args[1]),
                handle,
                Seq::new(h.vector(handle).len(), |i: int| h.put_addr(args[1])),
            )
            &&& r == Ok::<VCell, ErrorView>(VCell::Void)
        },
    }
}

/// `vector->list`: a new list of what the slots hold: a new nil cell and
/// in front of it one new pair for each slot.
pub open spec fn vector_to_list_effect(
    h: HeapView,
    args: Seq<VCell>,
    g: HeapView,
    r: Result<VCell, ErrorView>,
) -> bool {
    match vector_of(h, args[0]) {
        Err(e) => g == h && r == Err::<VCell, ErrorView>(e),
        Ok(handle) => {
            let h1 = h.with_cell(VCell::Nil);
            let nil = h.cells.len() as usize;
            &&& chain_added(h1, g, h.vector(handle), nil)
            &&& r == Ok::<VCell, ErrorView>(VCell::Ptr(chain_head(h1, h.vector(handle), nil)))
        },
    }
}

/// `list->vector`: a new vector whose slots are the elements of a proper
/// list.
pub open spec fn list_to_vector_effect(
    h: HeapView,
    args: Seq<VCell>,
    g: HeapView,
    r: Result<VCell, ErrorView>,
) -> bool {
    let c = h.deref(args[0]);
    if is_list(h, c) {
        &&& g == with_vector(h, elements(h, c))
        &&& r == Ok::<VCell, ErrorView>(VCell::Vector(h.vectors.len() as usize))
    } else {
        g == h && r == Err::<VCell, ErrorView>(list_error(h, c))
    }
}

/// The handle of the vector that an argument stands for.
pub fn vector_arg(heap: &Heap, v: VCell) -> (r: Result<usize, Error>)
    requires
        heap.wf(),
        heap@.holds(v),
    ensures
        outcome(r) == vector_of(heap@, v),
        r matches Ok(handle) ==> handle < heap@.vectors.len(),
{
    match heap.get(v) {
        VCell::Vector(handle) => Ok(handle),
        c => Err(Error::InvalidSyntax(rendered_with(heap, c, " is not a vector"))),
    }
}

/// What holds of a heap holds of the heap after a value was stored.
pub proof fn lemma_put_keeps(h: HeapView, v: VCell, values: Seq<VCell>)
    requires
        all_hold(h, values),
    ensures
        all_hold(h.put(v), values),
{
    assert forall|i: int| 0 <= i < values.len() implies h.put(v).holds(#[trigger] values[i]) by {
        assert(h.holds(values[i]));
    }
}

/// Stores each value that is no pointer and returns the addresses of
/// all.
pub fn store_all(heap: &mut Heap, values: &Vec<VCell>) -> (addrs: Vec<usize>)
    requires
        old(heap).wf(),
        all_hold(old(heap)@, values@),
    ensures
        final(heap).wf(),
        final(heap)@ == put_all(old(heap)@, values@),
        addrs@ == addresses(old(heap)@, values@),
        forall|i: int| 0 <= i < addrs.len() ==> (#[trigger] addrs[i]) < final(heap)@.cells.len(),
        old(heap)@.no_larger_than(final(heap)@),
        final(heap)@ == (HeapView { cells: final(heap)@.cells, ..old(heap)@ }),
{
    let mut addrs: Vec<usize> = Vec::new();
    let mut i: usize = 0;
    while i < values.len()
        invariant
            heap.wf(),
            i <= values.len(),
            all_hold(heap@, values@),
            heap@ == put_all(old(heap)@, values@.take(i as int)),
            addrs@ == addresses(old(heap)@, values@.take(i as int)),
            forall|k: int| 0 <= k < addrs.len() ==> (#[trigger] addrs[k]) < heap@.cells.len(),
            old(heap)@.no_larger_than(heap@),
            heap@ == (HeapView { cells: heap@.cells, ..old(heap)@ }),
        decreases values.len() - i,
    {
        assert(values@.take(i + 1).drop_last() =~= values@.take(i as int));
        proof {
            lemma_put_keeps(heap@, values@[i as int], values@);
        }
        assert(heap@.holds(values@[i as int]));
        let a = heap.address(values[i]);
        addrs.push(a);
        i = i + 1;
    }
    assert(values@.take(values.len() as int) =~= values@);
    addrs
}

pub fn vector(vm: &mut Vm) -> (r: Result<VCell, Error>)
    requires
        old(vm).wf(),
    ensures
        final(vm).wf(),
        crate::builtin::applied(BuiltIn::Vector, *old(vm), *final(vm), r),
{
    let args = pop_args(vm, 0, None, "vector")?;
    let slots = store_all(&mut vm.heap, &args);
    Ok(vm.heap.alloc_vector(slots))
}

/// A vector of `n` slots that all hold `a`.
pub fn filled(a: usize, n: usize) -> (slots: Vec<usize>)
    ensures
        slots@ == Seq::new(n as nat, |i: int| a),
{
    let mut slots: Vec<usize> = Vec::new();
    let mut i: usize = 0;
    while i < n
        invariant
            i <= n,
            slots@ == Seq::new(i as nat, |k: int| a),
        decreases n - i,
    {
        slots.push(a);
        assert(slots@ =~= Seq::new((i + 1) as nat, |k: int| a));
        i = i + 1;
    }
    slots
}

pub fn make_vector(vm: &mut Vm) -> (r: Result<VCell, Error>)
    requires
        old(vm).wf(),
    ensures
        final(vm).wf(),
        crate::builtin::applied(BuiltIn::MakeVector, *old(vm), *final(vm), r),
{
    let args = pop_args(vm, 1, Some(2), "make-vector")?;
    let n = match index_arg(&vm.heap, args[0]) {
        Ok(n) => n,
        Err(_) => {
            return Err(Error::InvalidSyntax("make-vector requires an integer size".to_owned()));
        },
    };
    let fill = if args.len() == 2 {
        args[1]
    } else {
        VCell::Number(Number::Fixnum(0))
    };
    let a = vm.heap.address(fill);
    Ok(vm.heap.alloc_vector(filled(a, n)))
}

pub fn vector_length(vm: &mut Vm) -> (r: Result<VCell, Error>)
    requires
        old(vm).wf(),
    ensures
        final(vm).wf(),
        crate::builtin::applied(BuiltIn::VectorLength, *old(vm), *final(vm), r),
{
    let args = pop_args(vm, 1, Some(1), "vector-length")?;
    let handle = vector_arg(&vm.heap, args[0])?;
    let n = vm.heap.vector_len(handle);
    if n as u64 <= i64::MAX as u64 {
        Ok(VCell::Number(Number::Fixnum(n as i64)))
    } else {
        Err(crate::builtin::numeric::out_of_range_error("vector-length"))
    }
}

pub fn vector_ref(vm: &mut Vm) -> (r: Result<VCell, Error>)
    requires
        old(vm).wf(),
    ensures
        final(vm).wf(),
        crate::builtin::applied(BuiltIn::VectorRef, *old(vm), *final(vm), r),
{
    let args = pop_args(vm, 2, Some(2), "vector-ref")?;
    let idx = index_arg(&vm.heap, args[1])?;
    let handle = vector_arg(&vm.heap, args[0])?;
    match vm.heap.vector_get(handle, idx) {
        Some(a) => Ok(VCell::Ptr(a)),
        None => Err(Error::InvalidVectorIndex(idx, vm.heap.vector_len(handle))),
    }
}

pub fn vector_set(vm: &mut Vm) -> (r: Result<VCell, Error>)
    requires
        old(vm).wf(),
    ensures
        final(vm).wf(),
        crate::builtin::applied(BuiltIn::VectorSet, *old(vm), *final(vm), r),
{
    let args = pop_args(vm, 3, Some(3), "vector-set!")?;
    let idx = index_arg(&vm.heap, args[1])?;
    let handle = vector_arg(&vm.heap, args[0])?;
    let n = vm.heap.vector_len(handle);
    if idx >= n {
        return Err(Error::InvalidVectorIndex(idx, n));
    }
    let a = vm.heap.address(args[2]);
    vm.heap.vector_set(handle, idx, a);
    Ok(VCell::Void)
}

pub fn vector_fill(vm: &mut Vm) -> (r: Result<VCell, Error>)
    requires
        old(vm).wf(),
    ensures
        final(vm).wf(),
        crate::builtin::applied(BuiltIn::VectorFill, *old(vm), *final(vm), r),
{
    let args = pop_args(vm, 2, Some(2), "vector-fill!")?;
    let handle = vector_arg(&vm.heap, args[0])?;
    let n = vm.heap.vector_len(handle);
    let a = vm.heap.address(args[1]);
    let ghost h1 = vm.heap@;
    let ghost before = *vm;
    let ghost mut cur = h1.vector(handle);
    let mut i: usize = 0;
    assert(vm.heap@.vectors =~= h1.vectors.update(handle as int, cur));
    while i < n
        invariant
            vm.wf(),
            i <= n,
            vm.stack@ == before.stack@,
            vm.globenv@ == before.globenv@,
            handle < h1.vectors.len(),
            n == cur.len(),
            a < h1.cells.len(),
            vm.heap@ == with_slots(h1, handle, cur),
            forall|k: int| 0 <= k < i ==> cur[k] == a,
        decreases n - i,
    {
        vm.heap.vector_set(handle, i, a);
        proof {
            cur = cur.update(i as int, a);
            assert(vm.heap@.vectors =~= h1.vectors.update(handle as int, cur));
        }
        i = i + 1;
    }
    assert(cur =~= Seq::new(n as nat, |k: int| a));
    Ok(VCell::Void)
}

/// A copy of the slots of a vector.
pub fn slots_of(heap: &Heap, handle: usize) -> (slots: Vec<usize>)
    requires
        heap.wf(),
    ensures
        slots@ == heap@.vector(handle),
        forall|i: int| 0 <= i < slots.len() ==> (#[trigger] slots[i]) < heap@.cells.len(),
{
    let n = heap.vector_len(handle);
    let mut slots: Vec<usize> = Vec::new();
    let mut i: usize = 0;
    while i < n
        invariant
            heap.wf(),
            i <= n,
            n == heap@.vector(handle).len(),
            slots@ == heap@.vector(handle).take(i as int),
            forall|k: int| 0 <= k < slots.len() ==> (#[trigger] slots[k]) < heap@.cells.len(),
        decreases n - i,
    {
        let a = heap.vector_get(handle, i).unwrap();
        assert(heap@.vectors[handle as int][i as int] < heap@.cells.len());
        slots.push(a);
        assert(slots@ =~= heap@.vector(handle).take(i + 1));
        i = i + 1;
    }
    assert(heap@.vector(handle).take(n as int) =~= heap@.vector(handle));
    slots
}

pub fn vector_to_list(vm: &mut Vm) -> (r: Result<VCell, Error>)
    requires
        old(vm).wf(),
    ensures
        final(vm).wf(),
        crate::builtin::applied(BuiltIn::VectorToList, *old(vm), *final(vm), r),
{
    let args = pop_args(vm, 1, Some(1), "vector->list")?;
    let handle = vector_arg(&vm.heap, args[0])?;
    let slots = slots_of(&vm.heap, handle);
    let nil = vm.heap.address(VCell::Nil);
    let head = build_list(&mut vm.heap, &slots, nil);
    Ok(VCell::Ptr(head))
}

pub fn list_to_vector(vm: &mut Vm) -> (r: Result<VCell, Error>)
    requires
        old(vm).wf(),
    ensures
        final(vm).wf(),
        crate::builtin::applied(BuiltIn::ListToVector, *old(vm), *final(vm), r),
{
    let args = pop_args(vm, 1, Some(1), "list->vector")?;
    let c = vm.heap.get(args[0]);
    match list_elements(&vm.heap, c) {
        None => Err(list_error_for(&vm.heap, c)),
        Some(elems) => {
            proof {
                lemma_elements(vm.heap@, c, elems@);
                lemma_links_valid(vm.heap@, c, elems@, VCell::Nil);
            }
            Ok(vm.heap.alloc_vector(elems))
        },
    }
}

} // verus!
