//! Lists as they lie in the heap: chains of pairs.
use crate::heap::{Heap, HeapView};
use crate::vcell::VCell;
use vstd::prelude::*;

verus! {

/// From `cell`, a chain of pairs whose cars are at the addresses `elems`
/// leads to the cell `end`: each pair's cdr is the address of the next
/// cell, and `end` is the cell behind the last pair.
pub open spec fn seg(h: HeapView, cell: VCell, elems: Seq<usize>, end: VCell) -> bool
    decreases elems.len(),
{
    if elems.len() == 0 {
        cell == end
    } else {
        cell matches VCell::Pair(car, cdr) && car == elems[0] && seg(
            h,
            h.at(cdr),
            elems.drop_first(),
            end,
        )
    }
}

/// `cell` is a proper list whose elements are at the addresses `elems`.
pub open spec fn list_of(h: HeapView, cell: VCell, elems: Seq<usize>) -> bool {
    seg(h, cell, elems, VCell::Nil)
}

/// `cell` is a proper list: a finite chain of pairs that ends in nil.
pub open spec fn is_list(h: HeapView, cell: VCell) -> bool {
    exists|elems: Seq<usize>| list_of(h, cell, elems)
}

/// The addresses of the elements of a proper list.
pub open spec fn elements(h: HeapView, cell: VCell) -> Seq<usize> {
    choose|elems: Seq<usize>| list_of(h, cell, elems)
}

/// The addresses that a chain of `n` pairs from `cell` on follows.
pub open spec fn links(h: HeapView, cell: VCell, n: nat) -> Seq<int>
    decreases n,
{
    if n == 0 {
        Seq::empty()
    } else {
        match cell {
            VCell::Pair(_, cdr) => seq![cdr as int] + links(h, h.at(cdr), (n - 1) as nat),
            _ => Seq::empty(),
        }
    }
}

/// A chain can be followed one pair further.
pub proof fn lemma_seg_push(h: HeapView, cell: VCell, elems: Seq<usize>, end: VCell)
    requires
        seg(h, cell, elems, end),
        end is Pair,
    ensures
        seg(h, cell, elems.push(end->Pair_0), h.at(end->Pair_1)),
    decreases elems.len(),
{
    let more = elems.push(end->Pair_0);
    if elems.len() == 0 {
        assert(more.drop_first() =~= Seq::<usize>::empty());
        assert(seg(h, h.at(end->Pair_1), more.drop_first(), h.at(end->Pair_1)));
    } else {
        lemma_seg_push(h, h.at(cell->Pair_1), elems.drop_first(), end);
        assert(more.drop_first() =~= elems.drop_first().push(end->Pair_0));
    }
}

/// Two chains in a row are one chain.
pub proof fn lemma_seg_join(
    h: HeapView,
    cell: VCell,
    first: Seq<usize>,
    mid: VCell,
    second: Seq<usize>,
    end: VCell,
)
    requires
        seg(h, cell, first, mid),
        seg(h, mid, second, end),
    ensures
        seg(h, cell, first + second, end),
    decreases first.len(),
{
    if first.len() == 0 {
        assert(first + second =~= second);
    } else {
        lemma_seg_join(h, h.at(cell->Pair_1), first.drop_first(), mid, second, end);
        assert((first + second).drop_first() =~= first.drop_first() + second);
    }
}

/// Of two chains from one cell the shorter is the start of the longer.
pub proof fn lemma_seg_prefix(
    h: HeapView,
    cell: VCell,
    short: Seq<usize>,
    mid: VCell,
    long: Seq<usize>,
    end: VCell,
)
    requires
        seg(h, cell, short, mid),
        seg(h, cell, long, end),
        short.len() <= long.len(),
    ensures
        short == long.take(short.len() as int),
        seg(h, mid, long.skip(short.len() as int), end),
    decreases short.len(),
{
    if short.len() == 0 {
        assert(long.skip(0) =~= long);
        assert(short =~= long.take(0));
    } else {
        lemma_seg_prefix(
            h,
            h.at(cell->Pair_1),
            short.drop_first(),
            mid,
            long.drop_first(),
            end,
        );
        assert(long.drop_first().skip(short.len() - 1) =~= long.skip(short.len() as int));
        assert(short =~= long.take(short.len() as int)) by {
            let t = long.take(short.len() as int);
            assert(t.drop_first() =~= long.drop_first().take(short.len() - 1));
            assert(short =~= seq![short[0]] + short.drop_first());
            assert(t =~= seq![t[0]] + t.drop_first());
        }
    }
}

/// A cell is a proper list in one way only.
pub proof fn lemma_list_unique(h: HeapView, cell: VCell, a: Seq<usize>, b: Seq<usize>)
    requires
        list_of(h, cell, a),
        list_of(h, cell, b),
    ensures
        a == b,
{
    if a.len() <= b.len() {
        lemma_seg_prefix(h, cell, a, VCell::Nil, b, VCell::Nil);
        assert(b.skip(a.len() as int).len() == 0);
        assert(b.take(a.len() as int) =~= b);
    } else {
        lemma_seg_prefix(h, cell, b, VCell::Nil, a, VCell::Nil);
        assert(a.skip(b.len() as int).len() == 0);
    }
}

/// The elements of a proper list are the ones it is a list of.
pub proof fn lemma_elements(h: HeapView, cell: VCell, elems: Seq<usize>)
    requires
        list_of(h, cell, elems),
    ensures
        is_list(h, cell),
        elements(h, cell) == elems,
{
    lemma_list_unique(h, cell, elements(h, cell), elems);
}

/// A chain stays what it is when only cells off the chain change, and when
/// the heap grows: it is enough that the two heaps agree on the cells of
/// the first that the chain follows.
pub proof fn lemma_seg_kept(h: HeapView, g: HeapView, cell: VCell, elems: Seq<usize>, end: VCell)
    requires
        seg(h, cell, elems, end),
        forall|i: int|
            0 <= i < elems.len() ==> h.at(#[trigger] links(h, cell, elems.len())[i] as usize)
                == g.at(links(h, cell, elems.len())[i] as usize),
    ensures
        seg(g, cell, elems, end),
        links(g, cell, elems.len()) == links(h, cell, elems.len()),
    decreases elems.len(),
{
    if elems.len() > 0 {
        let cdr = cell->Pair_1;
        let all = links(h, cell, elems.len());
        let rest = links(h, h.at(cdr), (elems.len() - 1) as nat);
        lemma_links_len(h, cell, elems, end);
        lemma_links_len(h, h.at(cdr), elems.drop_first(), end);
        assert(all[0] == cdr);
        assert(forall|i: int| 0 <= i < rest.len() ==> rest[i] == all[i + 1]);
        assert forall|i: int| 0 <= i < elems.len() - 1 implies h.at(#[trigger] rest[i] as usize)
            == g.at(rest[i] as usize) by {
            assert(rest[i] == all[i + 1]);
        }
        lemma_seg_kept(h, g, h.at(cdr), elems.drop_first(), end);
        assert(links(g, cell, elems.len()) =~= all);
    }
}

/// A chain of `n` pairs follows `n` addresses.
pub proof fn lemma_links_len(h: HeapView, cell: VCell, elems: Seq<usize>, end: VCell)
    requires
        seg(h, cell, elems, end),
    ensures
        links(h, cell, elems.len()).len() == elems.len(),
        forall|i: int|
            0 <= i < elems.len() ==> 0 <= #[trigger] links(h, cell, elems.len())[i] <= usize::MAX,
    decreases elems.len(),
{
    if elems.len() > 0 {
        let rest = links(h, h.at(cell->Pair_1), (elems.len() - 1) as nat);
        let all = links(h, cell, elems.len());
        lemma_links_len(h, h.at(cell->Pair_1), elems.drop_first(), end);
        assert forall|i: int| 0 <= i < elems.len() implies 0 <= #[trigger] all[i]
            <= usize::MAX by {
            if i > 0 {
                assert(all[i] == rest[i - 1]);
            }
        }
    }
}

/// In a well-formed heap a chain from a cell of the heap follows addresses
/// of the heap only.
pub proof fn lemma_links_valid(h: HeapView, cell: VCell, elems: Seq<usize>, end: VCell)
    requires
        h.wf(),
        h.valid(cell),
        seg(h, cell, elems, end),
    ensures
        h.valid(end),
        forall|i: int|
            0 <= i < elems.len() ==> 0 <= #[trigger] links(h, cell, elems.len())[i]
                < h.cells.len(),
        forall|i: int| 0 <= i < elems.len() ==> (#[trigger] elems[i]) < h.cells.len(),
    decreases elems.len(),
{
    if elems.len() > 0 {
        let cdr = cell->Pair_1;
        let all = links(h, cell, elems.len());
        let rest = links(h, h.at(cdr), (elems.len() - 1) as nat);
        lemma_links_len(h, h.at(cdr), elems.drop_first(), end);
        lemma_links_valid(h, h.at(cdr), elems.drop_first(), end);
        assert forall|i: int| 0 <= i < elems.len() implies 0 <= #[trigger] all[i]
            < h.cells.len() by {
            if i > 0 {
                assert(all[i] == rest[i - 1]);
            }
        }
        assert forall|i: int| 0 <= i < elems.len() implies (#[trigger] elems[i])
            < h.cells.len() by {
            if i > 0 {
                assert(elems[i] == elems.drop_first()[i - 1]);
            }
        }
    }
}

/// A chain that follows addresses below `bound` only is a chain of every
/// heap that agrees with this one below `bound`.
pub proof fn lemma_seg_kept_prefix(
    h: HeapView,
    g: HeapView,
    cell: VCell,
    elems: Seq<usize>,
    end: VCell,
    bound: int,
)
    requires
        seg(h, cell, elems, end),
        bound <= h.cells.len() <= g.cells.len(),
        forall|a: int| 0 <= a < bound ==> h.cells[a] == g.cells[a],
        forall|i: int|
            0 <= i < elems.len() ==> 0 <= #[trigger] links(h, cell, elems.len())[i] < bound,
    ensures
        seg(g, cell, elems, end),
        links(g, cell, elems.len()) == links(h, cell, elems.len()),
{
    lemma_links_len(h, cell, elems, end);
    lemma_seg_kept(h, g, cell, elems, end);
}

/// A chain of a well-formed heap is a chain of every heap that extends it.
pub proof fn lemma_seg_extended(
    h: HeapView,
    g: HeapView,
    cell: VCell,
    elems: Seq<usize>,
    end: VCell,
)
    requires
        h.wf(),
        h.valid(cell),
        h.cells.is_prefix_of(g.cells),
        seg(h, cell, elems, end),
    ensures
        seg(g, cell, elems, end),
{
    lemma_links_valid(h, cell, elems, end);
    lemma_seg_kept(h, g, cell, elems, end);
}

/// What is a chain in an extension of a well-formed heap, from a cell of
/// that heap, was a chain there already.
pub proof fn lemma_seg_restricted(
    h: HeapView,
    g: HeapView,
    cell: VCell,
    elems: Seq<usize>,
    end: VCell,
)
    requires
        h.wf(),
        h.valid(cell),
        h.cells.is_prefix_of(g.cells),
        seg(g, cell, elems, end),
    ensures
        seg(h, cell, elems, end),
    decreases elems.len(),
{
    if elems.len() > 0 {
        let cdr = cell->Pair_1;
        assert(h.at(cdr) == g.at(cdr));
        lemma_seg_restricted(h, g, h.at(cdr), elems.drop_first(), end);
    }
}

/// The addresses that a proper list follows are all different.
pub proof fn lemma_links_distinct(h: HeapView, cell: VCell, elems: Seq<usize>)
    requires
        list_of(h, cell, elems),
    ensures
        links(h, cell, elems.len()).no_duplicates(),
    decreases elems.len(),
{
    if elems.len() > 0 {
        let cdr = cell->Pair_1;
        let next = h.at(cdr);
        let rest = links(h, next, (elems.len() - 1) as nat);
        let all = links(h, cell, elems.len());
        lemma_links_distinct(h, next, elems.drop_first());
        lemma_links_len(h, next, elems.drop_first(), VCell::Nil);
        assert forall|i: int, j: int| 0 <= i < all.len() && 0 <= j < all.len() && i != j implies all[i] != all[j] by {
            if i > 0 && j > 0 {
                assert(all[i] == rest[i - 1] && all[j] == rest[j - 1]);
            } else {
                let k = if i == 0 { j } else { i };
                // all[k] is the address followed after k pairs; if it were
                // `cdr`, the list behind it would be the list behind `cdr`.
                assert(all[k] == rest[k - 1]);
                if rest[k - 1] == cdr {
                    lemma_link_target(h, next, elems.drop_first(), k - 1);
                    lemma_list_unique(
                        h,
                        next,
                        elems.drop_first(),
                        elems.drop_first().skip(k),
                    );
                }
            }
        }
    }
}

/// Behind the address that a proper list follows at step `k` lies the rest
/// of the list.
pub proof fn lemma_link_target(h: HeapView, cell: VCell, elems: Seq<usize>, k: int)
    requires
        list_of(h, cell, elems),
        0 <= k < elems.len(),
    ensures
        list_of(h, h.at(links(h, cell, elems.len())[k] as usize), elems.skip(k + 1)),
    decreases k,
{
    let cdr = cell->Pair_1;
    lemma_links_len(h, h.at(cdr), elems.drop_first(), VCell::Nil);
    if k == 0 {
        assert(elems.skip(1) =~= elems.drop_first());
    } else {
        lemma_link_target(h, h.at(cdr), elems.drop_first(), k - 1);
        assert(elems.drop_first().skip(k) =~= elems.skip(k + 1));
    }
}

/// A proper list has no more pairs than the heap has cells.
pub proof fn lemma_list_bound(h: HeapView, cell: VCell, elems: Seq<usize>)
    requires
        list_of(h, cell, elems),
    ensures
        elems.len() <= h.cells.len(),
{
    let all = links(h, cell, elems.len());
    lemma_links_len(h, cell, elems, VCell::Nil);
    lemma_links_distinct(h, cell, elems);
    assert forall|i: int| 0 <= i < all.len() implies 0 <= #[trigger] all[i] < h.cells.len() by {
        lemma_link_target(h, cell, elems, i);
        let behind = h.at(all[i] as usize);
        assert(behind is Nil || behind is Pair);
    }
    all.unique_seq_to_set();
    vstd::set_lib::lemma_int_range(0, h.cells.len() as int);
    assert(all.to_set().subset_of(vstd::set_lib::set_int_range(0, h.cells.len() as int)));
    vstd::set_lib::lemma_len_subset(
        all.to_set(),
        vstd::set_lib::set_int_range(0, h.cells.len() as int),
    );
}

/// The addresses of the elements of a proper list; `None` for a cell that
/// is none, be it that the chain of pairs ends in something other than nil
/// or that it never ends.
pub fn list_elements(heap: &Heap, cell: VCell) -> (r: Option<Vec<usize>>)
    ensures
        match r {
            Some(v) => list_of(heap@, cell, v@),
            None => !is_list(heap@, cell),
        },
{
    let limit = heap.len();
    let mut out: Vec<usize> = Vec::new();
    let mut cur = cell;
    loop
        invariant
            limit == heap@.cells.len(),
            out.len() <= limit,
            seg(heap@, cell, out@, cur),
        decreases limit - out.len(),
    {
        match cur {
            VCell::Nil => {
                return Some(out);
            },
            VCell::Pair(car, cdr) => {
                if out.len() == limit {
                    proof {
                        if is_list(heap@, cell) {
                            let e = elements(heap@, cell);
                            lemma_list_bound(heap@, cell, e);
                            lemma_seg_prefix(heap@, cell, e, VCell::Nil, out@, cur);
                        }
                    }
                    return None;
                }
                proof {
                    lemma_seg_push(heap@, cell, out@, cur);
                }
                out.push(car);
                cur = heap.get_at_index(cdr);
            },
            _ => {
                proof {
                    if is_list(heap@, cell) {
                        let e = elements(heap@, cell);
                        if out.len() <= e.len() {
                            lemma_seg_prefix(heap@, cell, out@, cur, e, VCell::Nil);
                        } else {
                            lemma_seg_prefix(heap@, cell, e, VCell::Nil, out@, cur);
                        }
                    }
                }
                return None;
            },
        }
    }
}

} // verus!
