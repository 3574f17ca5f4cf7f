//! Reclaiming what nothing refers to any more: a tracing collector.
use crate::code::Op;
use crate::heap::{Heap, HeapView};
use crate::vcell::VCell;
use crate::vm::Vm;
use vstd::prelude::*;

verus! {

/// What the collector follows: cells, vectors and strings.
pub enum Node {
    Cell(usize),
    Vector(usize),
    Text(usize),
}

/// Whether a cell refers to a node.
pub open spec fn refers(v: VCell, n: Node) -> bool {
    match v {
        VCell::Ptr(a) => n == Node::Cell(a),
        VCell::Pair(a, b) => n == Node::Cell(a) || n == Node::Cell(b),
        VCell::Vector(x) => n == Node::Vector(x),
        VCell::Closure(_, x) => n == Node::Vector(x),
        VCell::String(x) => n == Node::Text(x),
        _ => false,
    }
}

/// Whether the heap has the node.
pub open spec fn has(h: HeapView, n: Node) -> bool {
    match n {
        Node::Cell(a) => a < h.cells.len(),
        Node::Vector(x) => x < h.vectors.len(),
        Node::Text(x) => x < h.strings.len(),
    }
}

/// Whether a set of nodes holds all that is in use: what the roots and
/// the constants of the compiled procedures refer to, what the cells in
/// the set refer to, and what the slots of the vectors in the set hold.
pub open spec fn closed(h: HeapView, roots: Seq<VCell>, s: Set<Node>) -> bool {
    &&& forall|i: int, n: Node|
        0 <= i < roots.len() && #[trigger] refers(roots[i], n) && has(h, n) ==> s.contains(n)
    &&& forall|c: int, i: int, n: Node|
        0 <= c < h.codes.len() && 0 <= i < h.codes[c].ops.len() && #[trigger] refers(
            constant(h.codes[c].ops[i]),
            n,
        ) && has(h, n) ==> s.contains(n)
    &&& forall|a: int, n: Node|
        0 <= a < h.cells.len() && s.contains(Node::Cell(a as usize)) && #[trigger] refers(
            h.cells[a],
            n,
        ) && has(h, n) ==> s.contains(n)
    &&& forall|x: int, i: int|
        0 <= x < h.vectors.len() && s.contains(Node::Vector(x as usize)) && 0 <= i
            < h.vectors[x].len() && has(h, Node::Cell(#[trigger] h.vectors[x][i]))
            ==> s.contains(Node::Cell(h.vectors[x][i]))
}

/// The value that an instruction holds; void for one that holds none.
pub open spec fn constant(op: Op) -> VCell {
    match op {
        Op::PushConst(v) => v,
        _ => VCell::Void,
    }
}

/// Whether a node is in use: it is in every set that holds all that is
/// in use.
pub open spec fn live(h: HeapView, roots: Seq<VCell>, n: Node) -> bool {
    forall|s: Set<Node>| #[trigger] closed(h, roots, s) ==> s.contains(n)
}

/// The heap after a collection: a cell that is not in use is undefined,
/// a vector or a string that is not in use is empty, and all else is as
/// it was.
pub open spec fn swept(h: HeapView, roots: Seq<VCell>, g: HeapView) -> bool {
    &&& g.symbols == h.symbols
    &&& g.codes == h.codes
    &&& g.cells.len() == h.cells.len()
    &&& g.vectors.len() == h.vectors.len()
    &&& g.strings.len() == h.strings.len()
    &&& forall|a: int|
        0 <= a < h.cells.len() ==> #[trigger] g.cells[a] == if live(
            h,
            roots,
            Node::Cell(a as usize),
        ) {
            h.cells[a]
        } else {
            VCell::Undefined
        }
    &&& forall|x: int|
        0 <= x < h.vectors.len() ==> #[trigger] g.vectors[x] == if live(
            h,
            roots,
            Node::Vector(x as usize),
        ) {
            h.vectors[x]
        } else {
            Seq::empty()
        }
    &&& forall|x: int|
        0 <= x < h.strings.len() ==> #[trigger] g.strings[x] == if live(
            h,
            roots,
            Node::Text(x as usize),
        ) {
            h.strings[x]
        } else {
            Seq::empty()
        }
}

/// The marks of a collection: one for each cell, vector and string.
pub struct Marks {
    pub cells: Vec<bool>,
    pub vectors: Vec<bool>,
    pub strings: Vec<bool>,
}

impl Marks {
    /// There is a mark for each node of the heap.
    pub open spec fn fits(&self, h: HeapView) -> bool {
        &&& self.cells@.len() == h.cells.len()
        &&& self.vectors@.len() == h.vectors.len()
        &&& self.strings@.len() == h.strings.len()
    }

    /// Whether a node is marked.
    pub open spec fn marked(&self, n: Node) -> bool {
        match n {
            Node::Cell(a) => a < self.cells@.len() && self.cells@[a as int],
            Node::Vector(x) => x < self.vectors@.len() && self.vectors@[x as int],
            Node::Text(x) => x < self.strings@.len() && self.strings@[x as int],
        }
    }

    /// The nodes that are marked.
    pub open spec fn set(&self) -> Set<Node> {
        Set::new(|n: Node| self.marked(n))
    }

    /// Every marked node is in use.
    pub open spec fn sound(&self, h: HeapView, roots: Seq<VCell>) -> bool {
        forall|n: Node| #[trigger] self.marked(n) ==> live(h, roots, n)
    }
}

/// How many marks are not set.
pub open spec fn unmarked(marks: Seq<bool>) -> nat
    decreases marks.len(),
{
    if marks.len() == 0 {
        0
    } else {
        unmarked(marks.drop_last()) + if marks.last() {
            0nat
        } else {
            1nat
        }
    }
}

/// To set a mark leaves one unset mark fewer.
pub proof fn lemma_mark_one(marks: Seq<bool>, i: int)
    requires
        0 <= i < marks.len(),
        !marks[i],
    ensures
        unmarked(marks.update(i, true)) + 1 == unmarked(marks),
    decreases marks.len(),
{
    let after = marks.update(i, true);
    if i == marks.len() - 1 {
        assert(after.drop_last() =~= marks.drop_last());
    } else {
        lemma_mark_one(marks.drop_last(), i);
        assert(after.drop_last() =~= marks.drop_last().update(i, true));
    }
}

/// A vector of `n` marks that are not set.
pub fn no_marks(n: usize) -> (marks: Vec<bool>)
    ensures
        marks@.len() == n,
        forall|i: int| 0 <= i < n ==> !marks@[i],
{
    let mut marks: Vec<bool> = Vec::new();
    let mut i: usize = 0;
    while i < n
        invariant
            i <= n,
            marks@.len() == i,
            forall|k: int| 0 <= k < i ==> !marks@[k],
        decreases n - i,
    {
        marks.push(false);
        i = i + 1;
    }
    marks
}

/// What is to be looked at is marked and in the heap.
pub open spec fn pending(work: Seq<usize>, marks: Marks) -> bool {
    forall|i: int| 0 <= i < work.len() ==> marks.marked(Node::Cell(#[trigger] work[i]))
}

/// What is being looked at: a cell, and a vector of which the slots
/// from `from` on are left.
pub struct Progress {
    pub cell: int,
    pub vector: int,
    pub from: int,
}

/// Nothing is being looked at.
pub open spec fn idle() -> Progress {
    Progress { cell: -1, vector: -1, from: 0 }
}

/// Every marked cell that is neither to be looked at nor being looked at
/// refers to marked nodes only, and so do the slots of every marked
/// vector but those that are left of the one that is being looked at.
pub open spec fn settled(h: HeapView, marks: Marks, work: Seq<usize>, p: Progress) -> bool {
    let vector = p.vector;
    let from = p.from;
    &&& forall|a: int, n: Node|
        0 <= a < h.cells.len() && marks.marked(Node::Cell(a as usize)) && !work.contains(
            a as usize,
        ) && a != p.cell && #[trigger] refers(h.cells[a], n) && has(h, n) ==> marks.marked(n)
    &&& forall|x: int, i: int|
        0 <= x < h.vectors.len() && marks.marked(Node::Vector(x as usize)) && 0 <= i
            < h.vectors[x].len() && !(x == vector && i >= from) && has(
            h,
            Node::Cell(#[trigger] h.vectors[x][i]),
        ) ==> marks.marked(Node::Cell(h.vectors[x][i]))
}

/// Marks a cell and notes that it is to be looked at, unless it is
/// marked already.
pub fn mark_cell(
    a: usize,
    marks: &mut Marks,
    work: &mut Vec<usize>,
    Ghost(h): Ghost<HeapView>,
    Ghost(roots): Ghost<Seq<VCell>>,
    Ghost(p): Ghost<Progress>,
)
    requires
        old(marks).fits(h),
        old(marks).sound(h, roots),
        pending(old(work)@, *old(marks)),
        settled(h, *old(marks), old(work)@, p),
        has(h, Node::Cell(a)) ==> live(h, roots, Node::Cell(a)),
    ensures
        final(marks).fits(h),
        final(marks).sound(h, roots),
        pending(final(work)@, *final(marks)),
        settled(h, *final(marks), final(work)@, p),
        has(h, Node::Cell(a)) ==> final(marks).marked(Node::Cell(a)),
        forall|n: Node| old(marks).marked(n) ==> final(marks).marked(n),
        final(marks).vectors@ == old(marks).vectors@,
        final(marks).strings@ == old(marks).strings@,
        2 * unmarked(final(marks).cells@) + final(work)@.len() <= 2 * unmarked(
            old(marks).cells@,
        ) + old(work)@.len(),
        forall|i: int| 0 <= i < old(work)@.len() ==> final(work)@.contains(old(work)@[i]),
        forall|b: usize| final(work)@.contains(b) ==> old(work)@.contains(b) || b == a,
{
    if a < marks.cells.len() && !marks.cells[a] {
        proof {
            lemma_mark_one(marks.cells@, a as int);
        }
        marks.cells.set(a, true);
        work.push(a);
        assert(work@.last() == a);
        assert forall|i: int| 0 <= i < old(work)@.len() implies work@.contains(
            old(work)@[i],
        ) by {
            assert(work@[i] == old(work)@[i]);
        }
        assert forall|b: usize| work@.contains(b) implies old(work)@.contains(b) || b == a by {
            let k = choose|k: int| 0 <= k < work@.len() && work@[k] == b;
            if k < old(work)@.len() {
                assert(old(work)@[k] == b);
            }
        }
        assert forall|i: int| 0 <= i < work@.len() implies marks.marked(
            Node::Cell(#[trigger] work@[i]),
        ) by {
            if i < old(work)@.len() {
                assert(old(marks).marked(Node::Cell(old(work)@[i])));
            }
        }
        assert forall|n: Node| #[trigger] marks.marked(n) implies live(h, roots, n) by {
            if n != Node::Cell(a) {
                assert(old(marks).marked(n));
            }
        }
        assert(settled(h, *marks, work@, p)) by {
            let vector = p.vector;
            let from = p.from;
            assert forall|b: int, n: Node|
                0 <= b < h.cells.len() && marks.marked(Node::Cell(b as usize))
                    && !work@.contains(b as usize) && b != p.cell && #[trigger] refers(
                    h.cells[b],
                    n,
                ) && has(h, n) implies marks.marked(n) by {
                assert(b != a);
                assert(old(marks).marked(Node::Cell(b as usize)));
                if old(work)@.contains(b as usize) {
                    let k = choose|k: int| 0 <= k < old(work)@.len() && old(work)@[k] == b;
                    assert(work@[k] == b);
                }
                assert(old(marks).marked(n));
            }
            assert forall|x: int, i: int|
                0 <= x < h.vectors.len() && marks.marked(Node::Vector(x as usize)) && 0 <= i
                    < h.vectors[x].len() && !(x == vector && i >= from) && has(
                    h,
                    Node::Cell(#[trigger] h.vectors[x][i]),
                ) implies marks.marked(Node::Cell(h.vectors[x][i])) by {
                assert(old(marks).marked(Node::Vector(x as usize)));
                assert(old(marks).marked(Node::Cell(h.vectors[x][i])));
            }
        }
    }
}

/// What a cell in use refers to is in use.
pub proof fn lemma_live_from_cell(h: HeapView, roots: Seq<VCell>, a: int, n: Node)
    requires
        0 <= a < h.cells.len(),
        live(h, roots, Node::Cell(a as usize)),
        refers(h.cells[a], n),
        has(h, n),
    ensures
        live(h, roots, n),
{
    assert forall|s: Set<Node>| #[trigger] closed(h, roots, s) implies s.contains(n) by {
        assert(s.contains(Node::Cell(a as usize)));
    }
}

/// What a slot of a vector in use holds is in use.
pub proof fn lemma_live_from_vector(h: HeapView, roots: Seq<VCell>, x: int, i: int)
    requires
        0 <= x < h.vectors.len(),
        0 <= i < h.vectors[x].len(),
        live(h, roots, Node::Vector(x as usize)),
        has(h, Node::Cell(h.vectors[x][i])),
    ensures
        live(h, roots, Node::Cell(h.vectors[x][i])),
{
    assert forall|s: Set<Node>| #[trigger] closed(h, roots, s) implies s.contains(
        Node::Cell(h.vectors[x][i]),
    ) by {
        assert(s.contains(Node::Vector(x as usize)));
    }
}

/// What a root refers to is in use.
pub proof fn lemma_live_from_root(h: HeapView, roots: Seq<VCell>, i: int, n: Node)
    requires
        0 <= i < roots.len(),
        refers(roots[i], n),
        has(h, n),
    ensures
        live(h, roots, n),
{
}

/// What a constant of a compiled procedure refers to is in use.
pub proof fn lemma_live_from_code(h: HeapView, roots: Seq<VCell>, c: int, i: int, n: Node)
    requires
        0 <= c < h.codes.len(),
        0 <= i < h.codes[c].ops.len(),
        refers(constant(h.codes[c].ops[i]), n),
        has(h, n),
    ensures
        live(h, roots, n),
{
}

/// Marks a vector and all that its slots hold, unless it is marked
/// already.
pub fn mark_vector(
    heap: &Heap,
    x: usize,
    marks: &mut Marks,
    work: &mut Vec<usize>,
    Ghost(roots): Ghost<Seq<VCell>>,
    Ghost(cell): Ghost<int>,
)
    requires
        heap.wf(),
        old(marks).fits(heap@),
        old(marks).sound(heap@, roots),
        pending(old(work)@, *old(marks)),
        settled(heap@, *old(marks), old(work)@, Progress { cell, vector: -1, from: 0 }),
        has(heap@, Node::Vector(x)) ==> live(heap@, roots, Node::Vector(x)),
    ensures
        final(marks).fits(heap@),
        final(marks).sound(heap@, roots),
        pending(final(work)@, *final(marks)),
        settled(heap@, *final(marks), final(work)@, Progress { cell, vector: -1, from: 0 }),
        has(heap@, Node::Vector(x)) ==> final(marks).marked(Node::Vector(x)),
        forall|n: Node| old(marks).marked(n) ==> final(marks).marked(n),
        final(marks).strings@ == old(marks).strings@,
        2 * unmarked(final(marks).cells@) + final(work)@.len() <= 2 * unmarked(
            old(marks).cells@,
        ) + old(work)@.len(),
{
    if x >= marks.vectors.len() || marks.vectors[x] {
        return ;
    }
    marks.vectors.set(x, true);
    let ghost h = heap@;
    let n = heap.vector_len(x);
    assert forall|m: Node| #[trigger] marks.marked(m) implies live(h, roots, m) by {
        if m != Node::Vector(x) {
            assert(old(marks).marked(m));
        }
    }
    assert(pending(work@, *marks)) by {
        assert forall|i: int| 0 <= i < work@.len() implies marks.marked(
            Node::Cell(#[trigger] work@[i]),
        ) by {
            assert(old(marks).marked(Node::Cell(work@[i])));
        }
    }
    assert(settled(h, *marks, work@, Progress { cell, vector: x as int, from: 0 })) by {
        assert forall|a: int, m: Node|
            0 <= a < h.cells.len() && marks.marked(Node::Cell(a as usize)) && !work@.contains(
                a as usize,
            ) && a != cell && #[trigger] refers(h.cells[a], m) && has(h, m) implies marks.marked(
            m,
        ) by {
            assert(old(marks).marked(Node::Cell(a as usize)));
            assert(old(marks).marked(m));
        }
        assert forall|y: int, i: int|
            0 <= y < h.vectors.len() && marks.marked(Node::Vector(y as usize)) && 0 <= i
                < h.vectors[y].len() && !(y == x && i >= 0) && has(
                h,
                Node::Cell(#[trigger] h.vectors[y][i]),
            ) implies marks.marked(Node::Cell(h.vectors[y][i])) by {
            assert(old(marks).marked(Node::Vector(y as usize)));
            assert(old(marks).marked(Node::Cell(h.vectors[y][i])));
        }
    }
    assert forall|m: Node| old(marks).marked(m) implies marks.marked(m) by {}
    let mut i: usize = 0;
    while i < n
        invariant
            heap.wf(),
            h == heap@,
            i <= n,
            x < h.vectors.len(),
            n == h.vectors[x as int].len(),
            live(h, roots, Node::Vector(x)),
            marks.fits(h),
            marks.sound(h, roots),
            marks.marked(Node::Vector(x)),
            pending(work@, *marks),
            settled(h, *marks, work@, Progress { cell, vector: x as int, from: i as int }),
            forall|m: Node| old(marks).marked(m) ==> marks.marked(m),
            marks.strings@ == old(marks).strings@,
            2 * unmarked(marks.cells@) + work@.len() <= 2 * unmarked(old(marks).cells@) + old(
                work,
            )@.len(),
        decreases n - i,
    {
        let slot = heap.vector_get(x, i).unwrap();
        proof {
            if has(h, Node::Cell(slot)) {
                lemma_live_from_vector(h, roots, x as int, i as int);
            }
        }
        let ghost earlier = *marks;
        mark_cell(
            slot,
            marks,
            work,
            Ghost(h),
            Ghost(roots),
            Ghost(Progress { cell, vector: x as int, from: i as int }),
        );
        assert forall|m: Node| old(marks).marked(m) implies marks.marked(m) by {
            if old(marks).marked(m) {
                assert(earlier.marked(m));
            }
        }
        i = i + 1;
    }
}

/// Marks what a cell refers to.
pub fn mark_refs(
    heap: &Heap,
    v: VCell,
    marks: &mut Marks,
    work: &mut Vec<usize>,
    Ghost(roots): Ghost<Seq<VCell>>,
    Ghost(cell): Ghost<int>,
)
    requires
        heap.wf(),
        old(marks).fits(heap@),
        old(marks).sound(heap@, roots),
        pending(old(work)@, *old(marks)),
        settled(heap@, *old(marks), old(work)@, Progress { cell, vector: -1, from: 0 }),
        forall|n: Node| refers(v, n) && has(heap@, n) ==> live(heap@, roots, n),
    ensures
        final(marks).fits(heap@),
        final(marks).sound(heap@, roots),
        pending(final(work)@, *final(marks)),
        settled(heap@, *final(marks), final(work)@, Progress { cell, vector: -1, from: 0 }),
        forall|n: Node| refers(v, n) && has(heap@, n) ==> final(marks).marked(n),
        forall|n: Node| old(marks).marked(n) ==> final(marks).marked(n),
        2 * unmarked(final(marks).cells@) + final(work)@.len() <= 2 * unmarked(
            old(marks).cells@,
        ) + old(work)@.len(),
{
    let ghost h = heap@;
    let ghost p = Progress { cell, vector: -1, from: 0 };
    match v {
        VCell::Ptr(a) => {
            assert(refers(v, Node::Cell(a)));
            mark_cell(a, marks, work, Ghost(h), Ghost(roots), Ghost(p));
        },
        VCell::Pair(a, b) => {
            assert(refers(v, Node::Cell(a)));
            assert(refers(v, Node::Cell(b)));
            mark_cell(a, marks, work, Ghost(h), Ghost(roots), Ghost(p));
            mark_cell(b, marks, work, Ghost(h), Ghost(roots), Ghost(p));
        },
        VCell::Vector(x) => {
            assert(refers(v, Node::Vector(x)));
            mark_vector(heap, x, marks, work, Ghost(roots), Ghost(cell));
        },
        VCell::Closure(_, x) => {
            assert(refers(v, Node::Vector(x)));
            mark_vector(heap, x, marks, work, Ghost(roots), Ghost(cell));
        },
        VCell::String(x) => {
            assert(refers(v, Node::Text(x)));
            if x < marks.strings.len() {
                marks.strings.set(x, true);
                assert forall|m: Node| #[trigger] marks.marked(m) implies live(h, roots, m) by {
                    if m != Node::Text(x) {
                        assert(old(marks).marked(m));
                    }
                }
                assert(pending(work@, *marks)) by {
                    assert forall|i: int| 0 <= i < work@.len() implies marks.marked(
                        Node::Cell(#[trigger] work@[i]),
                    ) by {
                        assert(old(marks).marked(Node::Cell(work@[i])));
                    }
                }
                assert(settled(h, *marks, work@, p)) by {
                    assert forall|a: int, m: Node|
                        0 <= a < h.cells.len() && marks.marked(Node::Cell(a as usize))
                            && !work@.contains(a as usize) && a != cell && #[trigger] refers(
                            h.cells[a],
                            m,
                        ) && has(h, m) implies marks.marked(m) by {
                        assert(old(marks).marked(Node::Cell(a as usize)));
                        assert(old(marks).marked(m));
                    }
                    assert forall|y: int, i: int|
                        0 <= y < h.vectors.len() && marks.marked(Node::Vector(y as usize)) && 0
                            <= i < h.vectors[y].len() && !(y == -1 && i >= 0) && has(
                            h,
                            Node::Cell(#[trigger] h.vectors[y][i]),
                        ) implies marks.marked(Node::Cell(h.vectors[y][i])) by {
                        assert(old(marks).marked(Node::Vector(y as usize)));
                        assert(old(marks).marked(Node::Cell(h.vectors[y][i])));
                    }
                }
            }
        },
        _ => {},
    }
}

/// The set of all nodes of the heap holds all that is in use, so what is
/// in use is of the heap.
pub proof fn lemma_live_has(h: HeapView, roots: Seq<VCell>, n: Node)
    requires
        live(h, roots, n),
    ensures
        has(h, n),
{
    let all = Set::new(|m: Node| has(h, m));
    assert(closed(h, roots, all));
    assert(all.contains(n));
}

/// Marks all that is in use, given the roots.
pub fn mark(heap: &Heap, roots: &Vec<VCell>) -> (marks: Marks)
    requires
        heap.wf(),
    ensures
        marks.fits(heap@),
        forall|n: Node| #[trigger] marks.marked(n) <==> live(heap@, roots@, n),
{
    let ghost h = heap@;
    let ghost rs = roots@;
    let mut marks = Marks {
        cells: no_marks(heap.len()),
        vectors: no_marks(heap.vectors_len()),
        strings: no_marks(heap.strings_len()),
    };
    let mut work: Vec<usize> = Vec::new();
    assert(settled(h, marks, work@, idle()));
    let mut i: usize = 0;
    while i < roots.len()
        invariant
            heap.wf(),
            h == heap@,
            rs == roots@,
            i <= roots.len(),
            marks.fits(h),
            marks.sound(h, rs),
            pending(work@, marks),
            settled(h, marks, work@, idle()),
            forall|k: int, n: Node|
                0 <= k < i && #[trigger] refers(rs[k], n) && has(h, n) ==> marks.marked(n),
        decreases roots.len() - i,
    {
        let ghost earlier = marks;
        assert forall|n: Node| refers(roots@[i as int], n) && has(h, n) implies live(
            h,
            rs,
            n,
        ) by {
            lemma_live_from_root(h, rs, i as int, n);
        }
        mark_refs(heap, roots[i], &mut marks, &mut work, Ghost(rs), Ghost(-1));
        assert forall|k: int, n: Node|
            0 <= k < i + 1 && #[trigger] refers(rs[k], n) && has(h, n) implies marks.marked(
            n,
        ) by {
            if k < i {
                assert(earlier.marked(n));
            }
        }
        i = i + 1;
    }
    let mut c: usize = 0;
    while c < heap.codes_len()
        invariant
            heap.wf(),
            h == heap@,
            rs == roots@,
            c <= h.codes.len(),
            marks.fits(h),
            marks.sound(h, rs),
            pending(work@, marks),
            settled(h, marks, work@, idle()),
            forall|k: int, n: Node|
                0 <= k < rs.len() && #[trigger] refers(rs[k], n) && has(h, n) ==> marks.marked(
                    n,
                ),
            forall|d: int, k: int, n: Node|
                0 <= d < c && 0 <= k < h.codes[d].ops.len() && #[trigger] refers(
                    constant(h.codes[d].ops[k]),
                    n,
                ) && has(h, n) ==> marks.marked(n),
        decreases h.codes.len() - c,
    {
        let len = heap.code_len(c);
        let mut j: usize = 0;
        while j < len
            invariant
                heap.wf(),
                h == heap@,
                rs == roots@,
                c < h.codes.len(),
                j <= len,
                len == h.codes[c as int].ops.len(),
                marks.fits(h),
                marks.sound(h, rs),
                pending(work@, marks),
                settled(h, marks, work@, idle()),
                forall|k: int, n: Node|
                    0 <= k < rs.len() && #[trigger] refers(rs[k], n) && has(h, n)
                        ==> marks.marked(n),
                forall|d: int, k: int, n: Node|
                    0 <= d < c && 0 <= k < h.codes[d].ops.len() && #[trigger] refers(
                        constant(h.codes[d].ops[k]),
                        n,
                    ) && has(h, n) ==> marks.marked(n),
                forall|k: int, n: Node|
                    0 <= k < j && #[trigger] refers(constant(h.codes[c as int].ops[k]), n)
                        && has(h, n) ==> marks.marked(n),
            decreases len - j,
        {
            let ghost earlier = marks;
            let v = match heap.op_at(c, j) {
                Some(Op::PushConst(v)) => v,
                _ => VCell::Void,
            };
            assert(v == constant(h.codes[c as int].ops[j as int]));
            assert forall|n: Node| refers(v, n) && has(h, n) implies live(h, rs, n) by {
                lemma_live_from_code(h, rs, c as int, j as int, n);
            }
            mark_refs(heap, v, &mut marks, &mut work, Ghost(rs), Ghost(-1));
            assert forall|k: int, n: Node|
                0 <= k < rs.len() && #[trigger] refers(rs[k], n) && has(h, n) implies marks.marked(
                n,
            ) by {
                assert(earlier.marked(n));
            }
            assert forall|d: int, k: int, n: Node|
                0 <= d < c && 0 <= k < h.codes[d].ops.len() && #[trigger] refers(
                    constant(h.codes[d].ops[k]),
                    n,
                ) && has(h, n) implies marks.marked(n) by {
                assert(earlier.marked(n));
            }
            assert forall|k: int, n: Node|
                0 <= k < j + 1 && #[trigger] refers(constant(h.codes[c as int].ops[k]), n)
                    && has(h, n) implies marks.marked(n) by {
                if k < j {
                    assert(earlier.marked(n));
                }
            }
            j = j + 1;
        }
        c = c + 1;
    }
    while work.len() > 0
        invariant
            heap.wf(),
            h == heap@,
            rs == roots@,
            marks.fits(h),
            marks.sound(h, rs),
            pending(work@, marks),
            settled(h, marks, work@, idle()),
            forall|k: int, n: Node|
                0 <= k < rs.len() && #[trigger] refers(rs[k], n) && has(h, n) ==> marks.marked(
                    n,
                ),
            forall|d: int, k: int, n: Node|
                0 <= d < h.codes.len() && 0 <= k < h.codes[d].ops.len() && #[trigger] refers(
                    constant(h.codes[d].ops[k]),
                    n,
                ) && has(h, n) ==> marks.marked(n),
        decreases 2 * unmarked(marks.cells@) + work@.len(),
    {
        let ghost earlier = marks;
        let ghost waiting = work@;
        let a = work.pop().unwrap();
        let v = heap.get_at_index(a);
        assert(marks.marked(Node::Cell(a))) by {
            assert(marks.marked(Node::Cell(waiting[waiting.len() - 1])));
        }
        assert(pending(work@, marks)) by {
            assert forall|k: int| 0 <= k < work@.len() implies marks.marked(
                Node::Cell(#[trigger] work@[k]),
            ) by {
                assert(work@[k] == waiting[k]);
            }
        }
        assert(settled(h, marks, work@, Progress { cell: a as int, vector: -1, from: 0 })) by {
            assert forall|b: int, n: Node|
                0 <= b < h.cells.len() && marks.marked(Node::Cell(b as usize))
                    && !work@.contains(b as usize) && b != a && #[trigger] refers(
                    h.cells[b],
                    n,
                ) && has(h, n) implies marks.marked(n) by {
                if waiting.contains(b as usize) {
                    let k = choose|k: int| 0 <= k < waiting.len() && waiting[k] == b;
                    assert(work@[k] == b);
                }
            }
        }
        assert forall|n: Node| refers(v, n) && has(h, n) implies live(h, rs, n) by {
            lemma_live_from_cell(h, rs, a as int, n);
        }
        mark_refs(heap, v, &mut marks, &mut work, Ghost(rs), Ghost(a as int));
        assert(settled(h, marks, work@, idle()));
        assert forall|k: int, n: Node|
            0 <= k < rs.len() && #[trigger] refers(rs[k], n) && has(h, n) implies marks.marked(
            n,
        ) by {
            assert(earlier.marked(n));
        }
        assert forall|d: int, k: int, n: Node|
            0 <= d < h.codes.len() && 0 <= k < h.codes[d].ops.len() && #[trigger] refers(
                constant(h.codes[d].ops[k]),
                n,
            ) && has(h, n) implies marks.marked(n) by {
            assert(earlier.marked(n));
        }
    }
    proof {
        let set = marks.set();
        assert(closed(h, rs, set)) by {
            assert forall|a: int, n: Node|
                0 <= a < h.cells.len() && set.contains(Node::Cell(a as usize))
                    && #[trigger] refers(h.cells[a], n) && has(h, n) implies set.contains(n) by {
                assert(marks.marked(Node::Cell(a as usize)));
                assert(!work@.contains(a as usize));
            }
            assert forall|x: int, k: int|
                0 <= x < h.vectors.len() && set.contains(Node::Vector(x as usize)) && 0 <= k
                    < h.vectors[x].len() && has(
                    h,
                    Node::Cell(#[trigger] h.vectors[x][k]),
                ) implies set.contains(Node::Cell(h.vectors[x][k])) by {
                assert(marks.marked(Node::Vector(x as usize)));
            }
        }
        assert forall|n: Node| #[trigger] marks.marked(n) <==> live(h, rs, n) by {
            if live(h, rs, n) {
                assert(set.contains(n));
            }
        }
    }
    marks
}

/// Gives up what is not marked: a cell becomes undefined, a vector or a
/// string empty.
pub fn sweep(heap: &mut Heap, marks: &Marks, Ghost(roots): Ghost<Seq<VCell>>)
    requires
        old(heap).wf(),
        marks.fits(old(heap)@),
        forall|n: Node| #[trigger] marks.marked(n) <==> live(old(heap)@, roots, n),
    ensures
        final(heap).wf(),
        swept(old(heap)@, roots, final(heap)@),
{
    let ghost h = heap@;
    let cells = heap.len();
    let mut a: usize = 0;
    while a < cells
        invariant
            heap.wf(),
            a <= cells,
            cells == h.cells.len(),
            marks.fits(h),
            heap@ == (HeapView { cells: heap@.cells, ..h }),
            heap@.cells.len() == h.cells.len(),
            forall|n: Node| #[trigger] marks.marked(n) <==> live(h, roots, n),
            forall|b: int|
                0 <= b < h.cells.len() ==> #[trigger] heap@.cells[b] == if b < a && !live(
                    h,
                    roots,
                    Node::Cell(b as usize),
                ) {
                    VCell::Undefined
                } else {
                    h.cells[b]
                },
        decreases cells - a,
    {
        if !marks.cells[a] {
            assert(!marks.marked(Node::Cell(a)));
            heap.set_at_index(a, VCell::Undefined);
        } else {
            assert(marks.marked(Node::Cell(a)));
        }
        a = a + 1;
    }
    let ghost h1 = heap@;
    let vectors = heap.vectors_len();
    let mut x: usize = 0;
    while x < vectors
        invariant
            heap.wf(),
            x <= vectors,
            vectors == h.vectors.len(),
            marks.fits(h),
            heap@ == (HeapView { vectors: heap@.vectors, ..h1 }),
            heap@.vectors.len() == h.vectors.len(),
            forall|n: Node| #[trigger] marks.marked(n) <==> live(h, roots, n),
            forall|y: int|
                0 <= y < h.vectors.len() ==> #[trigger] heap@.vectors[y] == if y < x && !live(
                    h,
                    roots,
                    Node::Vector(y as usize),
                ) {
                    Seq::<usize>::empty()
                } else {
                    h.vectors[y]
                },
        decreases vectors - x,
    {
        if !marks.vectors[x] {
            assert(!marks.marked(Node::Vector(x)));
            heap.clear_vector(x);
        } else {
            assert(marks.marked(Node::Vector(x)));
        }
        x = x + 1;
    }
    let ghost h2 = heap@;
    let strings = heap.strings_len();
    let mut x: usize = 0;
    while x < strings
        invariant
            heap.wf(),
            x <= strings,
            strings == h.strings.len(),
            marks.fits(h),
            heap@ == (HeapView { strings: heap@.strings, ..h2 }),
            heap@.strings.len() == h.strings.len(),
            forall|n: Node| #[trigger] marks.marked(n) <==> live(h, roots, n),
            forall|y: int|
                0 <= y < h.strings.len() ==> #[trigger] heap@.strings[y] == if y < x && !live(
                    h,
                    roots,
                    Node::Text(y as usize),
                ) {
                    Seq::<char>::empty()
                } else {
                    h.strings[y]
                },
        decreases strings - x,
    {
        if !marks.strings[x] {
            assert(!marks.marked(Node::Text(x)));
            heap.clear_string(x);
        } else {
            assert(marks.marked(Node::Text(x)));
        }
        x = x + 1;
    }
}

/// A cell that is in use holds after a collection what it held before,
/// and all that it refers to is in use as well.
pub proof fn law_collection_keeps(h: HeapView, roots: Seq<VCell>, g: HeapView, a: usize, n: Node)
    requires
        swept(h, roots, g),
        live(h, roots, Node::Cell(a)),
    ensures
        a < g.cells.len(),
        g.cells[a as int] == h.cells[a as int],
        refers(h.cells[a as int], n) && has(h, n) ==> live(h, roots, n),
{
    lemma_live_has(h, roots, Node::Cell(a));
    if refers(h.cells[a as int], n) && has(h, n) {
        lemma_live_from_cell(h, roots, a as int, n);
    }
}

/// The roots of a machine: what lies on the stack, what the global slots
/// hold, and what is pinned besides.
pub open spec fn roots_of(vm: Vm, pinned: Seq<VCell>) -> Seq<VCell> {
    vm.stack@ + vm.globenv@ + pinned
}

impl Vm {
    /// Reclaims what is not in use: what cannot be reached from the stack,
    /// the global slots, the constants of the compiled procedures or the
    /// pinned values.
    pub fn collect(&mut self, pinned: &Vec<VCell>)
        requires
            old(self).wf(),
        ensures
            final(self).wf(),
            final(self).stack@ == old(self).stack@,
            final(self).globenv@ == old(self).globenv@,
            swept(old(self).heap@, roots_of(*old(self), pinned@), final(self).heap@),
    {
        let mut roots: Vec<VCell> = Vec::new();
        let mut i: usize = 0;
        while i < self.stack.len()
            invariant
                i <= self.stack@.len(),
                *self == *old(self),
                roots@ == self.stack@.take(i as int),
            decreases self.stack@.len() - i,
        {
            roots.push(self.stack.get(i).unwrap());
            assert(roots@ =~= self.stack@.take(i + 1));
            i = i + 1;
        }
        assert(self.stack@.take(self.stack@.len() as int) =~= self.stack@);
        let mut i: usize = 0;
        while i < self.globenv.len()
            invariant
                i <= self.globenv@.len(),
                *self == *old(self),
                roots@ == self.stack@ + self.globenv@.take(i as int),
            decreases self.globenv@.len() - i,
        {
            roots.push(self.globenv.get_slot(i));
            assert(roots@ =~= self.stack@ + self.globenv@.take(i + 1));
            i = i + 1;
        }
        assert(self.globenv@.take(self.globenv@.len() as int) =~= self.globenv@);
        let mut i: usize = 0;
        while i < pinned.len()
            invariant
                i <= pinned.len(),
                *self == *old(self),
                roots@ == self.stack@ + self.globenv@ + pinned@.take(i as int),
            decreases pinned.len() - i,
        {
            roots.push(pinned[i]);
            assert(roots@ =~= self.stack@ + self.globenv@ + pinned@.take(i + 1));
            i = i + 1;
        }
        assert(pinned@.take(pinned.len() as int) =~= pinned@);
        let marks = mark(&self.heap, &roots);
        sweep(&mut self.heap, &marks, Ghost(roots@));
        proof {
            let h = old(self).heap@;
            let g = self.heap@;
            assert forall|k: int| 0 <= k < self.stack@.len() implies g.valid(
                #[trigger] self.stack@[k],
            ) by {
                assert(h.valid(old(self).stack@[k]));
            }
            assert forall|k: int| 0 <= k < self.globenv@.len() implies g.holds(
                #[trigger] self.globenv@[k],
            ) by {
                assert(h.holds(old(self).globenv@[k]));
            }
        }
    }
}

} // verus!
