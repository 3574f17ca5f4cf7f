//! The heap: addressed cells, and the stores behind vectors, strings and
//! symbols.
use crate::code::{Code, CodeView, Op};
use crate::vcell::VCell;
use vstd::prelude::*;

verus! {

/// The storage of a virtual machine.
pub struct Heap {
    cells: Vec<VCell>,
    vectors: Vec<Vec<usize>>,
    strings: Vec<Vec<char>>,
    symbols: Vec<Vec<char>>,
    codes: Vec<Code>,
}

/// How much a heap holds: the numbers of its cells, vectors, strings,
/// symbols and compiled procedures.
#[derive(Clone, Copy, Debug)]
pub struct Sizes {
    pub cells: usize,
    pub vectors: usize,
    pub strings: usize,
    pub symbols: usize,
    pub codes: usize,
}

/// The first `n` of some items; all of them where there are no more.
pub open spec fn first<T>(items: Seq<T>, n: usize) -> Seq<T> {
    if n < items.len() {
        items.take(n as int)
    } else {
        items
    }
}

/// What a heap holds.
pub struct HeapView {
    /// The cell at each address.
    pub cells: Seq<VCell>,
    /// The slots of each vector, by handle: each slot is the address of
    /// the cell that it holds.
    pub vectors: Seq<Seq<usize>>,
    /// The characters of each string, by handle.
    pub strings: Seq<Seq<char>>,
    /// The name of each symbol, by handle.
    pub symbols: Seq<Seq<char>>,
    /// Each compiled procedure, by handle.
    pub codes: Seq<CodeView>,
}

impl HeapView {
    /// The cell that a value stands for: for a pointer the cell at its
    /// address (`Undefined` where there is none), else the value itself.
    pub open spec fn deref(self, v: VCell) -> VCell {
        match v {
            VCell::Ptr(a) => if a < self.cells.len() {
                self.cells[a as int]
            } else {
                VCell::Undefined
            },
            _ => v,
        }
    }

    /// The cell at an address, `Undefined` where there is none.
    pub open spec fn at(self, a: usize) -> VCell {
        self.deref(VCell::Ptr(a))
    }

    /// The slots of the vector with this handle; none where there is no
    /// such vector.
    pub open spec fn vector(self, handle: usize) -> Seq<usize> {
        if handle < self.vectors.len() {
            self.vectors[handle as int]
        } else {
            Seq::empty()
        }
    }

    /// The characters of the string with this handle.
    pub open spec fn string(self, handle: usize) -> Seq<char> {
        if handle < self.strings.len() {
            self.strings[handle as int]
        } else {
            Seq::empty()
        }
    }

    /// The name of the symbol with this handle.
    pub open spec fn symbol(self, handle: usize) -> Seq<char> {
        if handle < self.symbols.len() {
            self.symbols[handle as int]
        } else {
            Seq::empty()
        }
    }

    /// Every address and handle that the cell holds is one of this heap,
    /// and a number stands for a fraction.
    pub open spec fn valid(self, v: VCell) -> bool {
        match v {
            VCell::Ptr(a) => a < self.cells.len(),
            VCell::Pair(car, cdr) => car < self.cells.len() && cdr < self.cells.len(),
            VCell::Vector(handle) => handle < self.vectors.len(),
            VCell::String(handle) => handle < self.strings.len(),
            VCell::Symbol(handle) => handle < self.symbols.len(),
            VCell::Lambda(code) => code < self.codes.len(),
            VCell::Closure(code, captured) => code < self.codes.len() && captured
                < self.vectors.len(),
            VCell::Number(n) => n.valid(),
            _ => true,
        }
    }

    /// The cell is a value whose addresses and handles are of this heap.
    pub open spec fn holds(self, v: VCell) -> bool {
        v.is_value() && self.valid(v)
    }

    /// Every address, handle and index fits the machine's word.
    pub open spec fn bounded(self) -> bool {
        &&& self.cells.len() <= usize::MAX
        &&& self.vectors.len() <= usize::MAX
        &&& self.strings.len() <= usize::MAX
        &&& self.symbols.len() <= usize::MAX
        &&& self.codes.len() <= usize::MAX
        &&& forall|h: int|
            0 <= h < self.codes.len() ==> (#[trigger] self.codes[h]).ops.len() <= usize::MAX
        &&& forall|h: int|
            0 <= h < self.vectors.len() ==> (#[trigger] self.vectors[h]).len() <= usize::MAX
        &&& forall|h: int|
            0 <= h < self.strings.len() ==> (#[trigger] self.strings[h]).len() <= usize::MAX
    }

    /// What an instruction refers to is of this heap.
    pub open spec fn op_valid(self, op: Op) -> bool {
        match op {
            Op::PushConst(v) => self.valid(v),
            Op::MakeClosure(code, _) => code < self.codes.len(),
            _ => true,
        }
    }

    /// The instruction at a place of a compiled procedure, if there is one.
    pub open spec fn op_at(self, code: usize, ip: usize) -> Option<Op> {
        if code < self.codes.len() && ip < self.codes[code as int].ops.len() {
            Some(self.codes[code as int].ops[ip as int])
        } else {
            None
        }
    }

    /// The number of arguments of a compiled procedure; zero where there
    /// is no such procedure.
    pub open spec fn arity(self, code: usize) -> usize {
        if code < self.codes.len() {
            self.codes[code as int].arity
        } else {
            0
        }
    }

    /// No name is interned twice; every cell is a value other than a
    /// pointer; every address or handle in a cell, a vector slot or an
    /// instruction is one of this heap; and all of them fit the machine's
    /// word.
    pub open spec fn wf(self) -> bool {
        &&& self.bounded()
        &&& forall|c: int, i: int|
            0 <= c < self.codes.len() && 0 <= i < self.codes[c].ops.len() ==> self.op_valid(
                #[trigger] self.codes[c].ops[i],
            )
        &&& forall|i: int, j: int|
            0 <= i < j < self.symbols.len() ==> self.symbols[i] != self.symbols[j]
        &&& forall|a: int|
            0 <= a < self.cells.len() ==> (#[trigger] self.cells[a]).storable() && self.valid(
                self.cells[a],
            )
        &&& forall|h: int, i: int|
            0 <= h < self.vectors.len() && 0 <= i < self.vectors[h].len()
                ==> (#[trigger] self.vectors[h][i]) < self.cells.len()
    }

    /// `other` holds all that `self` holds, unchanged, and maybe more.
    pub open spec fn extended_by(self, other: HeapView) -> bool {
        &&& self.cells.is_prefix_of(other.cells)
        &&& self.vectors.is_prefix_of(other.vectors)
        &&& self.strings.is_prefix_of(other.strings)
        &&& self.symbols.is_prefix_of(other.symbols)
        &&& self.codes.is_prefix_of(other.codes)
    }

    /// `other` has every address and handle that `self` has.
    pub open spec fn no_larger_than(self, other: HeapView) -> bool {
        &&& self.cells.len() <= other.cells.len()
        &&& self.vectors.len() <= other.vectors.len()
        &&& self.strings.len() <= other.strings.len()
        &&& self.symbols.len() <= other.symbols.len()
        &&& self.codes.len() <= other.codes.len()
    }

    /// A heap with nothing in it.
    pub open spec fn empty() -> HeapView {
        HeapView {
            cells: Seq::empty(),
            vectors: Seq::empty(),
            strings: Seq::empty(),
            symbols: Seq::empty(),
            codes: Seq::empty(),
        }
    }

    /// The handle under which a name is interned.
    pub open spec fn handle_of(self, name: Seq<char>) -> usize {
        choose|s: usize| s < self.symbols.len() && self.symbols[s as int] == name
    }

    /// The heap with the name interned: it is added where it was missing.
    pub open spec fn interned(self, name: Seq<char>) -> HeapView {
        HeapView {
            symbols: if self.symbols.contains(name) {
                self.symbols
            } else {
                self.symbols.push(name)
            },
            ..self
        }
    }

    /// Whether the heap holds as much as the sizes say.
    pub open spec fn has(self, sizes: Sizes) -> bool {
        &&& self.cells.len() == sizes.cells
        &&& self.vectors.len() == sizes.vectors
        &&& self.strings.len() == sizes.strings
        &&& self.symbols.len() == sizes.symbols
        &&& self.codes.len() == sizes.codes
    }

    /// The heap without what lies beyond the sizes.
    pub open spec fn cut(self, to: Sizes) -> HeapView {
        HeapView {
            cells: first(self.cells, to.cells),
            vectors: first(self.vectors, to.vectors),
            strings: first(self.strings, to.strings),
            symbols: first(self.symbols, to.symbols),
            codes: first(self.codes, to.codes),
        }
    }

    /// A heap that was extended is, cut to its sizes, what it was.
    pub proof fn lemma_cut(self, other: HeapView, sizes: Sizes)
        requires
            self.extended_by(other),
            self.has(sizes),
        ensures
            other.cut(sizes) == self,
    {
        assert(first(other.cells, sizes.cells) =~= self.cells);
        assert(first(other.vectors, sizes.vectors) =~= self.vectors);
        assert(first(other.strings, sizes.strings) =~= self.strings);
        assert(first(other.symbols, sizes.symbols) =~= self.symbols);
        assert(first(other.codes, sizes.codes) =~= self.codes);
    }

    /// The heap with one more cell.
    pub open spec fn with_cell(self, v: VCell) -> HeapView {
        HeapView { cells: self.cells.push(v), ..self }
    }

    /// The heap after `put(v)`: a pointer is not stored.
    pub open spec fn put(self, v: VCell) -> HeapView {
        if v is Ptr {
            self
        } else {
            self.with_cell(v)
        }
    }

    /// The address of the cell that `put(v)` points to.
    pub open spec fn put_addr(self, v: VCell) -> usize {
        match v {
            VCell::Ptr(a) => a,
            _ => self.cells.len() as usize,
        }
    }

    /// The pointer that `put(v)` returns.
    pub open spec fn put_ptr(self, v: VCell) -> VCell {
        if v is Ptr {
            v
        } else {
            VCell::Ptr(self.cells.len() as usize)
        }
    }
}

impl View for Heap {
    type V = HeapView;

    closed spec fn view(&self) -> HeapView {
        HeapView {
            cells: self.cells@,
            vectors: Seq::new(self.vectors@.len(), |i: int| self.vectors@[i]@),
            strings: Seq::new(self.strings@.len(), |i: int| self.strings@[i]@),
            symbols: Seq::new(self.symbols@.len(), |i: int| self.symbols@[i]@),
            codes: Seq::new(self.codes@.len(), |i: int| self.codes@[i]@),
        }
    }
}

impl Heap {
    pub open spec fn wf(&self) -> bool {
        self@.wf()
    }

    /// An empty heap.
    pub fn new() -> (heap: Heap)
        ensures
            heap.wf(),
            heap@ == HeapView::empty(),
    {
        let heap = Heap {
            cells: Vec::new(),
            vectors: Vec::new(),
            strings: Vec::new(),
            symbols: Vec::new(),
            codes: Vec::new(),
        };
        assert(heap@.cells =~= Seq::<VCell>::empty());
        assert(heap@.vectors =~= Seq::<Seq<usize>>::empty());
        assert(heap@.strings =~= Seq::<Seq<char>>::empty());
        assert(heap@.symbols =~= Seq::<Seq<char>>::empty());
        assert(heap@.codes =~= Seq::<CodeView>::empty());
        proof {
            heap.lemma_bounded();
        }
        heap
    }

    /// The sizes of the stores of a heap fit the machine's word.
    pub proof fn lemma_bounded(&self)
        ensures
            self@.bounded(),
    {
        assert(self.cells.len() == self.cells@.len());
        assert(self.vectors.len() == self.vectors@.len());
        assert(self.strings.len() == self.strings@.len());
        assert(self.symbols.len() == self.symbols@.len());
        assert(self.codes.len() == self.codes@.len());
        assert forall|h: int| 0 <= h < self@.codes.len() implies (#[trigger] self@.codes[h]).ops.len()
            <= usize::MAX by {
            assert(self.codes@[h].ops.len() == self.codes@[h].ops@.len());
        }
        assert forall|h: int| 0 <= h < self@.vectors.len() implies (#[trigger] self@.vectors[h]).len()
            <= usize::MAX by {
            assert(self.vectors@[h].len() == self.vectors@[h]@.len());
        }
        assert forall|h: int| 0 <= h < self@.strings.len() implies (#[trigger] self@.strings[h]).len()
            <= usize::MAX by {
            assert(self.strings@[h].len() == self.strings@[h]@.len());
        }
    }

    /// How much the heap holds.
    pub fn sizes(&self) -> (sizes: Sizes)
        ensures
            self@.has(sizes),
    {
        Sizes {
            cells: self.cells.len(),
            vectors: self.vectors.len(),
            strings: self.strings.len(),
            symbols: self.symbols.len(),
            codes: self.codes.len(),
        }
    }

    /// Takes away what lies beyond the sizes: what was added since the
    /// heap had them.
    pub fn cut(&mut self, to: Sizes)
        requires
            old(self)@.cut(to).wf(),
        ensures
            final(self).wf(),
            final(self)@ == old(self)@.cut(to),
    {
        self.cells.truncate(to.cells);
        self.vectors.truncate(to.vectors);
        self.strings.truncate(to.strings);
        self.symbols.truncate(to.symbols);
        self.codes.truncate(to.codes);
        assert(self@.cells =~= first(old(self)@.cells, to.cells));
        assert(self@.vectors =~= first(old(self)@.vectors, to.vectors));
        assert(self@.strings =~= first(old(self)@.strings, to.strings));
        assert(self@.symbols =~= first(old(self)@.symbols, to.symbols));
        assert(self@.codes =~= first(old(self)@.codes, to.codes));
    }

    /// Number of cells.
    pub fn len(&self) -> (n: usize)
        ensures
            n == self@.cells.len(),
    {
        self.cells.len()
    }

    /// Stores a cell and returns the pointer to it. A pointer is returned
    /// as it is.
    pub fn put(&mut self, v: VCell) -> (p: VCell)
        requires
            old(self).wf(),
            old(self)@.holds(v),
        ensures
            final(self).wf(),
            final(self)@ == old(self)@.put(v),
            p == old(self)@.put_ptr(v),
            p is Ptr,
            final(self)@.valid(p),
            old(self)@.cells.len() <= usize::MAX,
    {
        let ghost _n = self.cells.len();
        match v {
            VCell::Ptr(_) => v,
            _ => {
                let addr = self.cells.len();
                self.cells.push(v);
                assert(self@.vectors =~= old(self)@.vectors);
                assert(self@.strings =~= old(self)@.strings);
                assert(self@.symbols =~= old(self)@.symbols);
                assert(self@.codes =~= old(self)@.codes);
                proof {
                    self.lemma_bounded();
                }
                VCell::Ptr(addr)
            },
        }
    }

    /// The address of a value: that of the cell it points to, or of a new
    /// cell that holds it.
    pub fn address(&mut self, v: VCell) -> (a: usize)
        requires
            old(self).wf(),
            old(self)@.holds(v),
        ensures
            final(self).wf(),
            final(self)@ == old(self)@.put(v),
            a == old(self)@.put_addr(v),
            a < final(self)@.cells.len(),
            old(self)@.cells.len() <= usize::MAX,
    {
        match self.put(v) {
            VCell::Ptr(a) => a,
            _ => 0,
        }
    }

    /// The cell that a value stands for.
    pub fn get(&self, v: VCell) -> (c: VCell)
        ensures
            c == self@.deref(v),
            self.wf() && self@.holds(v) ==> self@.holds(c) && c.storable(),
    {
        match v {
            VCell::Ptr(a) => self.get_at_index(a),
            _ => v,
        }
    }

    /// The cell at an address.
    pub fn get_at_index(&self, a: usize) -> (c: VCell)
        ensures
            c == self@.at(a),
            self.wf() ==> self@.holds(c) && c.storable(),
    {
        if a < self.cells.len() {
            self.cells[a]
        } else {
            VCell::Undefined
        }
    }

    /// Replaces the cell at an address. Nothing happens, and the answer is
    /// `false`, where there is no such cell.
    pub fn set_at_index(&mut self, a: usize, v: VCell) -> (done: bool)
        requires
            old(self).wf(),
            v.storable(),
            old(self)@.valid(v),
        ensures
            final(self).wf(),
            done == (a < old(self)@.cells.len()),
            final(self)@ == if done {
                HeapView { cells: old(self)@.cells.update(a as int, v), ..old(self)@ }
            } else {
                old(self)@
            },
    {
        if a < self.cells.len() {
            self.cells.set(a, v);
            proof {
                self.lemma_bounded();
            }
            assert(self@.vectors =~= old(self)@.vectors);
            assert(self@.strings =~= old(self)@.strings);
            assert(self@.symbols =~= old(self)@.symbols);
                assert(self@.codes =~= old(self)@.codes);
            true
        } else {
            false
        }
    }

    /// Stores the slots of a new vector and returns the cell that holds
    /// its handle.
    pub fn alloc_vector(&mut self, slots: Vec<usize>) -> (v: VCell)
        requires
            old(self).wf(),
            forall|i: int| 0 <= i < slots.len() ==> (#[trigger] slots[i]) < old(self)@.cells.len(),
        ensures
            final(self).wf(),
            final(self)@ == (HeapView {
                vectors: old(self)@.vectors.push(slots@),
                ..old(self)@
            }),
            v == VCell::Vector(old(self)@.vectors.len() as usize),
    {
        let handle = self.vectors.len();
        self.vectors.push(slots);
        assert(self@.vectors =~= old(self)@.vectors.push(slots@));
        assert(self@.strings =~= old(self)@.strings);
        assert(self@.symbols =~= old(self)@.symbols);
                assert(self@.codes =~= old(self)@.codes);
        proof {
            self.lemma_bounded();
        }
        VCell::Vector(handle)
    }

    /// Number of slots of a vector; zero where there is no such vector.
    pub fn vector_len(&self, handle: usize) -> (n: usize)
        ensures
            n == self@.vector(handle).len(),
    {
        if handle < self.vectors.len() {
            self.vectors[handle].len()
        } else {
            0
        }
    }

    /// The slot `i` of a vector, where there is one.
    pub fn vector_get(&self, handle: usize, i: usize) -> (r: Option<usize>)
        ensures
            r == if i < self@.vector(handle).len() {
                Some(self@.vector(handle)[i as int])
            } else {
                None
            },
    {
        if handle < self.vectors.len() && i < self.vectors[handle].len() {
            Some(self.vectors[handle][i])
        } else {
            None
        }
    }

    /// Replaces the slot `i` of a vector. Nothing happens, and the answer
    /// is `false`, where there is no such slot.
    pub fn vector_set(&mut self, handle: usize, i: usize, v: usize) -> (done: bool)
        requires
            old(self).wf(),
            v < old(self)@.cells.len(),
        ensures
            final(self).wf(),
            done == (i < old(self)@.vector(handle).len()),
            final(self)@ == if done {
                HeapView {
                    vectors: old(self)@.vectors.update(
                        handle as int,
                        old(self)@.vector(handle).update(i as int, v),
                    ),
                    ..old(self)@
                }
            } else {
                old(self)@
            },
    {
        if handle < self.vectors.len() && i < self.vectors[handle].len() {
            self.vectors[handle].set(i, v);
            proof {
                self.lemma_bounded();
            }
            assert(self@.vectors =~= old(self)@.vectors.update(
                handle as int,
                old(self)@.vector(handle).update(i as int, v),
            ));
            assert(self@.strings =~= old(self)@.strings);
            assert(self@.symbols =~= old(self)@.symbols);
                assert(self@.codes =~= old(self)@.codes);
            true
        } else {
            false
        }
    }

    /// Stores the characters of a new string and returns the cell that
    /// holds its handle.
    pub fn alloc_string(&mut self, chars: Vec<char>) -> (v: VCell)
        requires
            old(self).wf(),
        ensures
            final(self).wf(),
            final(self)@ == (HeapView {
                strings: old(self)@.strings.push(chars@),
                ..old(self)@
            }),
            v == VCell::String(old(self)@.strings.len() as usize),
    {
        let handle = self.strings.len();
        self.strings.push(chars);
        assert(self@.strings =~= old(self)@.strings.push(chars@));
        assert(self@.vectors =~= old(self)@.vectors);
        assert(self@.symbols =~= old(self)@.symbols);
                assert(self@.codes =~= old(self)@.codes);
        proof {
            self.lemma_bounded();
        }
        VCell::String(handle)
    }

    /// Number of characters of a string; zero where there is no such string.
    pub fn string_len(&self, handle: usize) -> (n: usize)
        ensures
            n == self@.string(handle).len(),
    {
        if handle < self.strings.len() {
            self.strings[handle].len()
        } else {
            0
        }
    }

    /// The character `i` of a string, where there is one.
    pub fn string_get(&self, handle: usize, i: usize) -> (r: Option<char>)
        ensures
            r == if i < self@.string(handle).len() {
                Some(self@.string(handle)[i as int])
            } else {
                None
            },
    {
        if handle < self.strings.len() && i < self.strings[handle].len() {
            Some(self.strings[handle][i])
        } else {
            None
        }
    }

    /// Replaces the character `i` of a string. Nothing happens, and the
    /// answer is `false`, where there is no such character.
    pub fn string_set(&mut self, handle: usize, i: usize, c: char) -> (done: bool)
        requires
            old(self).wf(),
        ensures
            final(self).wf(),
            done == (i < old(self)@.string(handle).len()),
            final(self)@ == if done {
                HeapView {
                    strings: old(self)@.strings.update(
                        handle as int,
                        old(self)@.string(handle).update(i as int, c),
                    ),
                    ..old(self)@
                }
            } else {
                old(self)@
            },
    {
        if handle < self.strings.len() && i < self.strings[handle].len() {
            self.strings[handle].set(i, c);
            proof {
                self.lemma_bounded();
            }
            assert(self@.strings =~= old(self)@.strings.update(
                handle as int,
                old(self)@.string(handle).update(i as int, c),
            ));
            assert(self@.vectors =~= old(self)@.vectors);
            assert(self@.symbols =~= old(self)@.symbols);
                assert(self@.codes =~= old(self)@.codes);
            true
        } else {
            false
        }
    }

    /// Stores a compiled procedure and returns the cell that holds its
    /// handle.
    pub fn alloc_code(&mut self, code: Code) -> (v: VCell)
        requires
            old(self).wf(),
            forall|i: int|
                0 <= i < code.ops.len() ==> match #[trigger] code.ops[i] {
                    Op::PushConst(v) => old(self)@.valid(v),
                    Op::MakeClosure(c, _) => c <= old(self)@.codes.len(),
                    _ => true,
                },
        ensures
            final(self).wf(),
            final(self)@ == (HeapView { codes: old(self)@.codes.push(code@), ..old(self)@ }),
            v == VCell::Lambda(old(self)@.codes.len() as usize),
            final(self)@.valid(v),
    {
        let handle = self.codes.len();
        self.codes.push(code);
        assert(self@.codes =~= old(self)@.codes.push(code@));
        assert(self@.vectors =~= old(self)@.vectors);
        assert(self@.strings =~= old(self)@.strings);
        assert(self@.symbols =~= old(self)@.symbols);
        proof {
            self.lemma_bounded();
        }
        assert forall|c: int, i: int|
            0 <= c < self@.codes.len() && 0 <= i < self@.codes[c].ops.len() implies self@.op_valid(
            #[trigger] self@.codes[c].ops[i],
        ) by {
            if c < handle {
                assert(old(self)@.op_valid(old(self)@.codes[c].ops[i]));
            } else {
                assert(self@.codes[c].ops[i] == code.ops[i]);
            }
        }
        VCell::Lambda(handle)
    }

    /// Number of vectors.
    pub fn vectors_len(&self) -> (n: usize)
        ensures
            n == self@.vectors.len(),
    {
        self.vectors.len()
    }

    /// Number of strings.
    pub fn strings_len(&self) -> (n: usize)
        ensures
            n == self@.strings.len(),
    {
        self.strings.len()
    }

    /// Number of instructions of a compiled procedure; zero where there is
    /// no such procedure.
    pub fn code_len(&self, code: usize) -> (n: usize)
        ensures
            n == if code < self@.codes.len() {
                self@.codes[code as int].ops.len()
            } else {
                0
            },
    {
        if code < self.codes.len() {
            self.codes[code].ops.len()
        } else {
            0
        }
    }

    /// Gives up the slots of a vector that nothing refers to any more.
    pub fn clear_vector(&mut self, handle: usize)
        requires
            old(self).wf(),
        ensures
            final(self).wf(),
            final(self)@ == if handle < old(self)@.vectors.len() {
                HeapView {
                    vectors: old(self)@.vectors.update(handle as int, Seq::empty()),
                    ..old(self)@
                }
            } else {
                old(self)@
            },
    {
        if handle < self.vectors.len() {
            self.vectors.set(handle, Vec::new());
            proof {
                self.lemma_bounded();
            }
            assert(self@.vectors =~= old(self)@.vectors.update(handle as int, Seq::empty()));
            assert(self@.strings =~= old(self)@.strings);
            assert(self@.symbols =~= old(self)@.symbols);
            assert(self@.codes =~= old(self)@.codes);
        }
    }

    /// Gives up the characters of a string that nothing refers to any
    /// more.
    pub fn clear_string(&mut self, handle: usize)
        requires
            old(self).wf(),
        ensures
            final(self).wf(),
            final(self)@ == if handle < old(self)@.strings.len() {
                HeapView {
                    strings: old(self)@.strings.update(handle as int, Seq::empty()),
                    ..old(self)@
                }
            } else {
                old(self)@
            },
    {
        if handle < self.strings.len() {
            self.strings.set(handle, Vec::new());
            proof {
                self.lemma_bounded();
            }
            assert(self@.strings =~= old(self)@.strings.update(handle as int, Seq::empty()));
            assert(self@.vectors =~= old(self)@.vectors);
            assert(self@.symbols =~= old(self)@.symbols);
            assert(self@.codes =~= old(self)@.codes);
        }
    }

    /// Number of compiled procedures.
    pub fn codes_len(&self) -> (n: usize)
        ensures
            n == self@.codes.len(),
    {
        self.codes.len()
    }

    /// The instruction at a place of a compiled procedure.
    pub fn op_at(&self, code: usize, ip: usize) -> (r: Option<Op>)
        ensures
            r == self@.op_at(code, ip),
            self.wf() ==> (r matches Some(op) ==> self@.op_valid(op)),
    {
        if code < self.codes.len() && ip < self.codes[code].ops.len() {
            Some(self.codes[code].ops[ip])
        } else {
            None
        }
    }

    /// The number of arguments of a compiled procedure.
    pub fn arity(&self, code: usize) -> (n: usize)
        ensures
            n == self@.arity(code),
    {
        if code < self.codes.len() {
            self.codes[code].arity
        } else {
            0
        }
    }

    /// The handle under which a name is interned, if it is.
    pub fn find_symbol(&self, name: &Vec<char>) -> (r: Option<usize>)
        requires
            self.wf(),
        ensures
            match r {
                Some(h) => h < self@.symbols.len() && self@.symbols[h as int] == name@,
                None => forall|i: int| 0 <= i < self@.symbols.len() ==> self@.symbols[i] != name@,
            },
    {
        let mut i: usize = 0;
        while i < self.symbols.len()
            invariant
                i <= self.symbols.len(),
                forall|j: int| 0 <= j < i ==> self@.symbols[j] != name@,
            decreases self.symbols.len() - i,
        {
            if same_chars(&self.symbols[i], name) {
                return Some(i);
            }
            i += 1;
        }
        None
    }

    /// The symbol of this name: the one interned under it, or a new one.
    pub fn intern(&mut self, name: Vec<char>) -> (v: VCell)
        requires
            old(self).wf(),
        ensures
            final(self).wf(),
            v matches VCell::Symbol(h) && final(self)@.symbol(h) == name@
                && h < final(self)@.symbols.len(),
            v == VCell::Symbol(final(self)@.handle_of(name@)),
            final(self)@ == old(self)@.interned(name@),
    {
        let v = match self.find_symbol(&name) {
            Some(h) => {
                assert(self@.symbols.contains(name@));
                VCell::Symbol(h)
            },
            None => {
                let h = self.symbols.len();
                self.symbols.push(name);
                assert(self@.symbols =~= old(self)@.symbols.push(name@));
                assert(self@.vectors =~= old(self)@.vectors);
                assert(self@.strings =~= old(self)@.strings);
                assert forall|i: int, j: int| 0 <= i < j < self@.symbols.len() implies self@.symbols[i]
                    != self@.symbols[j] by {
                    if j < h {
                        assert(old(self)@.symbols[i] != old(self)@.symbols[j]);
                    } else {
                        assert(old(self)@.symbols[i] != name@);
                    }
                }
                assert(self@.cells == old(self)@.cells);
                proof {
                    self.lemma_bounded();
                }
                VCell::Symbol(h)
            },
        };
        assert(self.wf());
        proof {
            lemma_handle(self@, name@, v->Symbol_0);
        }
        v
    }

    /// A copy of the characters of a string; none where there is no such
    /// string.
    pub fn string_chars(&self, handle: usize) -> (chars: Vec<char>)
        ensures
            chars@ == self@.string(handle),
    {
        if handle < self.strings.len() {
            copy_chars(&self.strings[handle])
        } else {
            Vec::new()
        }
    }

    /// A copy of the name of a symbol; empty where there is no such symbol.
    pub fn symbol_name(&self, handle: usize) -> (chars: Vec<char>)
        ensures
            chars@ == self@.symbol(handle),
    {
        if handle < self.symbols.len() {
            copy_chars(&self.symbols[handle])
        } else {
            Vec::new()
        }
    }
}

/// In a well-formed heap a name is interned under one handle only.
pub proof fn lemma_handle(h: HeapView, name: Seq<char>, s: usize)
    requires
        h.wf(),
        s < h.symbols.len(),
        h.symbols[s as int] == name,
    ensures
        h.handle_of(name) == s,
{
    let t = h.handle_of(name);
    if t < s {
        assert(h.symbols[t as int] != h.symbols[s as int]);
    } else if s < t {
        assert(h.symbols[s as int] != h.symbols[t as int]);
    }
}

/// Whether two character vectors hold the same characters.
pub fn same_chars(a: &Vec<char>, b: &Vec<char>) -> (same: bool)
    ensures
        same == (a@ == b@),
{
    if a.len() != b.len() {
        return false;
    }
    let mut i: usize = 0;
    while i < a.len()
        invariant
            a.len() == b.len(),
            i <= a.len(),
            forall|j: int| 0 <= j < i ==> a@[j] == b@[j],
        decreases a.len() - i,
    {
        if a[i] != b[i] {
            return false;
        }
        i += 1;
    }
    assert(a@ =~= b@);
    true
}

/// A copy of a character vector.
pub fn copy_chars(a: &Vec<char>) -> (b: Vec<char>)
    ensures
        b@ == a@,
{
    let mut b: Vec<char> = Vec::new();
    let mut i: usize = 0;
    while i < a.len()
        invariant
            i <= a.len(),
            b@ == a@.take(i as int),
        decreases a.len() - i,
    {
        b.push(a[i]);
        assert(a@.take(i + 1) =~= a@.take(i as int).push(a@[i as int]));
        i += 1;
    }
    assert(a@.take(a.len() as int) =~= a@);
    b
}

} // verus!
