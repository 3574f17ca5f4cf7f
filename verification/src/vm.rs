//! The virtual machine: heap, stack and global environment.
use crate::heap::{Heap, HeapView};
use crate::stack::Stack;
use crate::vcell::VCell;
use vstd::prelude::*;

verus! {

/// The global bindings: one slot for each symbol, found by the symbol's
/// handle. A slot that was never filled holds `Undefined`.
pub struct GlobalEnvironment {
    slots: Vec<VCell>,
}

impl View for GlobalEnvironment {
    type V = Seq<VCell>;

    closed spec fn view(&self) -> Seq<VCell> {
        self.slots@
    }
}

/// What a slot holds, `Undefined` where there is none.
pub open spec fn slot_value(slots: Seq<VCell>, slot: usize) -> VCell {
    if slot < slots.len() {
        slots[slot as int]
    } else {
        VCell::Undefined
    }
}

/// The slots grown by `Undefined` ones, as far as needed to hold `slot`.
pub open spec fn with_slot(slots: Seq<VCell>, slot: usize) -> Seq<VCell> {
    if slot < slots.len() {
        slots
    } else {
        slots + Seq::new((slot + 1 - slots.len()) as nat, |i: int| VCell::Undefined)
    }
}

impl GlobalEnvironment {
    pub fn new() -> (env: GlobalEnvironment)
        ensures
            env@ == Seq::<VCell>::empty(),
    {
        let env = GlobalEnvironment { slots: Vec::new() };
        assert(env@ =~= Seq::<VCell>::empty());
        env
    }

    /// The slot of a symbol, made first where the symbol had none.
    pub fn get_binding(&mut self, symbol: usize) -> (slot: usize)
        ensures
            slot == symbol,
            final(self)@ == with_slot(old(self)@, symbol),
    {
        while self.slots.len() <= symbol
            invariant
                self.slots@.len() <= symbol + 1 || self.slots@.len() == old(self)@.len(),
                old(self)@.len() <= self.slots@.len(),
                self.slots@ == old(self)@ + Seq::new(
                    (self.slots@.len() - old(self)@.len()) as nat,
                    |i: int| VCell::Undefined,
                ),
            decreases symbol + 1 - self.slots.len(),
        {
            self.slots.push(VCell::Undefined);
            assert(self.slots@ =~= old(self)@ + Seq::new(
                (self.slots@.len() - old(self)@.len()) as nat,
                |i: int| VCell::Undefined,
            ));
        }
        assert(self.slots@ =~= with_slot(old(self)@, symbol));
        symbol
    }

    /// Number of slots.
    pub fn len(&self) -> (n: usize)
        ensures
            n == self@.len(),
    {
        self.slots.len()
    }

    /// What a slot holds.
    pub fn get_slot(&self, slot: usize) -> (v: VCell)
        ensures
            v == slot_value(self@, slot),
    {
        if slot < self.slots.len() {
            self.slots[slot]
        } else {
            VCell::Undefined
        }
    }

    /// Fills a slot; `false`, with nothing changed, where there is none.
    pub fn put_slot(&mut self, slot: usize, v: VCell) -> (done: bool)
        ensures
            done == (slot < old(self)@.len()),
            final(self)@ == if done {
                old(self)@.update(slot as int, v)
            } else {
                old(self)@
            },
    {
        if slot < self.slots.len() {
            self.slots.set(slot, v);
            true
        } else {
            false
        }
    }
}

/// A virtual machine.
pub struct Vm {
    pub heap: Heap,
    pub stack: Stack,
    pub globenv: GlobalEnvironment,
}

/// What a machine holds.
pub struct Machine {
    pub heap: HeapView,
    pub stack: Seq<VCell>,
    pub globals: Seq<VCell>,
}

/// A machine with nothing in it.
pub open spec fn blank() -> Machine {
    Machine { heap: HeapView::empty(), stack: Seq::empty(), globals: Seq::empty() }
}

impl View for Vm {
    type V = Machine;

    open spec fn view(&self) -> Machine {
        Machine { heap: self.heap@, stack: self.stack@, globals: self.globenv@ }
    }
}

impl Vm {
    /// The heap is well formed, and every address or handle on the stack
    /// or in a global slot is one of the heap.
    pub open spec fn wf(&self) -> bool {
        &&& self.heap.wf()
        &&& forall|i: int| 0 <= i < self.stack@.len() ==> self.heap@.valid(#[trigger] self.stack@[i])
        &&& forall|i: int|
            0 <= i < self.globenv@.len() ==> self.heap@.holds(#[trigger] self.globenv@[i])
    }

    /// A machine with nothing in it.
    pub fn empty() -> (vm: Vm)
        ensures
            vm.wf(),
            vm@ == blank(),
    {
        Vm { heap: Heap::new(), stack: Stack::new(), globenv: GlobalEnvironment::new() }
    }
}

} // verus!
