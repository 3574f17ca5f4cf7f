//! The operand stack.
use crate::error::Error;
use crate::vcell::VCell;
use vstd::prelude::*;

verus! {

/// A stack of cells; the last cell is the top.
pub struct Stack {
    cells: Vec<VCell>,
}

impl View for Stack {
    type V = Seq<VCell>;

    closed spec fn view(&self) -> Seq<VCell> {
        self.cells@
    }
}

impl Stack {
    pub fn new() -> (stack: Stack)
        ensures
            stack@ == Seq::<VCell>::empty(),
    {
        let stack = Stack { cells: Vec::new() };
        assert(stack@ =~= Seq::<VCell>::empty());
        stack
    }

    pub fn len(&self) -> (n: usize)
        ensures
            n == self@.len(),
    {
        self.cells.len()
    }

    pub fn push(&mut self, v: VCell)
        ensures
            final(self)@ == old(self)@.push(v),
    {
        self.cells.push(v);
    }

    /// Takes the top cell off; `StackUnderflow` on an empty stack.
    pub fn pop(&mut self) -> (r: Result<VCell, Error>)
        ensures
            match r {
                Ok(v) => old(self)@.len() > 0 && v == old(self)@.last() && final(self)@ == old(
                    self,
                )@.drop_last(),
                Err(e) => old(self)@.len() == 0 && e == Error::StackUnderflow && final(self)@
                    == old(self)@,
            },
    {
        match self.cells.pop() {
            Some(v) => Ok(v),
            None => Err(Error::StackUnderflow),
        }
    }

    /// The cell `depth` places below the top, without taking it off.
    pub fn peek(&self, depth: usize) -> (r: Option<VCell>)
        ensures
            r == if depth < self@.len() {
                Some(self@[self@.len() - 1 - depth])
            } else {
                None
            },
    {
        if depth < self.cells.len() {
            Some(self.cells[self.cells.len() - 1 - depth])
        } else {
            None
        }
    }

    /// The cell at a place counted from the bottom.
    pub fn get(&self, i: usize) -> (r: Option<VCell>)
        ensures
            r == if i < self@.len() {
                Some(self@[i as int])
            } else {
                None
            },
    {
        if i < self.cells.len() {
            Some(self.cells[i])
        } else {
            None
        }
    }

    /// Replaces the cell at a place counted from the bottom; `false`, with
    /// nothing changed, where there is none.
    pub fn set(&mut self, i: usize, v: VCell) -> (done: bool)
        ensures
            done == (i < old(self)@.len()),
            final(self)@ == if done {
                old(self)@.update(i as int, v)
            } else {
                old(self)@
            },
    {
        if i < self.cells.len() {
            self.cells.set(i, v);
            true
        } else {
            false
        }
    }

    /// Takes the top `n` cells off and returns them bottom first; `None`,
    /// with nothing changed, where the stack holds fewer.
    pub fn pop_many(&mut self, n: usize) -> (r: Option<Vec<VCell>>)
        ensures
            match r {
                Some(v) => n <= old(self)@.len() && v@ == old(self)@.skip(old(self)@.len() - n)
                    && final(self)@ == old(self)@.take(old(self)@.len() - n),
                None => n > old(self)@.len() && final(self)@ == old(self)@,
            },
    {
        let len = self.cells.len();
        if n > len {
            return None;
        }
        let base = len - n;
        let mut out: Vec<VCell> = Vec::new();
        let mut i: usize = base;
        while i < len
            invariant
                base <= i <= len,
                len == self.cells.len(),
                self.cells@ == old(self)@,
                out@ == old(self)@.subrange(base as int, i as int),
            decreases len - i,
        {
            out.push(self.cells[i]);
            assert(old(self)@.subrange(base as int, i + 1) =~= old(self)@.subrange(
                base as int,
                i as int,
            ).push(old(self)@[i as int]));
            i += 1;
        }
        self.cells.truncate(base);
        assert(out@ =~= old(self)@.skip(base as int));
        assert(self.cells@ =~= old(self)@.take(base as int));
        Some(out)
    }

    /// The cells of the stack, bottom first.
    pub fn cells(&self) -> (cells: Vec<VCell>)
        ensures
            cells@ == self@,
    {
        let mut out: Vec<VCell> = Vec::new();
        let mut i: usize = 0;
        while i < self.cells.len()
            invariant
                i <= self.cells.len(),
                out@ == self.cells@.take(i as int),
            decreases self.cells.len() - i,
        {
            out.push(self.cells[i]);
            assert(self.cells@.take(i + 1) =~= self.cells@.take(i as int).push(self.cells@[i as int]));
            i += 1;
        }
        assert(out@ =~= self.cells@);
        out
    }

    /// Puts these cells in the place of all that the stack holds.
    pub fn replace(&mut self, cells: Vec<VCell>)
        ensures
            final(self)@ == cells@,
    {
        self.cells = cells;
    }

    /// Drops all cells above the first `n`.
    pub fn truncate(&mut self, n: usize)
        ensures
            final(self)@ == if n < old(self)@.len() {
                old(self)@.take(n as int)
            } else {
                old(self)@
            },
    {
        self.cells.truncate(n);
        assert(n < old(self)@.len() ==> self.cells@ =~= old(self)@.take(n as int));
    }
}

} // verus!
