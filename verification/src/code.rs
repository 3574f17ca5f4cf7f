//! Compiled code: the instructions of the virtual machine.
use crate::vcell::VCell;
use vstd::prelude::*;

verus! {

/// An instruction.
#[derive(Clone, Copy, Debug, PartialEq, Eq, Structural)]
pub enum Op {
    /// Pushes a value.
    PushConst(VCell),
    /// Pushes what the global slot holds; an empty slot is an unbound
    /// symbol.
    PushGlobal(usize),
    /// Takes the top value off and puts it into the global slot.
    PopGlobal(usize),
    /// Pushes the argument of the current frame with this number.
    PushLocal(usize),
    /// Takes the top value off and makes it the argument of the current
    /// frame with this number.
    PopLocal(usize),
    /// Pushes the captured value of the current closure with this number.
    PushCapture(usize),
    /// Goes on at the given place of the current code.
    Jmp(usize),
    /// Takes the top value off and, if it is false, goes on at the given
    /// place.
    JmpIfFalse(usize),
    /// Calls the procedure that lies on the stack below its arguments and
    /// the argument count.
    Call,
    /// Calls like `Call` and returns what the call returns: the frame of
    /// the caller is replaced.
    TCall,
    /// Returns the top value to the caller.
    Ret,
    /// Makes a closure of the code with the given handle: it captures as
    /// many values from the top of the stack as the second part says.
    MakeClosure(usize, usize),
    /// Takes the top value off.
    Pop,
    /// Ends the run with the top value.
    Halt,
}

/// A compiled procedure.
pub struct Code {
    pub ops: Vec<Op>,
    pub arity: usize,
}

/// A compiled procedure: its instructions and the number of its arguments.
pub struct CodeView {
    pub ops: Seq<Op>,
    pub arity: usize,
}

impl View for Code {
    type V = CodeView;

    open spec fn view(&self) -> CodeView {
        CodeView { ops: self.ops@, arity: self.arity }
    }
}

} // verus!
