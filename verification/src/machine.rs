//! Instruction dispatch: the fetch-decode-execute loop.
use crate::builtin::vector::{addresses, put_all, store_all, with_vector};
use crate::builtin::{all_values, are_values, below, call, call_builtin, effect, taken, Call};
use crate::builtin::{max_args, min_args, name, rendered_with};
use crate::code::Op;
use crate::error::{outcome, Error, ErrorView};
use crate::heap::HeapView;
use crate::printer::written;
use crate::text::string_of;
use crate::vcell::{BuiltIn, VCell};
use crate::vm::{slot_value, with_slot, Machine, Vm};
use vstd::prelude::*;

verus! {

/// The registers of the machine: the code that runs, the place of the
/// next instruction in it, and the place on the stack where the arguments
/// of the current frame start.
#[derive(Clone, Copy, Debug, PartialEq, Eq, Structural)]
pub struct Registers {
    pub code: usize,
    pub ip: usize,
    pub bp: usize,
}

/// The code handle in the saved instruction pointer of the outermost
/// frame: to return from that frame ends the run.
pub const NO_CODE: usize = usize::MAX;

/// The state of a run.
pub struct State {
    pub heap: HeapView,
    pub stack: Seq<VCell>,
    pub globals: Seq<VCell>,
    pub regs: Registers,
}

/// The state that a machine and its registers are in.
pub open spec fn state(vm: Vm, regs: Registers) -> State {
    State { heap: vm.heap@, stack: vm.stack@, globals: vm.globenv@, regs }
}

/// What an instruction does: it goes on in a state, ends the run with a
/// value and leaves a state, or fails with an error and leaves a state.
pub enum Effect {
    Next(State),
    Done(State, VCell),
    Fail(State, ErrorView),
}

/// The state with another stack and the next instruction.
pub open spec fn onward(s: State, stack: Seq<VCell>) -> State {
    State { stack, regs: Registers { ip: (s.regs.ip + 1) as usize, ..s.regs }, ..s }
}

/// What `Ret` does in a state: the top value is the result; the frame
/// cells behind the arguments say where to go on; callee, arguments and
/// all above them leave the stack. A return from the outermost frame
/// ends the run.
pub open spec fn returned(s: State) -> Effect {
    let n = s.heap.arity(s.regs.code);
    let bp = s.regs.bp;
    if s.stack.len() == 0 || bp < 1 || bp + n + 1 >= s.stack.len() - 1 {
        Effect::Fail(s, ErrorView::StackUnderflow)
    } else {
        let result = s.stack.last();
        match (s.stack[bp + n], s.stack[bp + n + 1]) {
            (VCell::InstructionPointer(code, ip), VCell::BasePointer(base)) => {
                let rest = s.stack.take(bp - 1);
                if code == NO_CODE {
                    Effect::Done(State { stack: rest, ..s }, result)
                } else {
                    Effect::Next(
                        State {
                            stack: rest.push(result),
                            regs: Registers { code, ip, bp: base },
                            ..s
                        },
                    )
                }
            },
            _ => Effect::Fail(s, ErrorView::StackUnderflow),
        }
    }
}

/// What an instruction other than a call does in a state. One that fails
/// leaves the state as it is; only `MakeClosure`, where a cell that it
/// was to capture is no value, has then taken those cells off the stack.
pub open spec fn performed(s: State, op: Op) -> Effect {
    let stack = s.stack;
    match op {
        Op::PushConst(v) => Effect::Next(onward(s, stack.push(v))),
        Op::PushGlobal(slot) => {
            let v = slot_value(s.globals, slot);
            if v is Undefined {
                Effect::Fail(s, ErrorView::Unbound(s.heap.symbol(slot)))
            } else {
                Effect::Next(onward(s, stack.push(v)))
            }
        },
        Op::PopGlobal(slot) => if stack.len() == 0 || !stack.last().is_value() {
            Effect::Fail(s, ErrorView::StackUnderflow)
        } else {
            Effect::Next(
                State {
                    globals: with_slot(s.globals, slot).update(slot as int, stack.last()),
                    ..onward(s, stack.drop_last())
                },
            )
        },
        Op::PushLocal(i) => if s.regs.bp + i < stack.len() {
            Effect::Next(onward(s, stack.push(stack[s.regs.bp + i])))
        } else {
            Effect::Fail(s, ErrorView::StackUnderflow)
        },
        Op::PopLocal(i) => if stack.len() > 0 && s.regs.bp + i < stack.len() - 1 {
            Effect::Next(
                onward(s, stack.drop_last().update(s.regs.bp + i, stack.last())),
            )
        } else {
            Effect::Fail(s, ErrorView::StackUnderflow)
        },
        Op::PushCapture(i) => if 1 <= s.regs.bp <= stack.len() {
            match s.heap.deref(stack[s.regs.bp - 1]) {
                VCell::Closure(_, captured) => if i < s.heap.vector(captured).len() {
                    Effect::Next(
                        onward(s, stack.push(VCell::Ptr(s.heap.vector(captured)[i as int]))),
                    )
                } else {
                    Effect::Fail(s, ErrorView::HeapCorruption)
                },
                _ => Effect::Fail(s, ErrorView::HeapCorruption),
            }
        } else {
            Effect::Fail(s, ErrorView::StackUnderflow)
        },
        Op::Jmp(target) => Effect::Next(
            State { regs: Registers { ip: target, ..s.regs }, ..s },
        ),
        Op::JmpIfFalse(target) => if stack.len() == 0 {
            Effect::Fail(s, ErrorView::StackUnderflow)
        } else if s.heap.deref(stack.last()) == VCell::Bool(false) {
            Effect::Next(
                State {
                    stack: stack.drop_last(),
                    regs: Registers { ip: target, ..s.regs },
                    ..s
                },
            )
        } else {
            Effect::Next(onward(s, stack.drop_last()))
        },
        Op::Pop => if stack.len() == 0 {
            Effect::Fail(s, ErrorView::StackUnderflow)
        } else {
            Effect::Next(onward(s, stack.drop_last()))
        },
        Op::Halt => if stack.len() == 0 {
            Effect::Done(s, VCell::Void)
        } else {
            Effect::Done(State { stack: stack.drop_last(), ..s }, stack.last())
        },
        Op::Ret => returned(s),
        Op::MakeClosure(code, n) => if n > stack.len() {
            Effect::Fail(s, ErrorView::StackUnderflow)
        } else if !all_values(stack.skip(stack.len() - n)) {
            Effect::Fail(
                State { stack: stack.take(stack.len() - n), ..s },
                ErrorView::StackUnderflow,
            )
        } else {
            let values = stack.skip(stack.len() - n);
            let stored = put_all(s.heap, values);
            let heap = with_vector(stored, addresses(s.heap, values));
            let closure = VCell::Closure(code, stored.vectors.len() as usize);
            Effect::Next(
                State {
                    heap: heap.put(closure),
                    ..onward(s, stack.take(stack.len() - n).push(heap.put_ptr(closure)))
                },
            )
        },
        Op::Call => Effect::Fail(s, ErrorView::HeapCorruption),
        Op::TCall => Effect::Fail(s, ErrorView::HeapCorruption),
    }
}

/// The procedure that a call finds on the stack: it lies below the
/// arguments, and the argument count lies on top of them.
pub open spec fn callee(stack: Seq<VCell>) -> Option<VCell> {
    if stack.len() >= 2 && stack.last() is Argc && stack.last()->Argc_0 <= stack.len() - 2 {
        Some(stack[stack.len() - 2 - stack.last()->Argc_0])
    } else {
        None
    }
}

/// The error for a compiled procedure that is called with a wrong number
/// of arguments.
pub open spec fn wrong_count() -> ErrorView {
    ErrorView::InvalidNumArgs("#<procedure>"@)
}

/// The stack that a native procedure leaves where it fails: where the
/// stack holds no frame for it, only the top cell is gone; else the frame
/// is.
pub open spec fn unframed(f: BuiltIn, stack: Seq<VCell>) -> Seq<VCell> {
    match call(stack, min_args(f), max_args(f), name(f)) {
        Call::Fail(_) => taken(stack),
        Call::Args(_) => below(stack),
    }
}

/// A native procedure, called on the frame on the stack in the heap `h`,
/// leaves the heap `g` and returns `v`.
pub open spec fn invoked(
    f: BuiltIn,
    h: HeapView,
    stack: Seq<VCell>,
    g: HeapView,
    v: Result<VCell, ErrorView>,
) -> bool {
    match call(stack, min_args(f), max_args(f), name(f)) {
        Call::Fail(e) => g == h && v == Err::<VCell, ErrorView>(e),
        Call::Args(args) => effect(f, h, args, g, v),
    }
}

/// The state in which a compiled procedure starts: the argument count is
/// gone, and behind the arguments lie the place to return to and the
/// base of the frame to go back to.
pub open spec fn entered(s: State, code: usize, back: VCell, base: VCell, bp: usize) -> State {
    State {
        stack: s.stack.push(back).push(base),
        regs: Registers { code, ip: 0, bp },
        ..s
    }
}

/// What `Call` (or, for `tail`, `TCall`) does in the state `s`: `e` is
/// what comes of it.
///
/// A native procedure is invoked; its value is stored and takes the place
/// of the procedure and its frame; where it fails, the stack is as the
/// procedure left it. A compiled procedure gets a frame. A
/// tail call of a native procedure goes on as `Ret` does; a tail call of
/// a compiled procedure puts the new frame in the place of the current
/// one, so that the callee returns to the caller's caller.
pub open spec fn called(s: State, tail: bool, e: Effect) -> bool {
    let stack = s.stack;
    match callee(stack) {
        None => e == Effect::Fail(s, ErrorView::StackUnderflow),
        Some(target) => {
            let n = stack.last()->Argc_0;
            match s.heap.deref(target) {
                VCell::BuiltIn(f) => exists|g: HeapView, v: Result<VCell, ErrorView>|
                    #[trigger] invoked(f, s.heap, stack, g, v) && match v {
                        Err(error) => e == Effect::Fail(
                            State { heap: g, stack: unframed(f, stack), ..s },
                            error,
                        ),
                        Ok(value) => {
                            let after = State {
                                heap: g.put(value),
                                stack: stack.take(stack.len() - 2 - n).push(g.put_ptr(value)),
                                ..s
                            };
                            if tail {
                                e == returned(after)
                            } else {
                                e == Effect::Next(onward(after, after.stack))
                            }
                        },
                    },
                VCell::Lambda(code) => e == entering(s, code, tail),
                VCell::Closure(code, _) => e == entering(s, code, tail),
                other => e == Effect::Fail(
                    s,
                    ErrorView::InvalidSyntax(written(s.heap, other) + " is not a procedure"@),
                ),
            }
        },
    }
}

/// What the call of a compiled procedure does.
pub open spec fn entering(s: State, code: usize, tail: bool) -> Effect {
    let stack = s.stack;
    let n = stack.last()->Argc_0;
    if s.heap.arity(code) != n {
        Effect::Fail(s, wrong_count())
    } else if !tail {
        Effect::Next(
            entered(
                State { stack: stack.drop_last(), ..s },
                code,
                VCell::InstructionPointer(s.regs.code, (s.regs.ip + 1) as usize),
                VCell::BasePointer(s.regs.bp),
                (stack.len() - 1 - n) as usize,
            ),
        )
    } else {
        let here = s.heap.arity(s.regs.code);
        let bp = s.regs.bp;
        if bp < 1 || bp + here + 1 >= stack.len() - 2 - n {
            Effect::Fail(s, ErrorView::StackUnderflow)
        } else {
            Effect::Next(
                entered(
                    State {
                        stack: stack.take(bp - 1) + stack.subrange(
                            stack.len() - 2 - n,
                            stack.len() - 1,
                        ),
                        ..s
                    },
                    code,
                    stack[bp + here],
                    stack[bp + here + 1],
                    bp,
                ),
            )
        }
    }
}

/// What the instruction at the place of the registers does in the state
/// `s`. Where there is no instruction the heap is corrupt.
pub open spec fn executed(s: State, e: Effect) -> bool {
    match s.heap.op_at(s.regs.code, s.regs.ip) {
        None => e == Effect::Fail(s, ErrorView::HeapCorruption),
        Some(Op::Call) => called(s, false, e),
        Some(Op::TCall) => called(s, true, e),
        Some(op) => e == performed(s, op),
    }
}

/// The outcome of one instruction as an effect.
pub open spec fn effect_of(vm: Vm, regs: Registers, r: Result<Option<VCell>, Error>) -> Effect {
    match r {
        Ok(None) => Effect::Next(state(vm, regs)),
        Ok(Some(v)) => Effect::Done(state(vm, regs), v),
        Err(e) => Effect::Fail(state(vm, regs), e@),
    }
}

/// Returns from the current frame.
pub fn ret(vm: &mut Vm, regs: &mut Registers) -> (r: Result<Option<VCell>, Error>)
    requires
        old(vm).wf(),
    ensures
        final(vm).wf(),
        final(vm).heap@ == old(vm).heap@,
        final(vm).globenv@ == old(vm).globenv@,
        effect_of(*final(vm), *final(regs), r) == returned(state(*old(vm), *old(regs))),
        r matches Ok(Some(v)) ==> final(vm).heap@.valid(v),
{
    let n = vm.heap.arity(regs.code);
    let bp = regs.bp;
    let len = vm.stack.len();
    if len == 0 || bp < 1 || n >= len || bp >= len - n || bp + n + 1 >= len - 1 {
        return Err(Error::StackUnderflow);
    }
    let back = vm.stack.get(bp + n);
    let base = vm.stack.get(bp + n + 1);
    match back {
        Some(VCell::InstructionPointer(code, ip)) => match base {
            Some(VCell::BasePointer(b)) => {
                let result = vm.stack.pop()?;
                assert(old(vm).heap@.valid(result)) by {
                    assert(old(vm).heap@.valid(old(vm).stack@[len - 1]));
                }
                vm.stack.truncate(bp - 1);
                assert(vm.stack@ =~= old(vm).stack@.take(bp - 1));
                assert forall|k: int| 0 <= k < bp - 1 implies vm.heap@.valid(
                    #[trigger] old(vm).stack@[k],
                ) by {}
                if code == NO_CODE {
                    Ok(Some(result))
                } else {
                    vm.stack.push(result);
                    regs.code = code;
                    regs.ip = ip;
                    regs.bp = b;
                    assert(vm.stack@ =~= old(vm).stack@.take(bp - 1).push(result));
                    Ok(None)
                }
            },
            _ => Err(Error::StackUnderflow),
        },
        _ => Err(Error::StackUnderflow),
    }
}

/// Calls the procedure on the stack.
pub fn call_procedure(vm: &mut Vm, regs: &mut Registers, tail: bool) -> (r: Result<
    Option<VCell>,
    Error,
>)
    requires
        old(vm).wf(),
        old(regs).ip < usize::MAX,
    ensures
        final(vm).wf(),
        called(state(*old(vm), *old(regs)), tail, effect_of(*final(vm), *final(regs), r)),
        final(vm).globenv@ == old(vm).globenv@,
        r matches Ok(Some(v)) ==> final(vm).heap@.valid(v),
        old(vm).heap@.no_larger_than(final(vm).heap@),
{
    let len = vm.stack.len();
    let n = match vm.stack.peek(0) {
        Some(VCell::Argc(n)) => n,
        _ => {
            return Err(Error::StackUnderflow);
        },
    };
    if len < 2 || n > len - 2 {
        return Err(Error::StackUnderflow);
    }
    let target = match vm.stack.get(len - 2 - n) {
        Some(v) => v,
        None => {
            return Err(Error::StackUnderflow);
        },
    };
    let ghost s = state(*old(vm), *old(regs));
    match vm.heap.get(target) {
        VCell::BuiltIn(f) => {
            let ghost before = vm.heap@;
            let result = call_builtin(vm, f);
            proof {
                assert(invoked(f, before, s.stack, vm.heap@, outcome(result)));
            }
            let value = result?;
            // The frame is gone; the procedure itself is still there.
            let p = vm.heap.put(value);
            let ghost mid = vm.stack@;
            if vm.stack.len() > len - 2 - n {
                vm.stack.truncate(len - 2 - n);
            }
            vm.stack.push(p);
            assert(vm.stack@ =~= s.stack.take(len - 2 - n).push(p));
            assert forall|i: int| 0 <= i < vm.stack@.len() implies vm.heap@.valid(
                #[trigger] vm.stack@[i],
            ) by {
                if i < len - 2 - n {
                    assert(old(vm).heap@.valid(old(vm).stack@[i]));
                }
            }
            if tail {
                ret(vm, regs)
            } else {
                regs.ip = regs.ip + 1;
                Ok(None)
            }
        },
        VCell::Lambda(code) => enter(vm, regs, code, tail),
        VCell::Closure(code, _) => enter(vm, regs, code, tail),
        other => Err(Error::InvalidSyntax(rendered_with(&vm.heap, other, " is not a procedure"))),
    }
}

/// Sets up the frame of a compiled procedure.
fn enter(vm: &mut Vm, regs: &mut Registers, code: usize, tail: bool) -> (r: Result<
    Option<VCell>,
    Error,
>)
    requires
        old(vm).wf(),
        old(regs).ip < usize::MAX,
        callee(old(vm).stack@) is Some,
    ensures
        final(vm).wf(),
        final(vm).heap@ == old(vm).heap@,
        final(vm).globenv@ == old(vm).globenv@,
        effect_of(*final(vm), *final(regs), r) == entering(
            state(*old(vm), *old(regs)),
            code,
            tail,
        ),
{
    let len = vm.stack.len();
    let n = match vm.stack.peek(0) {
        Some(VCell::Argc(n)) => n,
        _ => 0,
    };
    if vm.heap.arity(code) != n {
        return Err(Error::InvalidNumArgs("#<procedure>".to_owned()));
    }
    if !tail {
        let _ = vm.stack.pop();
        vm.stack.push(VCell::InstructionPointer(regs.code, regs.ip + 1));
        vm.stack.push(VCell::BasePointer(regs.bp));
        regs.code = code;
        regs.ip = 0;
        regs.bp = len - 1 - n;
        assert(vm.stack@ =~= old(vm).stack@.drop_last().push(
            VCell::InstructionPointer(old(regs).code, (old(regs).ip + 1) as usize),
        ).push(VCell::BasePointer(old(regs).bp)));
        assert forall|i: int| 0 <= i < vm.stack@.len() implies vm.heap@.valid(
            #[trigger] vm.stack@[i],
        ) by {
            if i < len - 1 {
                assert(old(vm).heap@.valid(old(vm).stack@[i]));
            }
        }
        Ok(None)
    } else {
        let here = vm.heap.arity(regs.code);
        let bp = regs.bp;
        if bp < 1 || here >= len || bp >= len - here || bp + here + 1 >= len - 2 - n {
            return Err(Error::StackUnderflow);
        }
        let back = vm.stack.get(bp + here).unwrap();
        let base = vm.stack.get(bp + here + 1).unwrap();
        let _ = vm.stack.pop();
        let frame = vm.stack.pop_many(n + 1).unwrap();
        vm.stack.truncate(bp - 1);
        let mut i: usize = 0;
        let ghost start = vm.stack@;
        while i < frame.len()
            invariant
                i <= frame.len(),
                vm.stack@ == start + frame@.take(i as int),
                vm.heap@ == old(vm).heap@,
                vm.globenv@ == old(vm).globenv@,
            decreases frame.len() - i,
        {
            vm.stack.push(frame[i]);
            assert(start + frame@.take(i + 1) =~= (start + frame@.take(i as int)).push(
                frame@[i as int],
            ));
            i = i + 1;
        }
        assert(frame@.take(frame.len() as int) =~= frame@);
        vm.stack.push(back);
        vm.stack.push(base);
        regs.code = code;
        regs.ip = 0;
        let ghost old_stack = old(vm).stack@;
        assert(frame@ =~= old_stack.subrange(len - 2 - n, len - 1));
        assert(start =~= old_stack.take(bp - 1));
        assert(vm.stack@ =~= (start + frame@).push(back).push(base));
        assert(frame@.len() == n + 1);
        assert forall|k: int| 0 <= k < vm.stack@.len() implies vm.heap@.valid(
            #[trigger] vm.stack@[k],
        ) by {
            if k < bp - 1 {
                assert(old(vm).heap@.valid(old_stack[k]));
            } else if k < bp - 1 + frame.len() {
                assert(vm.stack@[k] == old_stack[len - 2 - n + (k - (bp - 1))]);
                assert(old(vm).heap@.valid(old_stack[len - 2 - n + (k - (bp - 1))]));
            } else if k == bp - 1 + frame.len() {
                assert(old(vm).heap@.valid(old_stack[bp + here]));
            } else {
                assert(old(vm).heap@.valid(old_stack[bp + here + 1]));
            }
        }
        Ok(None)
    }
}

/// Carries out the instruction at the place of the registers.
pub fn step(vm: &mut Vm, regs: &mut Registers) -> (r: Result<Option<VCell>, Error>)
    requires
        old(vm).wf(),
    ensures
        final(vm).wf(),
        executed(state(*old(vm), *old(regs)), effect_of(*final(vm), *final(regs), r)),
        r matches Ok(Some(v)) ==> final(vm).heap@.valid(v),
        old(vm).heap@.no_larger_than(final(vm).heap@),
{
    let op = match vm.heap.op_at(regs.code, regs.ip) {
        Some(op) => op,
        None => {
            return Err(Error::HeapCorruption);
        },
    };
    proof {
        vm.heap.lemma_bounded();
    }
    let ghost s = state(*old(vm), *old(regs));
    match op {
        Op::PushConst(v) => {
            vm.stack.push(v);
            regs.ip = regs.ip + 1;
            assert forall|i: int| 0 <= i < vm.stack@.len() implies vm.heap@.valid(
                #[trigger] vm.stack@[i],
            ) by {
                if i < s.stack.len() {
                    assert(old(vm).heap@.valid(old(vm).stack@[i]));
                }
            }
            Ok(None)
        },
        Op::PushGlobal(slot) => {
            let v = vm.globenv.get_slot(slot);
            match v {
                VCell::Undefined => Err(Error::Unbound(string_of(&vm.heap.symbol_name(slot)))),
                _ => {
                    assert(vm.heap@.holds(v)) by {
                        assert(vm.heap@.holds(vm.globenv@[slot as int]));
                    }
                    vm.stack.push(v);
                    regs.ip = regs.ip + 1;
                    assert forall|i: int| 0 <= i < vm.stack@.len() implies vm.heap@.valid(
                        #[trigger] vm.stack@[i],
                    ) by {
                        if i < s.stack.len() {
                            assert(old(vm).heap@.valid(old(vm).stack@[i]));
                        }
                    }
                    Ok(None)
                },
            }
        },
        Op::PopGlobal(slot) => {
            match vm.stack.peek(0) {
                Some(v) => {
                    if !v.value() {
                        return Err(Error::StackUnderflow);
                    }
                    assert(vm.heap@.valid(v)) by {
                        assert(vm.heap@.valid(vm.stack@[vm.stack@.len() - 1]));
                    }
                    let _ = vm.stack.pop();
                    let place = vm.globenv.get_binding(slot);
                    vm.globenv.put_slot(place, v);
                    regs.ip = regs.ip + 1;
                    assert forall|i: int| 0 <= i < vm.globenv@.len() implies vm.heap@.holds(
                        #[trigger] vm.globenv@[i],
                    ) by {
                        if i != slot && i < old(vm).globenv@.len() {
                            assert(old(vm).heap@.holds(old(vm).globenv@[i]));
                        }
                    }
                    assert forall|i: int| 0 <= i < vm.stack@.len() implies vm.heap@.valid(
                        #[trigger] vm.stack@[i],
                    ) by {
                        assert(old(vm).heap@.valid(old(vm).stack@[i]));
                    }
                    Ok(None)
                },
                None => Err(Error::StackUnderflow),
            }
        },
        Op::PushLocal(i) => {
            let len = vm.stack.len();
            if i >= len || regs.bp >= len - i {
                return Err(Error::StackUnderflow);
            }
            let v = vm.stack.get(regs.bp + i).unwrap();
            assert(vm.heap@.valid(v)) by {
                assert(vm.heap@.valid(vm.stack@[regs.bp + i]));
            }
            vm.stack.push(v);
            regs.ip = regs.ip + 1;
            assert forall|k: int| 0 <= k < vm.stack@.len() implies vm.heap@.valid(
                #[trigger] vm.stack@[k],
            ) by {
                if k < s.stack.len() {
                    assert(old(vm).heap@.valid(old(vm).stack@[k]));
                }
            }
            Ok(None)
        },
        Op::PopLocal(i) => {
            let len = vm.stack.len();
            if len == 0 || i >= len - 1 || regs.bp >= len - 1 - i {
                return Err(Error::StackUnderflow);
            }
            let v = vm.stack.pop()?;
            assert(vm.heap@.valid(v)) by {
                assert(old(vm).heap@.valid(old(vm).stack@[len - 1]));
            }
            vm.stack.set(regs.bp + i, v);
            regs.ip = regs.ip + 1;
            assert forall|k: int| 0 <= k < vm.stack@.len() implies vm.heap@.valid(
                #[trigger] vm.stack@[k],
            ) by {
                if k != regs.bp + i {
                    assert(old(vm).heap@.valid(old(vm).stack@[k]));
                }
            }
            Ok(None)
        },
        Op::PushCapture(i) => {
            if regs.bp < 1 || regs.bp > vm.stack.len() {
                return Err(Error::StackUnderflow);
            }
            let target = vm.stack.get(regs.bp - 1).unwrap();
            match vm.heap.get(target) {
                VCell::Closure(_, captured) => match vm.heap.vector_get(captured, i) {
                    Some(a) => {
                        assert(vm.heap@.valid(target)) by {
                            assert(vm.heap@.valid(vm.stack@[regs.bp - 1]));
                        }
                        assert(a < vm.heap@.cells.len()) by {
                            assert(vm.heap@.holds(vm.heap@.deref(target)));
                            assert(vm.heap@.vectors[captured as int][i as int]
                                < vm.heap@.cells.len());
                        }
                        vm.stack.push(VCell::Ptr(a));
                        regs.ip = regs.ip + 1;
                        assert forall|k: int| 0 <= k < vm.stack@.len() implies vm.heap@.valid(
                            #[trigger] vm.stack@[k],
                        ) by {
                            if k < s.stack.len() {
                                assert(old(vm).heap@.valid(old(vm).stack@[k]));
                            }
                        }
                        Ok(None)
                    },
                    None => Err(Error::HeapCorruption),
                },
                _ => Err(Error::HeapCorruption),
            }
        },
        Op::Jmp(target) => {
            regs.ip = target;
            Ok(None)
        },
        Op::JmpIfFalse(target) => {
            let v = vm.stack.pop()?;
            if vm.heap.get(v) == VCell::Bool(false) {
                regs.ip = target;
            } else {
                regs.ip = regs.ip + 1;
            }
            assert forall|k: int| 0 <= k < vm.stack@.len() implies vm.heap@.valid(
                #[trigger] vm.stack@[k],
            ) by {
                assert(old(vm).heap@.valid(old(vm).stack@[k]));
            }
            Ok(None)
        },
        Op::Pop => {
            let _ = vm.stack.pop()?;
            regs.ip = regs.ip + 1;
            assert forall|k: int| 0 <= k < vm.stack@.len() implies vm.heap@.valid(
                #[trigger] vm.stack@[k],
            ) by {
                assert(old(vm).heap@.valid(old(vm).stack@[k]));
            }
            Ok(None)
        },
        Op::Halt => {
            match vm.stack.pop() {
                Ok(v) => {
                    assert forall|k: int| 0 <= k < vm.stack@.len() implies vm.heap@.valid(
                        #[trigger] vm.stack@[k],
                    ) by {
                        assert(old(vm).heap@.valid(old(vm).stack@[k]));
                    }
                    assert(old(vm).heap@.valid(old(vm).stack@[old(vm).stack@.len() - 1]));
                    Ok(Some(v))
                },
                Err(_) => Ok(Some(VCell::Void)),
            }
        },
        Op::Ret => ret(vm, regs),
        Op::MakeClosure(code, n) => {
            let ghost old_stack = vm.stack@;
            let values = match vm.stack.pop_many(n) {
                Some(values) => values,
                None => {
                    return Err(Error::StackUnderflow);
                },
            };
            if !are_values(&values) {
                return Err(Error::StackUnderflow);
            }
            assert forall|k: int| 0 <= k < vm.stack@.len() implies vm.heap@.valid(
                #[trigger] vm.stack@[k],
            ) by {
                assert(old(vm).heap@.valid(old_stack[k]));
            }
            assert forall|k: int| 0 <= k < values@.len() implies vm.heap@.holds(
                #[trigger] values@[k],
            ) by {
                assert(values@[k] == old_stack[old_stack.len() - n + k]);
                assert(old(vm).heap@.valid(old_stack[old_stack.len() - n + k]));
            }
            let ghost h0 = vm.heap@;
            let addrs = store_all(&mut vm.heap, &values);
            let cell = match vm.heap.alloc_vector(addrs) {
                VCell::Vector(handle) => VCell::Closure(code, handle),
                _ => VCell::Undefined,
            };
            let p = vm.heap.put(cell);
            vm.stack.push(p);
            regs.ip = regs.ip + 1;
            assert forall|k: int| 0 <= k < vm.stack@.len() implies vm.heap@.valid(
                #[trigger] vm.stack@[k],
            ) by {
                if k < vm.stack@.len() - 1 {
                    assert(h0.valid(old_stack[k]));
                }
            }
            assert forall|k: int| 0 <= k < vm.globenv@.len() implies vm.heap@.holds(
                #[trigger] vm.globenv@[k],
            ) by {
                assert(h0.holds(vm.globenv@[k]));
            }
            Ok(None)
        },
        Op::Call => call_procedure(vm, regs, false),
        Op::TCall => call_procedure(vm, regs, true),
    }
}

/// `n` instructions lead from the state `a` to the state `b`.
pub open spec fn reaches(a: State, b: State, n: nat) -> bool
    decreases n,
{
    if n == 0 {
        a == b
    } else {
        exists|mid: State|
            #[trigger] executed(a, Effect::Next(mid)) && reaches(mid, b, (n - 1) as nat)
    }
}

/// One more instruction leads one state further.
pub proof fn lemma_reaches_more(a: State, b: State, c: State, n: nat)
    requires
        reaches(a, b, n),
        executed(b, Effect::Next(c)),
    ensures
        reaches(a, c, n + 1),
    decreases n,
{
    if n == 0 {
        assert(reaches(c, c, 0));
        assert(executed(a, Effect::Next(c)) && reaches(c, c, 0));
    } else {
        let mid = choose|mid: State|
            #[trigger] executed(a, Effect::Next(mid)) && reaches(mid, b, (n - 1) as nat);
        lemma_reaches_more(mid, b, c, (n - 1) as nat);
        assert(executed(a, Effect::Next(mid)) && reaches(mid, c, n as nat));
    }
}

/// The state in which a run of the code `entry` starts in a machine: on
/// top of the stack lies the outermost frame, a procedure of no
/// arguments.
pub open spec fn started_in(m: Machine, entry: usize) -> State {
    State {
        heap: m.heap,
        stack: m.stack.push(VCell::Lambda(entry)).push(
            VCell::InstructionPointer(NO_CODE, 0),
        ).push(VCell::BasePointer(0)),
        globals: m.globals,
        regs: Registers { code: entry, ip: 0, bp: (m.stack.len() + 1) as usize },
    }
}

/// The state in which a run of the code `entry` starts.
pub open spec fn started(vm: Vm, entry: usize) -> State {
    started_in(vm@, entry)
}

/// What a run from the state `start` with a budget of instructions comes
/// to, and the heap and the globals that it leaves. It ends with a value
/// where an instruction within the budget ends it; it fails with the
/// error of the first instruction that fails; and it fails with
/// `StepLimit` where the budget is used up before.
pub open spec fn ran(
    start: State,
    budget: nat,
    heap: HeapView,
    globals: Seq<VCell>,
    r: Result<VCell, ErrorView>,
) -> bool {
    exists|n: nat, last: State| #[trigger]
        reaches(start, last, n) && n <= budget && match r {
            Ok(v) => n < budget && exists|end: State| #[trigger]
                executed(last, Effect::Done(end, v)) && end.heap == heap && end.globals
                    == globals,
            Err(e) => if n == budget {
                e == ErrorView::StepLimit && last.heap == heap && last.globals == globals
            } else {
                exists|end: State| #[trigger]
                    executed(last, Effect::Fail(end, e)) && end.heap == heap && end.globals
                        == globals
            },
        }
}

/// Runs the code with the handle `entry` for at most `budget`
/// instructions. However the run ends, the stack is then as it was at the
/// start: what the run has left on it is taken off, and the cells that
/// were there are put back.
pub fn run(vm: &mut Vm, entry: usize, budget: usize) -> (r: Result<VCell, Error>)
    requires
        old(vm).wf(),
    ensures
        final(vm).wf(),
        final(vm).stack@ == old(vm).stack@,
        ran(
            started(*old(vm), entry),
            budget as nat,
            final(vm).heap@,
            final(vm).globenv@,
            outcome(r),
        ),
        r matches Ok(v) ==> final(vm).heap@.valid(v),
        old(vm).heap@.no_larger_than(final(vm).heap@),
{
    let below = vm.stack.cells();
    let ghost depth = vm.stack@.len();
    if entry >= vm.heap.codes_len() {
        proof {
            let start = started(*old(vm), entry);
            assert(reaches(start, start, 0));
            if budget > 0 {
                assert(executed(start, Effect::Fail(start, ErrorView::HeapCorruption)));
            }
        }
        return if budget == 0 {
            Err(Error::StepLimit)
        } else {
            Err(Error::HeapCorruption)
        };
    }
    vm.stack.push(VCell::Lambda(entry));
    vm.stack.push(VCell::InstructionPointer(NO_CODE, 0));
    vm.stack.push(VCell::BasePointer(0));
    let mut regs = Registers { code: entry, ip: 0, bp: vm.stack.len() - 2 };
    let ghost start = started(*old(vm), entry);
    assert(state(*vm, regs) == start);
    assert forall|i: int| 0 <= i < vm.stack@.len() implies vm.heap@.valid(
        #[trigger] vm.stack@[i],
    ) by {
        if i < depth {
            assert(old(vm).heap@.valid(old(vm).stack@[i]));
        }
    }
    assert(reaches(start, start, 0));
    let mut used: usize = 0;
    loop
        invariant
            vm.wf(),
            used <= budget,
            below@ == old(vm).stack@,
            forall|i: int| 0 <= i < below@.len() ==> old(vm).heap@.valid(#[trigger] below@[i]),
            old(vm).heap@.no_larger_than(vm.heap@),
            start == started(*old(vm), entry),
            reaches(start, state(*vm, regs), used as nat),
        decreases budget - used,
    {
        if used == budget {
            let ghost last = state(*vm, regs);
            restore(vm, below, Ghost(old(vm).heap@));
            assert(reaches(start, last, used as nat) && last.heap == vm.heap@ && last.globals
                == vm.globenv@);
            return Err(Error::StepLimit);
        }
        let ghost before = state(*vm, regs);
        let result = step(vm, &mut regs);
        match result {
            Ok(None) => {
                proof {
                    lemma_reaches_more(start, before, state(*vm, regs), used as nat);
                }
                used = used + 1;
            },
            Ok(Some(v)) => {
                let ghost end = state(*vm, regs);
                restore(vm, below, Ghost(old(vm).heap@));
                assert(reaches(start, before, used as nat) && executed(
                    before,
                    Effect::Done(end, v),
                ) && end.heap == vm.heap@ && end.globals == vm.globenv@);
                return Ok(v);
            },
            Err(e) => {
                let ghost end = state(*vm, regs);
                restore(vm, below, Ghost(old(vm).heap@));
                assert(reaches(start, before, used as nat) && executed(
                    before,
                    Effect::Fail(end, e@),
                ) && end.heap == vm.heap@ && end.globals == vm.globenv@);
                return Err(e);
            },
        }
    }
}

/// Puts the stack back as it was: `cells`, which a heap that was not
/// larger than this one held, take the place of all that the stack holds.
fn restore(vm: &mut Vm, cells: Vec<VCell>, Ghost(h): Ghost<HeapView>)
    requires
        old(vm).wf(),
        h.no_larger_than(old(vm).heap@),
        forall|i: int| 0 <= i < cells@.len() ==> h.valid(#[trigger] cells@[i]),
    ensures
        final(vm).wf(),
        final(vm).heap@ == old(vm).heap@,
        final(vm).globenv@ == old(vm).globenv@,
        final(vm).stack@ == cells@,
{
    vm.stack.replace(cells);
    assert forall|i: int| 0 <= i < vm.stack@.len() implies vm.heap@.valid(
        #[trigger] vm.stack@[i],
    ) by {
        assert(h.valid(cells@[i]));
    }
}

} // verus!
