//! Compiling: from data to the instructions of the machine.
use crate::code::{Code, CodeView, Op};
use crate::error::{Error, ErrorView};
use crate::heap::{Heap, HeapView};
use crate::list::{elements, is_list, lemma_elements, lemma_links_valid, list_elements};
use crate::reader::syntax_error;
use crate::text::to_chars;
use crate::vcell::VCell;
use vstd::prelude::*;

verus! {

/// How deep expressions may be nested.
pub const NESTING: usize = 256;

/// The variables of one procedure that is being compiled: its parameters
/// and the variables of enclosing procedures that it captures, each by
/// the handle of its symbol.
pub struct Scope {
    pub params: Vec<usize>,
    pub captured: Vec<usize>,
}

/// The variables of one procedure that is being compiled.
pub struct ScopeView {
    pub params: Seq<usize>,
    pub captured: Seq<usize>,
}

impl View for Scope {
    type V = ScopeView;

    open spec fn view(&self) -> ScopeView {
        ScopeView { params: self.params@, captured: self.captured@ }
    }
}

/// The scopes of the procedures that are being compiled, outermost first.
pub open spec fn scopes_of(scopes: Seq<Scope>) -> Seq<ScopeView> {
    Seq::new(scopes.len(), |i: int| scopes[i]@)
}

/// The handles of the symbols that name the special forms.
#[derive(Clone, Copy, Debug)]
pub struct Forms {
    pub quote: usize,
    pub branch: usize,
    pub define: usize,
    pub assign: usize,
    pub lambda: usize,
    pub bind: usize,
    pub sequence: usize,
}

/// Where a variable lives.
#[derive(Clone, Copy, Debug)]
pub enum Access {
    /// The parameter of the current procedure with this number.
    Local(usize),
    /// The captured value of the current closure with this number.
    Capture(usize),
    /// A global slot.
    Global,
}

/// A compilation as far as it has come: the heap with the procedures
/// compiled so far, the scopes of the procedures that are being compiled,
/// and the instructions of the innermost of them.
pub struct Unit {
    pub heap: HeapView,
    pub scopes: Seq<ScopeView>,
    pub ops: Seq<Op>,
}

/// The compilation that a heap, scopes and instructions are.
pub open spec fn unit(heap: HeapView, scopes: Seq<Scope>, ops: Seq<Op>) -> Unit {
    Unit { heap, scopes: scopes_of(scopes), ops }
}

/// The compilation with one more instruction.
pub open spec fn emitted(u: Unit, op: Op) -> Unit {
    Unit { ops: u.ops.push(op), ..u }
}

/// A step of a compilation came to what was wanted of it: the error, or
/// the heap, the scopes and the instructions of the compilation.
pub open spec fn done(
    r: Result<(), Error>,
    heap: HeapView,
    scopes: Seq<Scope>,
    ops: Seq<Op>,
    want: Result<Unit, ErrorView>,
) -> bool {
    match want {
        Ok(u) => r is Ok && heap == u.heap && scopes_of(scopes) == u.scopes && ops == u.ops,
        Err(e) => r matches Err(x) && x@ == e,
    }
}

/// The error of a form that is not as it has to be.
pub open spec fn wrong(message: Seq<char>) -> ErrorView {
    ErrorView::InvalidSyntax(message)
}

/// The first place of a handle among handles, if it is there.
pub open spec fn place(handles: Seq<usize>, symbol: usize) -> Option<usize>
    decreases handles.len(),
{
    if handles.len() == 0 {
        None
    } else {
        match place(handles.drop_last(), symbol) {
            Some(i) => Some(i),
            None => if handles.last() == symbol {
                Some((handles.len() - 1) as usize)
            } else {
                None
            },
        }
    }
}

/// Where a handle is found among the first handles it is found among all.
pub proof fn lemma_place_found(handles: Seq<usize>, k: int, symbol: usize)
    requires
        0 <= k <= handles.len(),
        place(handles.take(k), symbol) is Some,
    ensures
        place(handles, symbol) == place(handles.take(k), symbol),
    decreases handles.len() - k,
{
    if k == handles.len() {
        assert(handles.take(k) =~= handles);
    } else {
        assert(handles.take(k + 1).drop_last() =~= handles.take(k));
        lemma_place_found(handles, k + 1, symbol);
    }
}

/// Where a variable lives for the procedure at `level`, and the scopes
/// after it was looked for: a parameter of the procedure is local; a
/// variable that the procedure captures already is found among those; a
/// variable that lives in an enclosing procedure is added to what this
/// procedure captures, and to what the procedures in between capture;
/// all else is global.
pub open spec fn resolved(scopes: Seq<ScopeView>, level: int, symbol: usize) -> (
    Access,
    Seq<ScopeView>,
)
    decreases level,
{
    if level < 0 || level >= scopes.len() {
        (Access::Global, scopes)
    } else {
        match place(scopes[level].params, symbol) {
            Some(i) => (Access::Local(i), scopes),
            None => match place(scopes[level].captured, symbol) {
                Some(i) => (Access::Capture(i), scopes),
                None => if level == 0 {
                    (Access::Global, scopes)
                } else {
                    let (outer, around) = resolved(scopes, level - 1, symbol);
                    match outer {
                        Access::Global => (Access::Global, around),
                        _ => (
                            Access::Capture(around[level].captured.len() as usize),
                            around.update(
                                level,
                                ScopeView {
                                    captured: around[level].captured.push(symbol),
                                    ..around[level]
                                },
                            ),
                        ),
                    }
                },
            },
        }
    }
}

/// The instruction that pushes a variable.
pub open spec fn variable(access: Access, symbol: usize) -> Op {
    match access {
        Access::Local(i) => Op::PushLocal(i),
        Access::Capture(i) => Op::PushCapture(i),
        Access::Global => Op::PushGlobal(symbol),
    }
}

/// The compilation after a variable was pushed.
pub open spec fn referred(u: Unit, symbol: usize) -> Unit {
    let (access, scopes) = resolved(u.scopes, u.scopes.len() - 1, symbol);
    Unit { scopes, ops: u.ops.push(variable(access, symbol)), ..u }
}

/// The addresses of the elements of the form at an address, which has to
/// be a proper list.
pub open spec fn form_of(h: HeapView, a: usize) -> Result<Seq<usize>, ErrorView> {
    if is_list(h, h.at(a)) {
        Ok(elements(h, h.at(a)))
    } else {
        Err(wrong("expected a list"@))
    }
}

/// The handles of the symbols that the cells at the addresses from `from`
/// on hold, behind those in `found`; an error where a cell holds
/// something else.
pub open spec fn symbols_from(h: HeapView, addrs: Seq<usize>, from: int, found: Seq<usize>) -> Result<
    Seq<usize>,
    ErrorView,
>
    decreases addrs.len() - from,
{
    if from < 0 || from >= addrs.len() {
        Ok(found)
    } else {
        match h.at(addrs[from]) {
            VCell::Symbol(s) => symbols_from(h, addrs, from + 1, found.push(s)),
            _ => Err(wrong("expected a symbol"@)),
        }
    }
}

/// The handles of the symbols that the cells at the addresses hold.
pub open spec fn symbols_of(h: HeapView, addrs: Seq<usize>) -> Result<Seq<usize>, ErrorView> {
    symbols_from(h, addrs, 0, Seq::empty())
}

/// The names and the values of the bindings of a `let` from `from` on,
/// behind those found already: each binding is a list of a symbol and an
/// expression.
pub open spec fn bound_from(
    h: HeapView,
    bindings: Seq<usize>,
    from: int,
    names: Seq<usize>,
    values: Seq<usize>,
) -> Result<(Seq<usize>, Seq<usize>), ErrorView>
    decreases bindings.len() - from,
{
    if from < 0 || from >= bindings.len() {
        Ok((names, values))
    } else {
        match form_of(h, bindings[from]) {
            Err(e) => Err(e),
            Ok(binding) => if binding.len() != 2 {
                Err(wrong("a binding is a name and a value"@))
            } else {
                match h.at(binding[0]) {
                    VCell::Symbol(name) => bound_from(
                        h,
                        bindings,
                        from + 1,
                        names.push(name),
                        values.push(binding[1]),
                    ),
                    _ => Err(wrong("a binding is a name and a value"@)),
                }
            },
        }
    }
}

/// The scopes and the instructions after the captured variables from
/// `from` on were pushed, each as the procedure at `level` finds it.
pub open spec fn capturing(
    scopes: Seq<ScopeView>,
    ops: Seq<Op>,
    level: int,
    captured: Seq<usize>,
    from: int,
) -> (Seq<ScopeView>, Seq<Op>)
    decreases captured.len() - from,
{
    if from < 0 || from >= captured.len() {
        (scopes, ops)
    } else {
        let (access, around) = resolved(scopes, level, captured[from]);
        capturing(around, ops.push(variable(access, captured[from])), level, captured, from + 1)
    }
}

/// The instruction that calls: a tail call in tail position.
pub open spec fn calling(tail: bool) -> Op {
    if tail {
        Op::TCall
    } else {
        Op::Call
    }
}

/// The heap with one more compiled procedure.
pub open spec fn with_code(h: HeapView, ops: Seq<Op>, arity: usize) -> HeapView {
    HeapView { codes: h.codes.push(CodeView { ops, arity }), ..h }
}

/// What the compilation of an expression comes to: the instructions that
/// push its value are appended. A symbol is a variable. A pair is a
/// special form where its first part is the symbol of one, else a call of
/// what its first part evaluates to with what the other parts evaluate
/// to, left to right, and the argument count on top. All else is a
/// constant. In tail position a call is a tail call.
pub open spec fn compiled(forms: Forms, u: Unit, expr: VCell, tail: bool, fuel: nat) -> Result<
    Unit,
    ErrorView,
>
    decreases fuel, 1nat, 0nat,
{
    if fuel == 0 {
        Err(wrong("the expression is nested too deeply"@))
    } else {
        match u.heap.deref(expr) {
            VCell::Symbol(symbol) => Ok(referred(u, symbol)),
            VCell::Pair(car, cdr) => match form_of(u.heap, cdr) {
                Err(e) => Err(e),
                Ok(args) => match u.heap.at(car) {
                    VCell::Symbol(s) => if s == forms.quote {
                        if args.len() != 1 {
                            Err(wrong("quote takes one datum"@))
                        } else {
                            Ok(emitted(u, Op::PushConst(VCell::Ptr(args[0]))))
                        }
                    } else if s == forms.branch {
                        compiled_if(forms, u, args, tail, fuel)
                    } else if s == forms.define {
                        compiled_define(forms, u, args, fuel)
                    } else if s == forms.assign {
                        compiled_assign(forms, u, args, fuel)
                    } else if s == forms.lambda {
                        if args.len() < 2 {
                            Err(wrong("lambda takes parameters and a body"@))
                        } else {
                            match form_of(u.heap, args[0]) {
                                Err(e) => Err(e),
                                Ok(names) => match symbols_of(u.heap, names) {
                                    Err(e) => Err(e),
                                    Ok(params) => compiled_lambda(forms, u, params, args, 1, fuel),
                                },
                            }
                        }
                    } else if s == forms.bind {
                        compiled_let(forms, u, args, tail, fuel)
                    } else if s == forms.sequence {
                        compiled_sequence(forms, u, args, 0, tail, (fuel - 1) as nat)
                    } else {
                        compiled_call(forms, u, car, args, tail, fuel)
                    },
                    _ => compiled_call(forms, u, car, args, tail, fuel),
                },
            },
            _ => Ok(emitted(u, Op::PushConst(expr))),
        }
    }
}

/// A call: the procedure, the arguments, the argument count, the call.
pub open spec fn compiled_call(
    forms: Forms,
    u: Unit,
    car: usize,
    args: Seq<usize>,
    tail: bool,
    fuel: nat,
) -> Result<Unit, ErrorView>
    decreases fuel, 0nat, 1nat,
{
    if fuel == 0 {
        Err(ErrorView::HeapCorruption)
    } else {
        match compiled(forms, u, VCell::Ptr(car), false, (fuel - 1) as nat) {
            Err(e) => Err(e),
            Ok(with_procedure) => match compiled_arguments(
                forms,
                with_procedure,
                args,
                0,
                (fuel - 1) as nat,
            ) {
                Err(e) => Err(e),
                Ok(with_arguments) => Ok(
                    emitted(
                        emitted(with_arguments, Op::PushConst(VCell::Argc(args.len() as usize))),
                        calling(tail),
                    ),
                ),
            },
        }
    }
}

/// The expressions at the addresses from `from` on, one after the other:
/// the value of each but the last is taken off again, and the last is in
/// tail position where the sequence is. Void where there are none.
pub open spec fn compiled_sequence(
    forms: Forms,
    u: Unit,
    exprs: Seq<usize>,
    from: int,
    tail: bool,
    fuel: nat,
) -> Result<Unit, ErrorView>
    decreases fuel, 2nat, exprs.len() - from,
{
    if from < 0 || from >= exprs.len() {
        Ok(emitted(u, Op::PushConst(VCell::Void)))
    } else {
        let last = from + 1 == exprs.len();
        match compiled(forms, u, VCell::Ptr(exprs[from]), tail && last, fuel) {
            Err(e) => Err(e),
            Ok(next) => if last {
                Ok(next)
            } else {
                compiled_sequence(forms, emitted(next, Op::Pop), exprs, from + 1, tail, fuel)
            },
        }
    }
}

/// The expressions at the addresses from `from` on, so that their values
/// lie on the stack one above the other.
pub open spec fn compiled_arguments(
    forms: Forms,
    u: Unit,
    exprs: Seq<usize>,
    from: int,
    fuel: nat,
) -> Result<Unit, ErrorView>
    decreases fuel, 2nat, exprs.len() - from,
{
    if from < 0 || from >= exprs.len() {
        Ok(u)
    } else {
        match compiled(forms, u, VCell::Ptr(exprs[from]), false, fuel) {
            Err(e) => Err(e),
            Ok(next) => compiled_arguments(forms, next, exprs, from + 1, fuel),
        }
    }
}

/// A procedure: its body is compiled in a scope of its own, as a sequence
/// in tail position that ends in a return, and stored as a new compiled
/// procedure. What pushes the procedure is appended to the instructions
/// around it: the procedure as a constant where it captures nothing, else
/// the captured variables and the making of a closure.
pub open spec fn compiled_lambda(
    forms: Forms,
    u: Unit,
    params: Seq<usize>,
    body: Seq<usize>,
    from: int,
    fuel: nat,
) -> Result<Unit, ErrorView>
    decreases fuel, 0nat, 0nat,
{
    if fuel == 0 {
        Err(ErrorView::HeapCorruption)
    } else {
        let level = u.scopes.len();
        let start = Unit {
            heap: u.heap,
            scopes: u.scopes.push(ScopeView { params, captured: Seq::empty() }),
            ops: Seq::empty(),
        };
        match compiled_sequence(forms, start, body, from, true, (fuel - 1) as nat) {
            Err(e) => Err(e),
            Ok(inner) => if inner.scopes.len() == 0 {
                Err(ErrorView::HeapCorruption)
            } else {
                let scope = inner.scopes.last();
                let scopes = inner.scopes.drop_last();
                let code = inner.heap.codes.len() as usize;
                let heap = with_code(inner.heap, inner.ops.push(Op::Ret), params.len() as usize);
                if scope.captured.len() == 0 {
                    Ok(Unit { heap, scopes, ops: u.ops.push(Op::PushConst(VCell::Lambda(code))) })
                } else if level == 0 {
                    Err(ErrorView::HeapCorruption)
                } else {
                    let (around, pushed) = capturing(scopes, u.ops, level - 1, scope.captured, 0);
                    Ok(
                        Unit {
                            heap,
                            scopes: around,
                            ops: pushed.push(
                                Op::MakeClosure(code, scope.captured.len() as usize),
                            ),
                        },
                    )
                }
            },
        }
    }
}

/// `(if test then else)`: the test; a jump, if it is false, to the
/// `else` branch; the `then` branch and a jump behind the `else` branch;
/// the `else` branch, which is void where it is left out.
pub open spec fn compiled_if(forms: Forms, u: Unit, args: Seq<usize>, tail: bool, fuel: nat) -> Result<
    Unit,
    ErrorView,
>
    decreases fuel, 0nat, 1nat,
{
    if fuel == 0 {
        Err(ErrorView::HeapCorruption)
    } else if args.len() < 2 || args.len() > 3 {
        Err(wrong("if takes a test and one or two branches"@))
    } else {
        match compiled(forms, u, VCell::Ptr(args[0]), false, (fuel - 1) as nat) {
            Err(e) => Err(e),
            Ok(tested) => {
                let jump_else = tested.ops.len();
                match compiled(
                    forms,
                    emitted(tested, Op::JmpIfFalse(0)),
                    VCell::Ptr(args[1]),
                    tail,
                    (fuel - 1) as nat,
                ) {
                    Err(e) => Err(e),
                    Ok(then) => {
                        let jump_end = then.ops.len();
                        let otherwise = jump_end + 1;
                        match (if args.len() == 3 {
                            compiled(
                                forms,
                                emitted(then, Op::Jmp(0)),
                                VCell::Ptr(args[2]),
                                tail,
                                (fuel - 1) as nat,
                            )
                        } else {
                            Ok(emitted(emitted(then, Op::Jmp(0)), Op::PushConst(VCell::Void)))
                        }) {
                            Err(e) => Err(e),
                            Ok(both) => Ok(
                                Unit {
                                    ops: if jump_else < both.ops.len() && jump_end
                                        < both.ops.len() {
                                        both.ops.update(
                                            jump_else as int,
                                            Op::JmpIfFalse(otherwise as usize),
                                        ).update(
                                            jump_end as int,
                                            Op::Jmp(both.ops.len() as usize),
                                        )
                                    } else {
                                        both.ops
                                    },
                                    ..both
                                },
                            ),
                        }
                    },
                }
            },
        }
    }
}

/// The compilation with the instructions that put the top value into the
/// global slot of a name and push void.
pub open spec fn defined(u: Unit, name: usize) -> Unit {
    emitted(emitted(u, Op::PopGlobal(name)), Op::PushConst(VCell::Void))
}

/// `(define name value)` and `(define (name parameter ...) body ...)`:
/// the value, void where it is left out, or the procedure; then the
/// global slot of the name gets it, and the form itself is void.
pub open spec fn compiled_define(forms: Forms, u: Unit, args: Seq<usize>, fuel: nat) -> Result<
    Unit,
    ErrorView,
>
    decreases fuel, 0nat, 1nat,
{
    if fuel == 0 {
        Err(ErrorView::HeapCorruption)
    } else if args.len() < 1 {
        Err(wrong("define takes a name"@))
    } else {
        match u.heap.at(args[0]) {
            VCell::Symbol(name) => if args.len() > 2 {
                Err(wrong("define takes a name and a value"@))
            } else if args.len() == 2 {
                match compiled(forms, u, VCell::Ptr(args[1]), false, (fuel - 1) as nat) {
                    Err(e) => Err(e),
                    Ok(valued) => Ok(defined(valued, name)),
                }
            } else {
                Ok(defined(emitted(u, Op::PushConst(VCell::Void)), name))
            },
            VCell::Pair(first, rest) => match u.heap.at(first) {
                VCell::Symbol(name) => match form_of(u.heap, rest) {
                    Err(e) => Err(e),
                    Ok(names) => match symbols_of(u.heap, names) {
                        Err(e) => Err(e),
                        Ok(params) => match compiled_lambda(forms, u, params, args, 1, fuel) {
                            Err(e) => Err(e),
                            Ok(made) => Ok(defined(made, name)),
                        },
                    },
                },
                _ => Err(wrong("define takes a name"@)),
            },
            _ => Err(wrong("define takes a name"@)),
        }
    }
}

/// `(set! name value)`: a parameter gets the value; a global variable,
/// which has to be bound already, is read first, so that an unbound one
/// fails, and then gets the value; a captured variable cannot be set. The
/// form itself is void.
pub open spec fn compiled_assign(forms: Forms, u: Unit, args: Seq<usize>, fuel: nat) -> Result<
    Unit,
    ErrorView,
>
    decreases fuel, 0nat, 1nat,
{
    if fuel == 0 {
        Err(ErrorView::HeapCorruption)
    } else if args.len() != 2 {
        Err(wrong("set! takes a name and a value"@))
    } else {
        match u.heap.at(args[0]) {
            VCell::Symbol(name) => {
                let (access, scopes) = resolved(u.scopes, u.scopes.len() - 1, name);
                let looked = Unit { scopes, ..u };
                match access {
                    Access::Local(i) => match compiled(
                        forms,
                        looked,
                        VCell::Ptr(args[1]),
                        false,
                        (fuel - 1) as nat,
                    ) {
                        Err(e) => Err(e),
                        Ok(valued) => Ok(
                            emitted(emitted(valued, Op::PopLocal(i)), Op::PushConst(VCell::Void)),
                        ),
                    },
                    Access::Capture(_) => Err(wrong("set! of a captured variable"@)),
                    Access::Global => match compiled(
                        forms,
                        emitted(emitted(looked, Op::PushGlobal(name)), Op::Pop),
                        VCell::Ptr(args[1]),
                        false,
                        (fuel - 1) as nat,
                    ) {
                        Err(e) => Err(e),
                        Ok(valued) => Ok(defined(valued, name)),
                    },
                }
            },
            _ => Err(wrong("set! takes a name"@)),
        }
    }
}

/// `(let ((name value) ...) body ...)`: the body as a procedure of the
/// names, called with the values.
pub open spec fn compiled_let(forms: Forms, u: Unit, args: Seq<usize>, tail: bool, fuel: nat) -> Result<
    Unit,
    ErrorView,
>
    decreases fuel, 0nat, 1nat,
{
    if fuel == 0 {
        Err(ErrorView::HeapCorruption)
    } else if args.len() < 2 {
        Err(wrong("let takes bindings and a body"@))
    } else {
        match form_of(u.heap, args[0]) {
            Err(e) => Err(e),
            Ok(bindings) => match bound_from(u.heap, bindings, 0, Seq::empty(), Seq::empty()) {
                Err(e) => Err(e),
                Ok((names, values)) => match compiled_lambda(forms, u, names, args, 1, fuel) {
                    Err(e) => Err(e),
                    Ok(made) => match compiled_arguments(
                        forms,
                        made,
                        values,
                        0,
                        (fuel - 1) as nat,
                    ) {
                        Err(e) => Err(e),
                        Ok(with_values) => Ok(
                            emitted(
                                emitted(
                                    with_values,
                                    Op::PushConst(VCell::Argc(values.len() as usize)),
                                ),
                                calling(tail),
                            ),
                        ),
                    },
                },
            },
        }
    }
}

/// The heap with the names of the special forms interned.
pub open spec fn with_forms(h: HeapView) -> HeapView {
    h.interned("quote"@).interned("if"@).interned("define"@).interned("set!"@).interned(
        "lambda"@,
    ).interned("let"@).interned("begin"@)
}

/// The handles of the symbols that name the special forms in a heap.
pub open spec fn forms_in(h: HeapView) -> Forms {
    Forms {
        quote: h.handle_of("quote"@),
        branch: h.handle_of("if"@),
        define: h.handle_of("define"@),
        assign: h.handle_of("set!"@),
        lambda: h.handle_of("lambda"@),
        bind: h.handle_of("let"@),
        sequence: h.handle_of("begin"@),
    }
}

/// What the compilation of a datum as a program comes to: the heap with
/// the program, a procedure of no arguments that returns the value of the
/// datum, stored behind the procedures within it, and the handle of its
/// code.
pub open spec fn program(h: HeapView, datum: VCell) -> Result<(HeapView, usize), ErrorView> {
    let start = Unit {
        heap: with_forms(h),
        scopes: seq![ScopeView { params: Seq::empty(), captured: Seq::empty() }],
        ops: Seq::empty(),
    };
    match compiled(forms_in(with_forms(h)), start, datum, false, NESTING as nat) {
        Err(e) => Err(e),
        Ok(u) => Ok((with_code(u.heap, u.ops.push(Op::Ret), 0), u.heap.codes.len() as usize)),
    }
}

/// The heap `g` holds the data of the heap `h`, unchanged, and its
/// compiled procedures, and maybe more of these.
pub open spec fn same_data(h: HeapView, g: HeapView) -> bool {
    &&& g == HeapView { codes: g.codes, ..h }
    &&& h.codes.is_prefix_of(g.codes)
}

/// What every instruction refers to is of the heap.
pub open spec fn ops_valid(h: HeapView, ops: Seq<Op>) -> bool {
    forall|i: int| 0 <= i < ops.len() ==> h.op_valid(#[trigger] ops[i])
}

/// Instructions that are valid stay so when procedures are added.
pub proof fn lemma_ops_stay_valid(h: HeapView, g: HeapView, ops: Seq<Op>)
    requires
        same_data(h, g),
        ops_valid(h, ops),
    ensures
        ops_valid(g, ops),
{
    assert forall|i: int| 0 <= i < ops.len() implies g.op_valid(#[trigger] ops[i]) by {
        assert(h.op_valid(ops[i]));
    }
}

/// A list of handles or addresses came to what was wanted of it.
pub open spec fn gave(r: Result<Vec<usize>, Error>, want: Result<Seq<usize>, ErrorView>) -> bool {
    match want {
        Ok(s) => r matches Ok(v) && v@ == s,
        Err(e) => r matches Err(x) && x@ == e,
    }
}

/// The first place of a handle among handles, if it is there.
pub fn position(handles: &Vec<usize>, symbol: usize) -> (r: Option<usize>)
    ensures
        r == place(handles@, symbol),
        r matches Some(i) ==> i < handles.len() && handles[i as int] == symbol,
{
    let mut i: usize = 0;
    assert(handles@.take(0) =~= Seq::<usize>::empty());
    while i < handles.len()
        invariant
            i <= handles.len(),
            place(handles@.take(i as int), symbol) is None,
        decreases handles.len() - i,
    {
        assert(handles@.take(i + 1).drop_last() =~= handles@.take(i as int));
        if handles[i] == symbol {
            proof {
                lemma_place_found(handles@, i + 1, symbol);
            }
            return Some(i);
        }
        i = i + 1;
    }
    assert(handles@.take(handles.len() as int) =~= handles@);
    None
}

/// Finds where the variable lives for the procedure at `level`. A
/// variable of an enclosing procedure is added to what the procedures in
/// between capture.
fn resolve(scopes: &mut Vec<Scope>, level: usize, symbol: usize) -> (r: Access)
    requires
        level < old(scopes).len(),
    ensures
        final(scopes).len() == old(scopes).len(),
        resolved(scopes_of(old(scopes)@), level as int, symbol) == (
            r,
            scopes_of(final(scopes)@),
        ),
    decreases level,
{
    match position(&scopes[level].params, symbol) {
        Some(i) => {
            return Access::Local(i);
        },
        None => {},
    }
    match position(&scopes[level].captured, symbol) {
        Some(i) => {
            return Access::Capture(i);
        },
        None => {},
    }
    if level == 0 {
        return Access::Global;
    }
    match resolve(scopes, level - 1, symbol) {
        Access::Global => Access::Global,
        _ => {
            let ghost around = scopes@;
            let j = scopes[level].captured.len();
            scopes[level].captured.push(symbol);
            assert(scopes_of(scopes@) =~= scopes_of(around).update(
                level as int,
                ScopeView {
                    captured: scopes_of(around)[level as int].captured.push(symbol),
                    ..scopes_of(around)[level as int]
                },
            ));
            Access::Capture(j)
        },
    }
}

/// Appends the instruction that pushes a variable.
fn push_variable(ops: &mut Vec<Op>, access: Access, symbol: usize, Ghost(h): Ghost<HeapView>)
    requires
        ops_valid(h, old(ops)@),
    ensures
        ops_valid(h, final(ops)@),
        final(ops)@ == old(ops)@.push(variable(access, symbol)),
{
    match access {
        Access::Local(i) => ops.push(Op::PushLocal(i)),
        Access::Capture(i) => ops.push(Op::PushCapture(i)),
        Access::Global => ops.push(Op::PushGlobal(symbol)),
    }
    assert forall|i: int| 0 <= i < ops@.len() implies h.op_valid(#[trigger] ops@[i]) by {
        if i < old(ops)@.len() {
            assert(h.op_valid(old(ops)@[i]));
        }
    }
}

/// Appends an instruction.
fn emit(ops: &mut Vec<Op>, op: Op, Ghost(h): Ghost<HeapView>)
    requires
        ops_valid(h, old(ops)@),
        h.op_valid(op),
    ensures
        ops_valid(h, final(ops)@),
        final(ops)@ == old(ops)@.push(op),
{
    ops.push(op);
    assert forall|i: int| 0 <= i < ops@.len() implies h.op_valid(#[trigger] ops@[i]) by {
        if i < old(ops)@.len() {
            assert(h.op_valid(old(ops)@[i]));
        }
    }
}

/// The symbols that the cells at the addresses hold; an error where one
/// holds something else.
fn symbols_at(heap: &Heap, addrs: &Vec<usize>) -> (r: Result<Vec<usize>, Error>)
    ensures
        gave(r, symbols_of(heap@, addrs@)),
{
    let mut out: Vec<usize> = Vec::new();
    let mut i: usize = 0;
    while i < addrs.len()
        invariant
            i <= addrs.len(),
            symbols_from(heap@, addrs@, i as int, out@) == symbols_of(heap@, addrs@),
        decreases addrs.len() - i,
    {
        match heap.get_at_index(addrs[i]) {
            VCell::Symbol(s) => out.push(s),
            _ => {
                return Err(syntax_error("expected a symbol"));
            },
        }
        i = i + 1;
    }
    Ok(out)
}

/// The elements of the form at an address, which has to be a proper
/// list.
fn form_elements(heap: &Heap, a: usize) -> (r: Result<Vec<usize>, Error>)
    requires
        heap.wf(),
    ensures
        gave(r, form_of(heap@, a)),
        r matches Ok(v) ==> forall|i: int| 0 <= i < v.len() ==> (#[trigger] v[i]) < heap@.cells.len(),
{
    let c = heap.get_at_index(a);
    match list_elements(heap, c) {
        Some(v) => {
            proof {
                lemma_elements(heap@, c, v@);
                lemma_links_valid(heap@, c, v@, VCell::Nil);
            }
            Ok(v)
        },
        None => Err(syntax_error("expected a list")),
    }
}

/// The names and the values of the bindings of a `let`.
fn bindings_of(heap: &Heap, bindings: &Vec<usize>) -> (r: Result<(Vec<usize>, Vec<usize>), Error>)
    requires
        heap.wf(),
    ensures
        match bound_from(heap@, bindings@, 0, Seq::empty(), Seq::empty()) {
            Ok((names, values)) => r matches Ok(found) && found.0@ == names && found.1@
                == values,
            Err(e) => r matches Err(x) && x@ == e,
        },
        r matches Ok(found) ==> forall|i: int|
            0 <= i < found.1.len() ==> (#[trigger] found.1[i]) < heap@.cells.len(),
{
    let mut names: Vec<usize> = Vec::new();
    let mut values: Vec<usize> = Vec::new();
    let mut i: usize = 0;
    while i < bindings.len()
        invariant
            heap.wf(),
            i <= bindings.len(),
            bound_from(heap@, bindings@, i as int, names@, values@) == bound_from(
                heap@,
                bindings@,
                0,
                Seq::empty(),
                Seq::empty(),
            ),
            forall|k: int| 0 <= k < values.len() ==> (#[trigger] values[k]) < heap@.cells.len(),
        decreases bindings.len() - i,
    {
        let binding = form_elements(heap, bindings[i])?;
        if binding.len() != 2 {
            return Err(syntax_error("a binding is a name and a value"));
        }
        match heap.get_at_index(binding[0]) {
            VCell::Symbol(name) => names.push(name),
            _ => {
                return Err(syntax_error("a binding is a name and a value"));
            },
        }
        values.push(binding[1]);
        i = i + 1;
    }
    Ok((names, values))
}

/// Compiles the expressions at the addresses from `from` on, one after
/// the other: the value of the last is the value of all.
fn compile_sequence(
    heap: &mut Heap,
    scopes: &mut Vec<Scope>,
    forms: &Forms,
    exprs: &Vec<usize>,
    from: usize,
    ops: &mut Vec<Op>,
    tail: bool,
    fuel: usize,
) -> (r: Result<(), Error>)
    requires
        old(heap).wf(),
        old(scopes).len() > 0,
        from <= exprs.len(),
        forall|i: int| 0 <= i < exprs.len() ==> (#[trigger] exprs[i]) < old(heap)@.cells.len(),
        ops_valid(old(heap)@, old(ops)@),
    ensures
        final(heap).wf(),
        same_data(old(heap)@, final(heap)@),
        done(
            r,
            final(heap)@,
            final(scopes)@,
            final(ops)@,
            compiled_sequence(
                *forms,
                unit(old(heap)@, old(scopes)@, old(ops)@),
                exprs@,
                from as int,
                tail,
                fuel as nat,
            ),
        ),
        r is Ok ==> final(scopes).len() == old(scopes).len() && ops_valid(
            final(heap)@,
            final(ops)@,
        ),
    decreases fuel, 2nat, exprs.len() - from,
{
    if from >= exprs.len() {
        emit(ops, Op::PushConst(VCell::Void), Ghost(heap@));
        return Ok(());
    }
    let last = from + 1 == exprs.len();
    compile(heap, scopes, forms, VCell::Ptr(exprs[from]), ops, tail && last, fuel)?;
    if last {
        return Ok(());
    }
    emit(ops, Op::Pop, Ghost(heap@));
    compile_sequence(heap, scopes, forms, exprs, from + 1, ops, tail, fuel)
}

/// Compiles a procedure with the given parameters, whose body are the
/// expressions at the addresses from `from` on, and appends to `ops` the
/// instructions that push the procedure: a closure where it captures
/// variables.
fn compile_lambda(
    heap: &mut Heap,
    scopes: &mut Vec<Scope>,
    forms: &Forms,
    params: Vec<usize>,
    body: &Vec<usize>,
    from: usize,
    ops: &mut Vec<Op>,
    fuel: usize,
) -> (r: Result<(), Error>)
    requires
        old(heap).wf(),
        old(scopes).len() > 0,
        from <= body.len(),
        forall|i: int| 0 <= i < body.len() ==> (#[trigger] body[i]) < old(heap)@.cells.len(),
        ops_valid(old(heap)@, old(ops)@),
        fuel > 0,
    ensures
        final(heap).wf(),
        same_data(old(heap)@, final(heap)@),
        done(
            r,
            final(heap)@,
            final(scopes)@,
            final(ops)@,
            compiled_lambda(
                *forms,
                unit(old(heap)@, old(scopes)@, old(ops)@),
                params@,
                body@,
                from as int,
                fuel as nat,
            ),
        ),
        r is Ok ==> final(scopes).len() == old(scopes).len() && ops_valid(
            final(heap)@,
            final(ops)@,
        ),
    decreases fuel, 0nat, 0nat,
{
    let arity = params.len();
    let level = scopes.len();
    let ghost names = params@;
    scopes.push(Scope { params, captured: Vec::new() });
    assert(scopes_of(scopes@) =~= scopes_of(old(scopes)@).push(
        ScopeView { params: names, captured: Seq::empty() },
    ));
    let mut inner: Vec<Op> = Vec::new();
    compile_sequence(heap, scopes, forms, body, from, &mut inner, true, fuel - 1)?;
    let ghost compiled_body = unit(heap@, scopes@, inner@);
    emit(&mut inner, Op::Ret, Ghost(heap@));
    let ghost before_pop = scopes@;
    let scope = match scopes.pop() {
        Some(scope) => scope,
        None => {
            return Err(Error::HeapCorruption);
        },
    };
    assert(scopes_of(scopes@) =~= scopes_of(before_pop).drop_last());
    assert(scope@ == scopes_of(before_pop).last());
    let made = heap.alloc_code(Code { ops: inner, arity });
    let code = match made {
        VCell::Lambda(code) => code,
        _ => 0,
    };
    proof {
        lemma_ops_stay_valid(old(heap)@, heap@, old(ops)@);
    }
    if scope.captured.len() == 0 {
        emit(ops, Op::PushConst(made), Ghost(heap@));
        return Ok(());
    }
    if level == 0 {
        return Err(Error::HeapCorruption);
    }
    let ghost around = scopes_of(scopes@);
    let mut i: usize = 0;
    while i < scope.captured.len()
        invariant
            i <= scope.captured.len(),
            0 < level == scopes.len(),
            ops_valid(heap@, ops@),
            capturing(scopes_of(scopes@), ops@, level - 1, scope.captured@, i as int) == capturing(
                around,
                old(ops)@,
                level - 1,
                scope.captured@,
                0,
            ),
        decreases scope.captured.len() - i,
    {
        let symbol = scope.captured[i];
        let access = resolve(scopes, level - 1, symbol);
        push_variable(ops, access, symbol, Ghost(heap@));
        i = i + 1;
    }
    emit(ops, Op::MakeClosure(code, scope.captured.len()), Ghost(heap@));
    Ok(())
}

/// Compiles an expression: appends to `ops` the instructions that push
/// its value. In tail position a call is a tail call.
fn compile(
    heap: &mut Heap,
    scopes: &mut Vec<Scope>,
    forms: &Forms,
    expr: VCell,
    ops: &mut Vec<Op>,
    tail: bool,
    fuel: usize,
) -> (r: Result<(), Error>)
    requires
        old(heap).wf(),
        old(scopes).len() > 0,
        old(heap)@.valid(expr),
        ops_valid(old(heap)@, old(ops)@),
    ensures
        final(heap).wf(),
        same_data(old(heap)@, final(heap)@),
        done(
            r,
            final(heap)@,
            final(scopes)@,
            final(ops)@,
            compiled(*forms, unit(old(heap)@, old(scopes)@, old(ops)@), expr, tail, fuel as nat),
        ),
        r is Ok ==> final(scopes).len() == old(scopes).len() && ops_valid(
            final(heap)@,
            final(ops)@,
        ),
    decreases fuel, 1nat, 0nat,
{
    if fuel == 0 {
        return Err(syntax_error("the expression is nested too deeply"));
    }
    let level = scopes.len() - 1;
    match heap.get(expr) {
        VCell::Symbol(symbol) => {
            let access = resolve(scopes, level, symbol);
            push_variable(ops, access, symbol, Ghost(heap@));
            Ok(())
        },
        VCell::Pair(car, cdr) => {
            let head = heap.get_at_index(car);
            let args = form_elements(heap, cdr)?;
            match head {
                VCell::Symbol(s) => {
                    if s == forms.quote {
                        if args.len() != 1 {
                            return Err(syntax_error("quote takes one datum"));
                        }
                        emit(ops, Op::PushConst(VCell::Ptr(args[0])), Ghost(heap@));
                        return Ok(());
                    } else if s == forms.branch {
                        return compile_if(heap, scopes, forms, &args, ops, tail, fuel);
                    } else if s == forms.define {
                        return compile_define(heap, scopes, forms, &args, ops, fuel);
                    } else if s == forms.assign {
                        return compile_assign(heap, scopes, forms, &args, ops, fuel);
                    } else if s == forms.lambda {
                        if args.len() < 2 {
                            return Err(syntax_error("lambda takes parameters and a body"));
                        }
                        let names = form_elements(heap, args[0])?;
                        let params = symbols_at(heap, &names)?;
                        return compile_lambda(heap, scopes, forms, params, &args, 1, ops, fuel);
                    } else if s == forms.bind {
                        return compile_let(heap, scopes, forms, &args, ops, tail, fuel);
                    } else if s == forms.sequence {
                        return compile_sequence(
                            heap,
                            scopes,
                            forms,
                            &args,
                            0,
                            ops,
                            tail,
                            fuel - 1,
                        );
                    }
                },
                _ => {},
            }
            compile(heap, scopes, forms, VCell::Ptr(car), ops, false, fuel - 1)?;
            compile_arguments(heap, scopes, forms, &args, 0, ops, fuel - 1)?;
            emit(ops, Op::PushConst(VCell::Argc(args.len())), Ghost(heap@));
            emit(
                ops,
                if tail {
                    Op::TCall
                } else {
                    Op::Call
                },
                Ghost(heap@),
            );
            Ok(())
        },
        _ => {
            emit(ops, Op::PushConst(expr), Ghost(heap@));
            Ok(())
        },
    }
}

/// Compiles the expressions at the addresses from `from` on so that
/// their values lie on the stack one above the other.
fn compile_arguments(
    heap: &mut Heap,
    scopes: &mut Vec<Scope>,
    forms: &Forms,
    exprs: &Vec<usize>,
    from: usize,
    ops: &mut Vec<Op>,
    fuel: usize,
) -> (r: Result<(), Error>)
    requires
        old(heap).wf(),
        old(scopes).len() > 0,
        from <= exprs.len(),
        forall|i: int| 0 <= i < exprs.len() ==> (#[trigger] exprs[i]) < old(heap)@.cells.len(),
        ops_valid(old(heap)@, old(ops)@),
    ensures
        final(heap).wf(),
        same_data(old(heap)@, final(heap)@),
        done(
            r,
            final(heap)@,
            final(scopes)@,
            final(ops)@,
            compiled_arguments(
                *forms,
                unit(old(heap)@, old(scopes)@, old(ops)@),
                exprs@,
                from as int,
                fuel as nat,
            ),
        ),
        r is Ok ==> final(scopes).len() == old(scopes).len() && ops_valid(
            final(heap)@,
            final(ops)@,
        ),
    decreases fuel, 2nat, exprs.len() - from,
{
    if from >= exprs.len() {
        return Ok(());
    }
    compile(heap, scopes, forms, VCell::Ptr(exprs[from]), ops, false, fuel)?;
    compile_arguments(heap, scopes, forms, exprs, from + 1, ops, fuel)
}

/// `(if test then else)`: the value of `then` where the test is not
/// false, else that of `else`, which is void where it is left out.
fn compile_if(
    heap: &mut Heap,
    scopes: &mut Vec<Scope>,
    forms: &Forms,
    args: &Vec<usize>,
    ops: &mut Vec<Op>,
    tail: bool,
    fuel: usize,
) -> (r: Result<(), Error>)
    requires
        old(heap).wf(),
        old(scopes).len() > 0,
        forall|i: int| 0 <= i < args.len() ==> (#[trigger] args[i]) < old(heap)@.cells.len(),
        ops_valid(old(heap)@, old(ops)@),
        fuel > 0,
    ensures
        final(heap).wf(),
        same_data(old(heap)@, final(heap)@),
        done(
            r,
            final(heap)@,
            final(scopes)@,
            final(ops)@,
            compiled_if(
                *forms,
                unit(old(heap)@, old(scopes)@, old(ops)@),
                args@,
                tail,
                fuel as nat,
            ),
        ),
        r is Ok ==> final(scopes).len() == old(scopes).len() && ops_valid(
            final(heap)@,
            final(ops)@,
        ),
    decreases fuel, 0nat, 1nat,
{
    if args.len() < 2 || args.len() > 3 {
        return Err(syntax_error("if takes a test and one or two branches"));
    }
    compile(heap, scopes, forms, VCell::Ptr(args[0]), ops, false, fuel - 1)?;
    let jump_else = ops.len();
    emit(ops, Op::JmpIfFalse(0), Ghost(heap@));
    compile(heap, scopes, forms, VCell::Ptr(args[1]), ops, tail, fuel - 1)?;
    let jump_end = ops.len();
    emit(ops, Op::Jmp(0), Ghost(heap@));
    let otherwise = ops.len();
    if args.len() == 3 {
        compile(heap, scopes, forms, VCell::Ptr(args[2]), ops, tail, fuel - 1)?;
    } else {
        emit(ops, Op::PushConst(VCell::Void), Ghost(heap@));
    }
    let end = ops.len();
    if jump_else < ops.len() && jump_end < ops.len() {
        let ghost so_far = ops@;
        ops.set(jump_else, Op::JmpIfFalse(otherwise));
        ops.set(jump_end, Op::Jmp(end));
        assert forall|k: int| 0 <= k < ops@.len() implies heap@.op_valid(#[trigger] ops@[k]) by {
            if k != jump_else && k != jump_end {
                assert(heap@.op_valid(so_far[k]));
            }
        }
    }
    Ok(())
}

/// `(define name value)` and `(define (name parameter ...) body ...)`:
/// the global slot of the name gets the value; the form itself is void.
fn compile_define(
    heap: &mut Heap,
    scopes: &mut Vec<Scope>,
    forms: &Forms,
    args: &Vec<usize>,
    ops: &mut Vec<Op>,
    fuel: usize,
) -> (r: Result<(), Error>)
    requires
        old(heap).wf(),
        old(scopes).len() > 0,
        forall|i: int| 0 <= i < args.len() ==> (#[trigger] args[i]) < old(heap)@.cells.len(),
        ops_valid(old(heap)@, old(ops)@),
        fuel > 0,
    ensures
        final(heap).wf(),
        same_data(old(heap)@, final(heap)@),
        done(
            r,
            final(heap)@,
            final(scopes)@,
            final(ops)@,
            compiled_define(
                *forms,
                unit(old(heap)@, old(scopes)@, old(ops)@),
                args@,
                fuel as nat,
            ),
        ),
        r is Ok ==> final(scopes).len() == old(scopes).len() && ops_valid(
            final(heap)@,
            final(ops)@,
        ),
    decreases fuel, 0nat, 1nat,
{
    if args.len() < 1 {
        return Err(syntax_error("define takes a name"));
    }
    let name = match heap.get_at_index(args[0]) {
        VCell::Symbol(name) => {
            if args.len() > 2 {
                return Err(syntax_error("define takes a name and a value"));
            }
            if args.len() == 2 {
                compile(heap, scopes, forms, VCell::Ptr(args[1]), ops, false, fuel - 1)?;
            } else {
                emit(ops, Op::PushConst(VCell::Void), Ghost(heap@));
            }
            name
        },
        VCell::Pair(first, rest) => {
            let name = match heap.get_at_index(first) {
                VCell::Symbol(name) => name,
                _ => {
                    return Err(syntax_error("define takes a name"));
                },
            };
            let names = form_elements(heap, rest)?;
            let params = symbols_at(heap, &names)?;
            compile_lambda(heap, scopes, forms, params, args, 1, ops, fuel)?;
            name
        },
        _ => {
            return Err(syntax_error("define takes a name"));
        },
    };
    emit(ops, Op::PopGlobal(name), Ghost(heap@));
    emit(ops, Op::PushConst(VCell::Void), Ghost(heap@));
    Ok(())
}

/// `(set! name value)`: the variable gets the value; the form itself is
/// void. A global variable has to be bound already.
fn compile_assign(
    heap: &mut Heap,
    scopes: &mut Vec<Scope>,
    forms: &Forms,
    args: &Vec<usize>,
    ops: &mut Vec<Op>,
    fuel: usize,
) -> (r: Result<(), Error>)
    requires
        old(heap).wf(),
        old(scopes).len() > 0,
        forall|i: int| 0 <= i < args.len() ==> (#[trigger] args[i]) < old(heap)@.cells.len(),
        ops_valid(old(heap)@, old(ops)@),
        fuel > 0,
    ensures
        final(heap).wf(),
        same_data(old(heap)@, final(heap)@),
        done(
            r,
            final(heap)@,
            final(scopes)@,
            final(ops)@,
            compiled_assign(
                *forms,
                unit(old(heap)@, old(scopes)@, old(ops)@),
                args@,
                fuel as nat,
            ),
        ),
        r is Ok ==> final(scopes).len() == old(scopes).len() && ops_valid(
            final(heap)@,
            final(ops)@,
        ),
    decreases fuel, 0nat, 1nat,
{
    if args.len() != 2 {
        return Err(syntax_error("set! takes a name and a value"));
    }
    let name = match heap.get_at_index(args[0]) {
        VCell::Symbol(name) => name,
        _ => {
            return Err(syntax_error("set! takes a name"));
        },
    };
    let level = scopes.len() - 1;
    match resolve(scopes, level, name) {
        Access::Local(i) => {
            compile(heap, scopes, forms, VCell::Ptr(args[1]), ops, false, fuel - 1)?;
            emit(ops, Op::PopLocal(i), Ghost(heap@));
        },
        Access::Capture(_) => {
            return Err(syntax_error("set! of a captured variable"));
        },
        Access::Global => {
            emit(ops, Op::PushGlobal(name), Ghost(heap@));
            emit(ops, Op::Pop, Ghost(heap@));
            compile(heap, scopes, forms, VCell::Ptr(args[1]), ops, false, fuel - 1)?;
            emit(ops, Op::PopGlobal(name), Ghost(heap@));
        },
    }
    emit(ops, Op::PushConst(VCell::Void), Ghost(heap@));
    Ok(())
}

/// `(let ((name value) ...) body ...)`: the body as a procedure of the
/// names, called with the values.
fn compile_let(
    heap: &mut Heap,
    scopes: &mut Vec<Scope>,
    forms: &Forms,
    args: &Vec<usize>,
    ops: &mut Vec<Op>,
    tail: bool,
    fuel: usize,
) -> (r: Result<(), Error>)
    requires
        old(heap).wf(),
        old(scopes).len() > 0,
        forall|i: int| 0 <= i < args.len() ==> (#[trigger] args[i]) < old(heap)@.cells.len(),
        ops_valid(old(heap)@, old(ops)@),
        fuel > 0,
    ensures
        final(heap).wf(),
        same_data(old(heap)@, final(heap)@),
        done(
            r,
            final(heap)@,
            final(scopes)@,
            final(ops)@,
            compiled_let(
                *forms,
                unit(old(heap)@, old(scopes)@, old(ops)@),
                args@,
                tail,
                fuel as nat,
            ),
        ),
        r is Ok ==> final(scopes).len() == old(scopes).len() && ops_valid(
            final(heap)@,
            final(ops)@,
        ),
    decreases fuel, 0nat, 1nat,
{
    if args.len() < 2 {
        return Err(syntax_error("let takes bindings and a body"));
    }
    let bindings = form_elements(heap, args[0])?;
    let (names, values) = bindings_of(heap, &bindings)?;
    let count = values.len();
    compile_lambda(heap, scopes, forms, names, args, 1, ops, fuel)?;
    compile_arguments(heap, scopes, forms, &values, 0, ops, fuel - 1)?;
    emit(ops, Op::PushConst(VCell::Argc(count)), Ghost(heap@));
    emit(
        ops,
        if tail {
            Op::TCall
        } else {
            Op::Call
        },
        Ghost(heap@),
    );
    Ok(())
}

/// The handle of a symbol.
fn handle_of(v: VCell) -> (h: usize)
    ensures
        v matches VCell::Symbol(s) ==> h == s,
{
    match v {
        VCell::Symbol(s) => s,
        _ => 0,
    }
}

/// Interns the names of the special forms.
fn special_forms(heap: &mut Heap) -> (forms: Forms)
    requires
        old(heap).wf(),
    ensures
        final(heap).wf(),
        final(heap)@ == with_forms(old(heap)@),
        forms == forms_in(final(heap)@),
        final(heap)@ == (HeapView { symbols: final(heap)@.symbols, ..old(heap)@ }),
        old(heap)@.symbols.len() <= final(heap)@.symbols.len(),
{
    let quote = handle_of(heap.intern(to_chars("quote")));
    let branch = handle_of(heap.intern(to_chars("if")));
    let define = handle_of(heap.intern(to_chars("define")));
    let assign = handle_of(heap.intern(to_chars("set!")));
    let lambda = handle_of(heap.intern(to_chars("lambda")));
    let bind = handle_of(heap.intern(to_chars("let")));
    let sequence = handle_of(heap.intern(to_chars("begin")));
    proof {
        crate::heap::lemma_handle(heap@, "quote"@, quote);
        crate::heap::lemma_handle(heap@, "if"@, branch);
        crate::heap::lemma_handle(heap@, "define"@, define);
        crate::heap::lemma_handle(heap@, "set!"@, assign);
        crate::heap::lemma_handle(heap@, "lambda"@, lambda);
        crate::heap::lemma_handle(heap@, "let"@, bind);
    }
    Forms { quote, branch, define, assign, lambda, bind, sequence }
}

/// A program came to what was wanted of it: the error, or the handle of
/// its code and the heap that holds it.
pub open spec fn programmed(
    r: Result<usize, Error>,
    heap: HeapView,
    want: Result<(HeapView, usize), ErrorView>,
) -> bool {
    match want {
        Ok((g, code)) => r == Ok::<usize, Error>(code) && heap == g,
        Err(e) => r matches Err(x) && x@ == e,
    }
}

/// Compiles a datum as a program: a procedure of no arguments that
/// returns the value of the datum. Returns the handle of its code.
pub(crate) fn compile_program(heap: &mut Heap, datum: VCell) -> (r: Result<usize, Error>)
    requires
        old(heap).wf(),
        old(heap)@.valid(datum),
    ensures
        final(heap).wf(),
        programmed(r, final(heap)@, program(old(heap)@, datum)),
        old(heap)@.no_larger_than(final(heap)@),
        old(heap)@.extended_by(final(heap)@),
        old(heap)@.cells == final(heap)@.cells,
        old(heap)@.vectors == final(heap)@.vectors,
        old(heap)@.strings == final(heap)@.strings,
        r matches Ok(code) ==> code < final(heap)@.codes.len() && final(heap)@.arity(code) == 0,
{
    let forms = special_forms(heap);
    let mut scopes: Vec<Scope> = Vec::new();
    scopes.push(Scope { params: Vec::new(), captured: Vec::new() });
    assert(scopes_of(scopes@) =~= seq![
        ScopeView { params: Seq::<usize>::empty(), captured: Seq::<usize>::empty() },
    ]);
    let mut ops: Vec<Op> = Vec::new();
    compile(heap, &mut scopes, &forms, datum, &mut ops, false, NESTING)?;
    emit(&mut ops, Op::Ret, Ghost(heap@));
    match heap.alloc_code(Code { ops, arity: 0 }) {
        VCell::Lambda(code) => Ok(code),
        _ => Err(Error::HeapCorruption),
    }
}

} // verus!
