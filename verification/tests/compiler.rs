use marwood::code::Op;
use marwood::error::Error;
use marwood::vcell::VCell;
use marwood::vm::Vm;

/// The instructions of the compiled procedure with the given handle.
fn instructions(vm: &Vm, code: usize) -> Vec<Op> {
    (0..vm.heap.code_len(code))
        .map(|i| vm.heap.op_at(code, i).unwrap())
        .collect()
}

#[test]
fn a_branch_jumps_over_the_other() {
    let mut vm = Vm::new();
    vm.eval("(if #f 1 2)").unwrap();
    let code = vm.heap.codes_len() - 1;
    let ops = instructions(&vm, code);
    assert_eq!(ops.len(), 6);
    assert!(matches!(ops[0], Op::PushConst(VCell::Ptr(_))));
    assert_eq!(ops[1], Op::JmpIfFalse(4));
    assert!(matches!(ops[2], Op::PushConst(VCell::Ptr(_))));
    assert_eq!(ops[3], Op::Jmp(5));
    assert!(matches!(ops[4], Op::PushConst(VCell::Ptr(_))));
    assert_eq!(ops[5], Op::Ret);
    assert_eq!(vm.heap.arity(code), 0);
}

#[test]
fn a_procedure_is_compiled_in_a_scope_of_its_own() {
    let mut vm = Vm::new();
    vm.eval("(lambda (x y) y)").unwrap();
    let program = vm.heap.codes_len() - 1;
    let body = program - 1;
    assert_eq!(instructions(&vm, body), vec![Op::PushLocal(1), Op::Ret]);
    assert_eq!(vm.heap.arity(body), 2);
    assert_eq!(
        instructions(&vm, program),
        vec![Op::PushConst(VCell::Lambda(body)), Op::Ret]
    );
}

#[test]
fn a_closure_captures_what_it_refers_to() {
    let mut vm = Vm::new();
    vm.eval("(lambda (x) (lambda (y) (lambda (z) x)))").unwrap();
    let program = vm.heap.codes_len() - 1;
    let (outer, middle, inner) = (program - 1, program - 2, program - 3);
    assert_eq!(instructions(&vm, inner), vec![Op::PushCapture(0), Op::Ret]);
    assert_eq!(
        instructions(&vm, middle),
        vec![Op::PushCapture(0), Op::MakeClosure(inner, 1), Op::Ret]
    );
    assert_eq!(
        instructions(&vm, outer),
        vec![Op::PushLocal(0), Op::MakeClosure(middle, 1), Op::Ret]
    );
    assert_eq!(
        instructions(&vm, program),
        vec![Op::PushConst(VCell::Lambda(outer)), Op::Ret]
    );
}

#[test]
fn a_call_in_tail_position_is_a_tail_call() {
    let mut vm = Vm::new();
    vm.eval("(define (f x) (car x) (cdr x))").unwrap();
    let program = vm.heap.codes_len() - 1;
    let body = instructions(&vm, program - 1);
    assert_eq!(body.len(), 10);
    assert!(matches!(body[0], Op::PushGlobal(_)));
    assert_eq!(body[1], Op::PushLocal(0));
    assert_eq!(body[2], Op::PushConst(VCell::Argc(1)));
    assert_eq!(body[3], Op::Call);
    assert_eq!(body[4], Op::Pop);
    assert!(matches!(body[5], Op::PushGlobal(_)));
    assert_eq!(body[6], Op::PushLocal(0));
    assert_eq!(body[7], Op::PushConst(VCell::Argc(1)));
    assert_eq!(body[8], Op::TCall);
    assert_eq!(body[9], Op::Ret);
    let top = instructions(&vm, program);
    assert_eq!(top.len(), 4);
    assert_eq!(top[0], Op::PushConst(VCell::Lambda(program - 1)));
    assert!(matches!(top[1], Op::PopGlobal(_)));
    assert_eq!(top[2], Op::PushConst(VCell::Void));
    assert_eq!(top[3], Op::Ret);
}

#[test]
fn an_assignment_reads_a_global_first() {
    let mut vm = Vm::new();
    vm.eval("(define x 1) (set! x 2)").unwrap();
    let ops = instructions(&vm, vm.heap.codes_len() - 1);
    assert_eq!(ops.len(), 6);
    let slot = match ops[0] {
        Op::PushGlobal(slot) => slot,
        other => panic!("unexpected {:?}", other),
    };
    assert_eq!(ops[1], Op::Pop);
    assert!(matches!(ops[2], Op::PushConst(VCell::Ptr(_))));
    assert_eq!(ops[3], Op::PopGlobal(slot));
    assert_eq!(ops[4], Op::PushConst(VCell::Void));
    assert_eq!(ops[5], Op::Ret);
}

#[test]
fn forms_that_are_not_as_they_have_to_be() {
    let mut vm = Vm::new();
    for (text, message) in [
        ("(quote)", "quote takes one datum"),
        ("(if 1)", "if takes a test and one or two branches"),
        ("(define)", "define takes a name"),
        ("(define 1 2)", "define takes a name"),
        ("(define x 1 2)", "define takes a name and a value"),
        ("(set! x)", "set! takes a name and a value"),
        ("(set! 1 2)", "set! takes a name"),
        ("(lambda (x))", "lambda takes parameters and a body"),
        ("(lambda (1) 1)", "expected a symbol"),
        ("(lambda x x)", "expected a list"),
        ("(let ((x)) x)", "a binding is a name and a value"),
        ("(let (x) x)", "expected a list"),
        ("(let ((x 1)))", "let takes bindings and a body"),
        ("(car . 1)", "expected a list"),
        ("((lambda (x) (lambda () (set! x 1))) 1)", "set! of a captured variable"),
        ("'(1 . 2 3)", "expected a closing bracket"),
        ("#(1 . 2)", "unexpected dot"),
        ("( . 2)", "unexpected dot"),
        (")", "unexpected closing bracket"),
        ("'", "unexpected end of input"),
        ("\"a", "no token starts at byte 0"),
    ] {
        assert_eq!(
            vm.eval(text),
            Err(Error::InvalidSyntax(message.into())),
            "{}",
            text
        );
    }
}

#[test]
fn what_is_read() {
    let mut vm = Vm::new();
    for (text, expected) in [
        ("'(a (b . c) #(1 \"s\" #\\x) () #t)", "(a (b . c) #(1 \"s\" #\\x) () #t)"),
        ("''a", "(quote a)"),
        ("'#()", "#()"),
        ("'(+ - 1)", "(+ - 1)"),
        ("'\"\\\\\\\"\"", "\"\\\\\\\"\""),
        ("'#\\x41", "#\\A"),
        ("'#o17", "15"),
        ("'-9223372036854775808", "-9223372036854775808"),
    ] {
        let value = vm.eval(text).unwrap();
        assert_eq!(vm.display(&value), expected, "{}", text);
    }
}
