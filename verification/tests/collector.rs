use marwood::vcell::VCell;
use marwood::vm::Vm;

#[test]
fn collection_keeps_what_is_in_use() {
    let mut vm = Vm::new();
    vm.eval("(define x '(1 \"two\" #(3 (4 . 5))))").unwrap();
    vm.eval("(define (add a b) (+ a b))").unwrap();
    vm.eval("(define shared (cons 1 2)) (define both (cons shared shared))").unwrap();
    vm.eval("(define ring (cons 1 2)) (set-cdr! ring ring)").unwrap();
    vm.collect(&Vec::new());
    for (text, expected) in [
        ("x", "(1 \"two\" #(3 (4 . 5)))"),
        ("(add 1 2)", "3"),
        ("(eq? (car both) (cdr both))", "#t"),
        ("(car (cdr (cdr ring)))", "1"),
        ("(reverse '(1 2 3))", "(3 2 1)"),
    ] {
        let value = vm.eval(text).unwrap();
        assert_eq!(vm.display(&value), expected, "{}", text);
    }
}

#[test]
fn collection_gives_up_what_is_not_in_use() {
    let mut vm = Vm::new();
    let kept = vm.eval("(define k (string #\\k)) (string #\\a #\\b)").unwrap();
    let lost = vm.eval("(vector 1 2 3)").unwrap();
    let pinned = vec![kept];
    vm.collect(&pinned);
    assert_eq!(vm.display(&kept), "\"ab\"");
    assert_eq!(vm.display(&lost), "#<undefined>");
    let value = vm.eval("k").unwrap();
    assert_eq!(vm.display(&value), "\"k\"");
    // What a compiled procedure holds as a constant stays.
    vm.eval("(define (f) '(a b))").unwrap();
    vm.collect(&Vec::new());
    let value = vm.eval("(f)").unwrap();
    assert_eq!(vm.display(&value), "(a b)");
    // A pinned cell that is no pointer pins what it refers to.
    let vector = match vm.eval("(vector \"s\")").unwrap() {
        VCell::Ptr(a) => vm.heap.get_at_index(a),
        other => other,
    };
    vm.collect(&vec![vector]);
    assert_eq!(vm.display(&vector), "#(\"s\")");
}
