use marwood::error::Error;
use marwood::number::{exact_of_bits, Number};
use marwood::vcell::{BuiltIn, VCell};
use marwood::vm::Vm;

fn written(text: &str) -> String {
    let mut vm = Vm::new();
    match vm.eval(text) {
        Ok(value) => vm.display(&value),
        Err(e) => panic!("{} failed with {:?}", text, e),
    }
}

fn error(text: &str) -> Error {
    let mut vm = Vm::new();
    vm.eval(text).unwrap_err()
}

#[test]
fn eqv_says_yes_to_a_value_and_itself() {
    assert_eq!(written("(eqv? 1 1)"), "#t");
    assert_eq!(written("(eqv? 'a 'a)"), "#t");
    assert_eq!(written("(eqv? #\\a #\\a)"), "#t");
    assert_eq!(written("(eqv? '() '())"), "#t");
    assert_eq!(written("(define p (cons 1 2)) (eqv? p p)"), "#t");
    assert_eq!(written("(define v (vector 1 2)) (eqv? v v)"), "#t");
    assert_eq!(written("(eqv? (cons 1 2) (cons 1 2))"), "#f");
    assert_eq!(written("(eq? \"a\" \"a\")"), "#f");
    assert_eq!(written("(eqv? 2 (/ 4 2))"), "#t");
}

#[test]
fn equal_is_symmetric_and_transitive() {
    assert_eq!(written("(equal? '(1 (2 #(3 \"x\"))) '(1 (2 #(3 \"x\"))))"), "#t");
    assert_eq!(written("(equal? '(1 2) '(1 3))"), "#f");
    assert_eq!(written("(equal? '(1 2) '(1 2 3))"), "#f");
    let mut vm = Vm::new();
    vm.eval("(define x '(a (b) #(1 2))) (define y '(a (b) #(1 2))) (define z '(a (b) #(1 2)))")
        .unwrap();
    for text in ["(equal? x y)", "(equal? y x)", "(equal? y z)", "(equal? x z)"] {
        let value = vm.eval(text).unwrap();
        assert_eq!(vm.display(&value), "#t", "{}", text);
    }
}

#[test]
fn equal_ends_on_a_cycle() {
    assert_eq!(
        written("(define a (cons 1 2)) (set-cdr! a a) (define b (cons 1 2)) (set-cdr! b b) (equal? a a)"),
        "#t"
    );
    assert_eq!(written("(define a (cons 1 2)) (set-cdr! a a) (list? a)"), "#f");
    // two cycles of their own are followed as far as the heap is large
    assert_eq!(
        written("(define a (cons 1 2)) (set-cdr! a a) (define b (cons 1 2)) (set-cdr! b b) (equal? a b)"),
        "#f"
    );
    assert_eq!(
        written("(define a (cons 1 2)) (set-car! a a) (define b (cons 1 2)) (set-car! b b) (equal? a b)"),
        "#f"
    );
    assert_eq!(
        written("(define a (vector 1)) (vector-set! a 0 a) (define b (vector 1)) (vector-set! b 0 b) (equal? a b)"),
        "#f"
    );
}

#[test]
fn equal_follows_deep_nesting() {
    let mut vm = Vm::new();
    vm.eval("(define (nest n last) (if (= n 0) last (cons (nest (- n 1) last) '())))").unwrap();
    vm.eval("(define (pile n last) (if (= n 0) last (vector (pile (- n 1) last))))").unwrap();
    for (text, expected) in [
        ("(equal? (nest 300 'a) (nest 300 'a))", "#t"),
        ("(equal? (nest 300 'a) (nest 300 'b))", "#f"),
        ("(equal? (nest 300 'a) (nest 299 'a))", "#f"),
        ("(equal? (pile 300 \"x\") (pile 300 \"x\"))", "#t"),
        ("(equal? (pile 300 \"x\") (pile 300 \"y\"))", "#f"),
    ] {
        let value = vm.eval(text).unwrap();
        assert_eq!(vm.display(&value), expected, "{}", text);
    }
}

#[test]
fn car_and_cdr_of_cons() {
    assert_eq!(written("(car (cons 1 2))"), "1");
    assert_eq!(written("(cdr (cons 1 2))"), "2");
    assert_eq!(written("(define a '(1)) (eq? (car (cons a 2)) a)"), "#t");
    assert_eq!(written("(define b '(1)) (eq? (cdr (cons 2 b)) b)"), "#t");
    assert_eq!(error("(car 1)"), Error::ExpectedPairButFound("1".into()));
    assert_eq!(error("(cdr '())"), Error::ExpectedPairButFound("()".into()));
}

#[test]
fn set_car_changes_the_pair() {
    assert_eq!(written("(let ((p (cons 1 2))) (set-car! p 10) p)"), "(10 . 2)");
    assert_eq!(written("(define p (cons 1 2)) (set-cdr! p '(3)) p"), "(1 3)");
    assert_eq!(
        error("(set-car! 1 2)"),
        Error::InvalidSyntax("set-car! expected a pair".into())
    );
    assert_eq!(
        error("(set-cdr! 1 2)"),
        Error::InvalidSyntax("set-cdr! expected a pair".into())
    );
}

#[test]
fn reverse_keeps_the_length_and_undoes_itself() {
    assert_eq!(written("(reverse '(1 2 3))"), "(3 2 1)");
    assert_eq!(written("(reverse '())"), "()");
    assert_eq!(written("(reverse (reverse '(1 (2 3) 4)))"), "(1 (2 3) 4)");
    assert_eq!(written("(equal? (reverse (reverse '(1 2 3))) '(1 2 3))"), "#t");
    assert_eq!(
        error("(reverse '(1 2 . 3))"),
        Error::InvalidSyntax("(1 2 . 3) is an improper list".into())
    );
    assert_eq!(error("(reverse 5)"), Error::ExpectedPairButFound("5".into()));
}

#[test]
fn append_joins_lists() {
    assert_eq!(written("(append '(1 2) '(3 4) '(5))"), "(1 2 3 4 5)");
    assert_eq!(written("(append)"), "()");
    assert_eq!(written("(append '() 'x)"), "x");
    assert_eq!(written("(append '(1) 2)"), "(1 . 2)");
    assert_eq!(written("(append '(1 2) '(3 . 4))"), "(1 2 3 . 4)");
    assert_eq!(written("(list? (append '(1 2) '(3)))"), "#t");
    assert_eq!(written("(list? (append '(1 2) 3))"), "#f");
    assert_eq!(
        written("(define a '(1 2)) (define b (append a '(3))) (set-car! b 9) a"),
        "(1 2)"
    );
    assert_eq!(
        written("(define t '(3)) (define b (append '(1 2) t)) (eq? (list-tail b 2) t)"),
        "#t"
    );
    assert_eq!(
        error("(append '(1 . 2) '(3))"),
        Error::InvalidSyntax("(1 . 2) is an improper list".into())
    );
    assert_eq!(error("(append 1 '(3))"), Error::ExpectedPairButFound("1".into()));
}

#[test]
fn list_tail_and_list_ref() {
    assert_eq!(written("(list-tail '(1 2 3) 0)"), "(1 2 3)");
    assert_eq!(written("(list-tail '(1 2 3) 2)"), "(3)");
    assert_eq!(written("(list-tail '(1 2 3) 3)"), "()");
    assert_eq!(written("(list-ref '(1 2 3) 0)"), "1");
    assert_eq!(written("(list-ref '(1 2 3) 2)"), "3");
    assert_eq!(
        error("(list-tail '(1 2 3) 4)"),
        Error::InvalidSyntax("4 is out of range for (1 2 3)".into())
    );
    assert_eq!(
        error("(list-ref '(1 2 3) 3)"),
        Error::InvalidSyntax("3 is out of range for (1 2 3)".into())
    );
    assert_eq!(
        error("(list-ref '(1 2 3) -1)"),
        Error::InvalidSyntax("-1 is not a valid index".into())
    );
    assert_eq!(error("(list-ref 5 0)"), Error::ExpectedPairButFound("5".into()));
}

#[test]
fn predicates() {
    for (text, expected) in [
        ("(pair? '(1))", "#t"),
        ("(pair? '())", "#f"),
        ("(null? '())", "#t"),
        ("(list? '())", "#t"),
        ("(list? '(1 2))", "#t"),
        ("(list? '(1 . 2))", "#f"),
        ("(boolean? #f)", "#t"),
        ("(boolean? 0)", "#f"),
        ("(char? #\\a)", "#t"),
        ("(char? \"a\")", "#f"),
        ("(string? \"a\")", "#t"),
        ("(symbol? 'a)", "#t"),
        ("(number? 1)", "#t"),
        ("(vector? #(1))", "#t"),
        ("(procedure? car)", "#t"),
        ("(procedure? (lambda (x) x))", "#t"),
        ("(procedure? 'car)", "#f"),
        ("(port? car)", "#f"),
        ("(not #f)", "#t"),
        ("(not 0)", "#f"),
        ("(not '())", "#f"),
    ] {
        assert_eq!(written(text), expected, "{}", text);
    }
}

#[test]
fn arithmetic() {
    for (text, expected) in [
        ("(+)", "0"),
        ("(+ 1 2 3)", "6"),
        ("(+ 1 (/ 1 2))", "3/2"),
        ("(- 5)", "-5"),
        ("(- 10 1 2)", "7"),
        ("(*)", "1"),
        ("(* 2 3 4)", "24"),
        ("(/ 2)", "1/2"),
        ("(/ 10 4)", "5/2"),
        ("(/ 10 5)", "2"),
        ("(/ 1 -3)", "-1/3"),
        ("(* (/ 2 3) (/ 3 2))", "1"),
        ("(remainder 7 2)", "1"),
        ("(remainder -7 2)", "-1"),
        ("(% 7 -2)", "1"),
        ("(quotient 7 2)", "3"),
        ("(quotient -7 2)", "-3"),
        ("(abs -5)", "5"),
        ("(abs (/ -1 2))", "1/2"),
        ("(inexact->exact 5)", "5"),
        ("(+ 9223372036854775806 1)", "9223372036854775807"),
        ("(- -9223372036854775807 1)", "-9223372036854775808"),
    ] {
        assert_eq!(written(text), expected, "{}", text);
    }
}

#[test]
fn plus_is_commutative_and_associative() {
    assert_eq!(written("(= (+ 3 (/ 1 2)) (+ (/ 1 2) 3))"), "#t");
    assert_eq!(written("(+ (+ 1 (/ 1 3)) (/ 1 6))"), "3/2");
    assert_eq!(written("(+ 1 (+ (/ 1 3) (/ 1 6)))"), "3/2");
    assert_eq!(written("(+ 1 (/ 1 3) (/ 1 6))"), "3/2");
    assert_eq!(written("(+ (/ 1 6) (/ 1 3) 1)"), "3/2");
}

#[test]
fn arithmetic_errors() {
    assert_eq!(error("(/ 10 0)"), Error::InvalidSyntax("/ is undefined for 0".into()));
    assert_eq!(
        error("(remainder 1 0)"),
        Error::InvalidSyntax("remainder is undefined for 0".into())
    );
    assert_eq!(
        error("(quotient 1 0)"),
        Error::InvalidSyntax("quotient is undefined for 0".into())
    );
    assert_eq!(
        error("(quotient -9223372036854775808 -1)"),
        Error::InvalidSyntax(
            "quotient is undefined for -9223372036854775808 % -1".into()
        )
    );
    assert_eq!(
        error("(remainder (/ 1 2) 1)"),
        Error::InvalidSyntax("1/2 is not a valid integer".into())
    );
    assert_eq!(
        error("(/ 'a)"),
        Error::InvalidSyntax("a is not a valid number".into())
    );
    assert_eq!(
        error("(+ 1 'a)"),
        Error::InvalidArgs("+".into(), "number".into(), "a".into())
    );
    assert_eq!(
        error("(* \"x\" 2)"),
        Error::InvalidArgs("*".into(), "number".into(), "\"x\"".into())
    );
    assert_eq!(
        error("(- 'a 1)"),
        Error::InvalidArgs("-".into(), "number".into(), "a".into())
    );
    assert_eq!(
        error("(+ 9223372036854775807 1)"),
        Error::InvalidSyntax("+: result is out of range".into())
    );
    assert_eq!(
        error("(abs -9223372036854775808)"),
        Error::InvalidSyntax("abs: result is out of range".into())
    );
    assert_eq!(error("(-)"), Error::InvalidNumArgs("-".into()));
    assert_eq!(error("(car)"), Error::InvalidNumArgs("car".into()));
    assert_eq!(error("(cons 1)"), Error::InvalidNumArgs("cons".into()));
    assert_eq!(error("(/ 1 2 3)"), Error::InvalidNumArgs("/".into()));
}

#[test]
fn comparisons() {
    for (text, expected) in [
        ("(= 1 1 1)", "#t"),
        ("(= 1 1 2)", "#f"),
        ("(< 1 2 3)", "#t"),
        ("(< 1 3 2)", "#f"),
        ("(<= 1 1 2)", "#t"),
        ("(> 3 2 1)", "#t"),
        ("(>= 3 3 1)", "#t"),
        ("(< (/ 1 3) (/ 1 2))", "#t"),
        ("(< 1 'a)", "#f"),
        ("(= 'a)", "#f"),
        ("(= 1)", "#t"),
        ("(zero? 0)", "#t"),
        ("(zero? 1)", "#f"),
        ("(zero? 'a)", "#f"),
        ("(positive? 1)", "#t"),
        ("(positive? -1)", "#f"),
        ("(negative? -1)", "#t"),
        ("(negative? (/ -1 2))", "#t"),
        ("(odd? 3)", "#t"),
        ("(odd? 2)", "#f"),
        ("(odd? -3)", "#t"),
        ("(even? 2)", "#t"),
        ("(even? 3)", "#f"),
        ("(even? 'a)", "#f"),
    ] {
        assert_eq!(written(text), expected, "{}", text);
    }
}

#[test]
fn vectors() {
    assert_eq!(written("(vector 1 2 3)"), "#(1 2 3)");
    assert_eq!(written("(vector)"), "#()");
    assert_eq!(written("(make-vector 3)"), "#(0 0 0)");
    assert_eq!(written("(make-vector 2 'x)"), "#(x x)");
    assert_eq!(written("(vector-length #(1 2 3))"), "3");
    assert_eq!(written("(vector-ref #(10 20 30) 1)"), "20");
    assert_eq!(written("(define v (vector 1 2 3)) (vector-set! v 1 'x) v"), "#(1 x 3)");
    assert_eq!(written("(define v (vector 1 2 3)) (vector-fill! v 0) v"), "#(0 0 0)");
    assert_eq!(written("(vector->list #(1 2 3))"), "(1 2 3)");
    assert_eq!(written("(vector->list #())"), "()");
    assert_eq!(written("(list->vector '(1 2 3))"), "#(1 2 3)");
    assert_eq!(written("(list->vector '())"), "#()");
    assert_eq!(written("(equal? (list->vector (vector->list #(1 (2) \"3\"))) #(1 (2) \"3\"))"), "#t");
    assert_eq!(
        written("(define v (make-vector 2 (cons 1 2))) (eq? (vector-ref v 0) (vector-ref v 1))"),
        "#t"
    );
    assert_eq!(error("(vector-ref #(10 20 30) 5)"), Error::InvalidVectorIndex(5, 3));
    assert_eq!(error("(vector-set! (vector) 0 1)"), Error::InvalidVectorIndex(0, 0));
    assert_eq!(
        error("(vector-ref '(1) 0)"),
        Error::InvalidSyntax("(1) is not a vector".into())
    );
    assert_eq!(
        error("(vector-ref #(1) 'a)"),
        Error::InvalidSyntax("a is not a valid index".into())
    );
    assert_eq!(
        error("(make-vector 'a)"),
        Error::InvalidSyntax("make-vector requires an integer size".into())
    );
    assert_eq!(error("(list->vector 5)"), Error::ExpectedPairButFound("5".into()));
}

#[test]
fn string_list_round_trip() {
    assert_eq!(
        written("(equal? (string->list (list->string '(#\\a #\\λ #\\🐶))) '(#\\a #\\λ #\\🐶))"),
        "#t"
    );
    assert_eq!(written("(string-length \"🐶\")"), "1");
    assert_eq!(written("(string-length \"\")"), "0");
    assert_eq!(written("(string-length (make-string 4 #\\é))"), "4");
    assert_eq!(written("(string->vector \"ab\")"), "#(#\\a #\\b)");
    assert_eq!(written("(string-append)"), "\"\"");
    assert_eq!(
        error("(string-length 5)"),
        Error::InvalidSyntax("5 is not a valid string".into())
    );
    assert_eq!(
        error("(char-upcase 5)"),
        Error::InvalidSyntax("5 is not a valid char".into())
    );
    assert_eq!(
        error("(symbol->string 5)"),
        Error::InvalidSyntax("5 is not a valid symbol".into())
    );
    assert_eq!(error("(substring \"abc\" 0 4)"), Error::InvalidStringIndex(4, 3));
}

#[test]
fn integer_char_round_trip() {
    for code in [0u32, 65, 0x3bb, 0xd7ff, 0xe000, 0x1f436, 0x10ffff] {
        let text = format!("(char->integer (integer->char {}))", code);
        assert_eq!(written(&text), format!("{}", code));
    }
    assert_eq!(
        error("(integer->char 55296)"),
        Error::InvalidSyntax("55296 is not valid unicode".into())
    );
    assert_eq!(
        error("(integer->char -1)"),
        Error::InvalidSyntax("-1 is not valid unicode".into())
    );
}

#[test]
fn symbols_compare_by_name() {
    assert_eq!(written("(symbol=? 'foo 'foo 'bar)"), "#f");
    assert_eq!(written("(symbol=? 'foo 'foo 'foo)"), "#t");
    assert_eq!(written("(eq? 'foo (string->symbol \"foo\"))"), "#t");
    assert_eq!(written("'+"), "+");
    assert_eq!(written("(string->symbol \"...\")"), "...");
    assert_eq!(written("(string->symbol \"a b\")"), "a\\x20;b");
}

#[test]
fn programs() {
    assert_eq!(written(""), "#<void>");
    assert_eq!(written("(define (twice x) (* 2 x)) (twice 21)"), "42");
    assert_eq!(written("(if #f 1 2)"), "2");
    assert_eq!(written("(if 0 1 2)"), "1");
    assert_eq!(written("(if #f 1)"), "#<void>");
    assert_eq!(written("(begin 1 2 3)"), "3");
    assert_eq!(written("((lambda (x y) (- x y)) 5 3)"), "2");
    assert_eq!(written("(let ((x 1) (y 2)) (+ x y))"), "3");
    assert_eq!(
        written("(define (make-adder n) (lambda (x) (+ x n))) ((make-adder 3) 4)"),
        "7"
    );
    assert_eq!(
        written("(define (count n acc) (if (= n 0) acc (count (- n 1) (+ acc 1)))) (count 10000 0)"),
        "10000"
    );
    assert_eq!(written("(define x 1) (set! x 5) x"), "5");
    assert_eq!(written("((lambda (x) (set! x 7) x) 1)"), "7");
    assert_eq!(written("car"), "#<procedure>");
    assert_eq!(written("'(1 . (2 . (3 . ())))"), "(1 2 3)");
    assert_eq!(written("'(a . b)"), "(a . b)");
    assert_eq!(written("#xff"), "255");
    assert_eq!(written("#b-101"), "-5");
    assert_eq!(written("\"a\\nb\""), "\"a\nb\"");
}

#[test]
fn program_errors() {
    assert_eq!(error("nothing"), Error::Unbound("nothing".into()));
    assert_eq!(error("(set! nothing 1)"), Error::Unbound("nothing".into()));
    assert_eq!(
        error("(1 2)"),
        Error::InvalidSyntax("1 is not a procedure".into())
    );
    assert_eq!(
        error("((lambda (x) x))"),
        Error::InvalidNumArgs("#<procedure>".into())
    );
    assert_eq!(
        error("(car ]"),
        Error::InvalidSyntax("no token starts at byte 5".into())
    );
    assert_eq!(
        error("(car"),
        Error::InvalidSyntax("unexpected end of input".into())
    );
    assert_eq!(
        error("10..5"),
        Error::InvalidSyntax("10..5 is not a valid number".into())
    );
    assert_eq!(
        error("#\\nonsense"),
        Error::InvalidSyntax("#\\nonsense is not a valid character".into())
    );
    let mut vm = Vm::new();
    assert_eq!(
        vm.eval_with_budget("(define (loop) (loop)) (loop)", 1000),
        Err(Error::StepLimit)
    );
    // The machine is usable after an error.
    let value = vm.eval("(+ 1 2)").unwrap();
    assert_eq!(vm.display(&value), "3");
}

#[test]
fn builtins_follow_the_call_convention() {
    let mut vm = Vm::new();
    let a = vm.heap.put(VCell::Number(Number::Fixnum(1)));
    let b = vm.heap.put(VCell::Number(Number::Fixnum(2)));
    vm.stack.push(a);
    vm.stack.push(b);
    vm.stack.push(VCell::Argc(2));
    let pair = marwood::builtin::list::cons(&mut vm).unwrap();
    assert_eq!(vm.stack.len(), 0);
    assert_eq!(vm.display(&pair), "(1 . 2)");
    match (a, b, pair) {
        (VCell::Ptr(x), VCell::Ptr(y), VCell::Pair(car, cdr)) => {
            assert_eq!((car, cdr), (x, y));
        }
        other => panic!("unexpected {:?}", other),
    }
    // The last argument is on top of the stack.
    vm.stack.push(a);
    vm.stack.push(b);
    vm.stack.push(VCell::Argc(2));
    let difference = marwood::builtin::numeric::minus(&mut vm).unwrap();
    assert_eq!(difference, VCell::Number(Number::Fixnum(-1)));
    // Without a frame there is nothing to call with.
    assert_eq!(marwood::builtin::list::car(&mut vm), Err(Error::StackUnderflow));
    vm.stack.push(VCell::Argc(1));
    assert_eq!(marwood::builtin::list::car(&mut vm), Err(Error::StackUnderflow));
    assert_eq!(vm.stack.len(), 0);
    vm.stack.push(a);
    assert_eq!(marwood::builtin::list::car(&mut vm), Err(Error::StackUnderflow));
    assert_eq!(vm.stack.len(), 0);
    // A count that the procedure does not take is taken off all the same.
    vm.stack.push(a);
    vm.stack.push(b);
    vm.stack.push(VCell::Argc(2));
    assert_eq!(
        marwood::builtin::list::car(&mut vm),
        Err(Error::InvalidNumArgs("car".into()))
    );
    assert_eq!(vm.stack.len(), 2);
    assert_eq!(vm.stack.peek(0), Some(b));
    assert_eq!(
        marwood::builtin::pop_argc(&mut vm, 0, None, "f"),
        Err(Error::StackUnderflow)
    );
    assert_eq!(vm.stack.len(), 1);
    vm.stack.push(VCell::Argc(7));
    assert_eq!(marwood::builtin::pop_argc(&mut vm, 0, Some(7), "f"), Ok(7));
    assert_eq!(vm.stack.len(), 1);
    vm.stack.truncate(0);
    // A pair that is handed over as a cell has no place to change.
    let mut vm = Vm::new();
    let one = vm.heap.put(VCell::Number(Number::Fixnum(1)));
    let (x, y) = match (one, one) {
        (VCell::Ptr(x), VCell::Ptr(y)) => (x, y),
        _ => (0, 0),
    };
    vm.stack.push(VCell::Pair(x, y));
    vm.stack.push(one);
    vm.stack.push(VCell::Argc(2));
    assert_eq!(marwood::builtin::list::set_car(&mut vm), Err(Error::HeapCorruption));
}

#[test]
fn numbers_are_kept_in_lowest_terms() {
    let half = Number::from_i64(1).div(Number::from_i64(2)).unwrap();
    assert_eq!(half, Number::Rational(1, 2));
    assert_eq!(Number::Fixnum(6).div(Number::Fixnum(-4)), Some(Number::Rational(-3, 2)));
    assert_eq!(half.add(half), Some(Number::Fixnum(1)));
    assert_eq!(half.sub(Number::Fixnum(1)), Some(Number::Rational(-1, 2)));
    assert_eq!(half.mul(Number::Fixnum(4)), Some(Number::Fixnum(2)));
    assert_eq!(Number::Fixnum(1).div(Number::Fixnum(0)), None);
    assert_eq!(Number::Fixnum(i64::MAX).add(Number::Fixnum(1)), None);
    assert_eq!(Number::Fixnum(i64::MIN).abs(), None);
    assert_eq!(Number::Fixnum(i64::MIN).quotient(Number::Fixnum(-1)), None);
    assert_eq!(Number::Fixnum(-7).remainder(Number::Fixnum(2)), Some(Number::Fixnum(-1)));
    assert_eq!(Number::Rational(1, 0).add(Number::Fixnum(1)), None);
    assert!(Number::Rational(2, 4).same_value(half));
    assert!(Number::Rational(1, 3).less_than(half));
    assert_eq!(Number::Fixnum(7).to_usize(), Some(7));
    assert_eq!(Number::Fixnum(-7).to_usize(), None);
    assert_eq!(half.to_usize(), None);
    assert!(half.is_valid() && !half.is_integer() && !half.is_zero());
}

#[test]
fn exact_numbers_from_the_bits_of_inexact_ones() {
    assert_eq!(exact_of_bits(0.0f64.to_bits()), Some(Number::Fixnum(0)));
    assert_eq!(exact_of_bits((-0.0f64).to_bits()), Some(Number::Fixnum(0)));
    assert_eq!(exact_of_bits(1.0f64.to_bits()), Some(Number::Fixnum(1)));
    assert_eq!(exact_of_bits(3.0f64.to_bits()), Some(Number::Fixnum(3)));
    assert_eq!(exact_of_bits(0x3fe0_0000_0000_0000), Some(Number::Rational(1, 2)));
    assert_eq!(exact_of_bits((-0.75f64).to_bits()), Some(Number::Rational(-3, 4)));
    assert_eq!(exact_of_bits((-2.5f64).to_bits()), Some(Number::Rational(-5, 2)));
    assert_eq!(exact_of_bits(1024.0f64.to_bits()), Some(Number::Fixnum(1024)));
    assert_eq!(
        exact_of_bits(0.1f64.to_bits()),
        Some(Number::Rational(3602879701896397, 36028797018963968))
    );
    assert_eq!(
        exact_of_bits(4611686018427387904.0f64.to_bits()),
        Some(Number::Fixnum(4611686018427387904))
    );
    assert_eq!(exact_of_bits(9223372036854775808.0f64.to_bits()), None);
    assert_eq!(
        exact_of_bits((-9223372036854775808.0f64).to_bits()),
        Some(Number::Fixnum(i64::MIN))
    );
    assert_eq!(exact_of_bits(9007199254740993.0f64.to_bits()), Some(Number::Fixnum(9007199254740992)));
    assert_eq!(exact_of_bits(1e300f64.to_bits()), None);
    assert_eq!(exact_of_bits(1e-300f64.to_bits()), None);
    assert_eq!(exact_of_bits(1), None);
    assert_eq!(exact_of_bits(f64::INFINITY.to_bits()), None);
    assert_eq!(exact_of_bits(f64::NEG_INFINITY.to_bits()), None);
    assert_eq!(exact_of_bits(f64::NAN.to_bits()), None);
    assert_eq!(exact_of_bits(0x7ff0_0000_0000_0001), None);
    // two to the power of -62 is the smallest power of two that fits
    assert_eq!(
        exact_of_bits(0x3c10_0000_0000_0000),
        Some(Number::Rational(1, 4611686018427387904))
    );
    assert_eq!(exact_of_bits(0x3c00_0000_0000_0000), None);
}

#[test]
fn a_new_machine_binds_the_native_procedures() {
    let mut vm = Vm::new();
    for (name, procedure) in [
        ("abs", BuiltIn::Abs),
        ("car", BuiltIn::Car),
        ("+", BuiltIn::Plus),
        ("-", BuiltIn::Minus),
        ("<=", BuiltIn::LtEq),
        ("char->integer", BuiltIn::CharToInteger),
        ("integer->char", BuiltIn::IntegerToChar),
        ("list->string", BuiltIn::ListToString),
        ("string->list", BuiltIn::StringToList),
        ("string-length", BuiltIn::StringLength),
        ("string-ci<=?", BuiltIn::StringCiLtEq),
        ("string-ci>=?", BuiltIn::StringCiGtEq),
        ("make-vector", BuiltIn::MakeVector),
        ("remainder", BuiltIn::Remainder),
        ("%", BuiltIn::Remainder),
        ("zero?", BuiltIn::Zero),
    ] {
        let value = vm.eval(name).unwrap();
        assert_eq!(vm.heap.get(value), VCell::BuiltIn(procedure), "{}", name);
    }
    assert_eq!(vm.eval("exact->inexact"), Err(Error::Unbound("exact->inexact".into())));
}

#[test]
fn plus_of_three_numbers_in_any_grouping() {
    let mut vm = Vm::new();
    vm.eval("(define a (/ 7 12)) (define b (/ -5 18)) (define c 4)").unwrap();
    for text in ["(+ (+ a b) c)", "(+ a (+ b c))", "(+ a b c)", "(+ c b a)", "(+ (+ c a) b)"] {
        let value = vm.eval(text).unwrap();
        assert_eq!(vm.heap.get(value), VCell::Number(Number::Rational(155, 36)), "{}", text);
    }
    // the sum of the first two is out of range, though the sum of all three is not
    assert_eq!(
        vm.eval("(+ (+ 9223372036854775807 1) -1)"),
        Err(Error::InvalidSyntax("+: result is out of range".into()))
    );
    let value = vm.eval("(+ 9223372036854775807 (+ 1 -1))").unwrap();
    assert_eq!(vm.heap.get(value), VCell::Number(Number::Fixnum(i64::MAX)));
}

#[test]
fn evaluation_leaves_the_stack_as_it_was() {
    let mut vm = Vm::new();
    vm.stack.push(VCell::Number(Number::Fixnum(7)));
    vm.stack.push(VCell::Bool(true));
    let as_it_was = vm.stack.cells();
    let value = vm.eval("(+ 1 2)").unwrap();
    assert_eq!(vm.heap.get(value), VCell::Number(Number::Fixnum(3)));
    assert_eq!(vm.stack.cells(), as_it_was);
    assert_eq!(vm.eval("(car 1)"), Err(Error::ExpectedPairButFound("1".into())));
    assert_eq!(vm.stack.cells(), as_it_was);
    assert_eq!(vm.eval("(car)"), Err(Error::InvalidNumArgs("car".into())));
    assert_eq!(vm.stack.cells(), as_it_was);
    assert_eq!(vm.eval("(f 1 2 (+ 3 4))"), Err(Error::Unbound("f".into())));
    assert_eq!(vm.stack.cells(), as_it_was);
    assert_eq!(
        vm.eval_with_budget("(define (forever) (forever)) (forever)", 1000),
        Err(Error::StepLimit)
    );
    assert_eq!(vm.stack.cells(), as_it_was);
    let value = vm.eval("(car (cons 1 2))").unwrap();
    assert_eq!(vm.heap.get(value), VCell::Number(Number::Fixnum(1)));
    assert_eq!(vm.stack.cells(), as_it_was);
}

#[test]
fn a_failing_instruction_leaves_heap_and_globals() {
    let mut vm = Vm::new();
    vm.eval("(define p (cons 1 2)) (define v (vector 1 2 3))").unwrap();
    let cells = vm.heap.len();
    assert_eq!(
        vm.eval("(begin (set-car! p 10) (vector-ref v 7))"),
        Err(Error::InvalidVectorIndex(7, 3))
    );
    // what was done before the error stays done
    assert_eq!(written_in(&mut vm, "p"), "(10 . 2)");
    // the failing call itself changes nothing
    assert_eq!(vm.eval("(vector-ref v 7)"), Err(Error::InvalidVectorIndex(7, 3)));
    assert_eq!(written_in(&mut vm, "v"), "#(1 2 3)");
    assert_eq!(written_in(&mut vm, "p"), "(10 . 2)");
    assert!(vm.heap.len() >= cells);
    // the machine goes on after an error
    assert_eq!(written_in(&mut vm, "(+ (car p) (vector-ref v 2))"), "13");
}

fn written_in(vm: &mut Vm, text: &str) -> String {
    let value = vm.eval(text).unwrap();
    vm.display(&value)
}

#[test]
fn a_text_that_cannot_be_evaluated_leaves_no_trace() {
    let mut vm = Vm::new();
    vm.eval("(define x 1)").unwrap();
    let before = vm.heap.sizes();
    // texts that cannot be read
    for text in ["(a-new-symbol \"a new string\" #(1 2) (3 4", "(another-new-symbol 1 #x)", ")"] {
        assert!(vm.eval(text).is_err(), "{}", text);
        let after = vm.heap.sizes();
        assert_eq!(
            (after.cells, after.vectors, after.strings, after.symbols, after.codes),
            (before.cells, before.vectors, before.strings, before.symbols, before.codes),
            "{}",
            text
        );
    }
    // a text that is read and does not compile: its procedures are gone
    for text in ["(begin (lambda (y) y) (if))", "(begin (lambda (y) (lambda (z) y)) (define))"] {
        assert!(vm.eval(text).is_err(), "{}", text);
        assert_eq!(vm.heap.sizes().codes, before.codes, "{}", text);
    }
    assert_eq!(written_in(&mut vm, "x"), "1");
    assert_eq!(written_in(&mut vm, "((lambda (y) (+ x y)) 2)"), "3");
}
