//! What the names of a new machine are bound to.
use crate::builtin::numeric::{checked_value, plus_result};
use crate::builtin::predicate::equal_cells;
use crate::builtin::strings::element_chars;
use crate::builtin::{
    all_values, applied, arity_ok, effect, entry, loaded, max_args, min_args, name, registered,
    CATALOG_LEN,
};
use crate::error::{outcome, Error, ErrorView};
use crate::heap::HeapView;
use crate::laws::{
    law_append, law_char_integer_round_trip, law_equal_symmetric, law_equal_transitive,
    law_eqv_reflexive, law_make_string_filled, law_make_vector_filled, law_plus_associative,
    law_plus_of_three, law_plus_sum, law_reverse, law_reverse_twice, law_string_length, law_string_round_trip,
    law_vector_round_trip,
};
use crate::list::{elements, is_list, list_of};
use crate::number::{fits, lowest, reduce, Number};
use crate::vcell::{BuiltIn, VCell};
use crate::vm::{blank, Machine, Vm};
use vstd::prelude::*;

verus! {

/// No two native procedures have the same name, and none is named `%`.
pub proof fn lemma_names_differ(f: BuiltIn, g: BuiltIn)
    ensures
        name(f) == name(g) ==> f == g,
        name(f) != "%"@,
{
    // Equal names are as long and agree at every place; no name has more
    // than sixteen characters.
    assert(name(f) == name(g) ==> {
        &&& name(f).len() == name(g).len()
        &&& name(f)[0] == name(g)[0]
        &&& name(f)[1] == name(g)[1]
        &&& name(f)[2] == name(g)[2]
        &&& name(f)[3] == name(g)[3]
        &&& name(f)[4] == name(g)[4]
        &&& name(f)[5] == name(g)[5]
        &&& name(f)[6] == name(g)[6]
        &&& name(f)[7] == name(g)[7]
        &&& name(f)[8] == name(g)[8]
        &&& name(f)[9] == name(g)[9]
        &&& name(f)[10] == name(g)[10]
        &&& name(f)[11] == name(g)[11]
        &&& name(f)[12] == name(g)[12]
        &&& name(f)[13] == name(g)[13]
        &&& name(f)[14] == name(g)[14]
        &&& name(f)[15] == name(g)[15]
    });
    assert(name(f) == "%"@ ==> name(f).len() == "%"@.len() && name(f)[0] == "%"@[0]);
    reveal_strlit("%");
    reveal_strlit("abs");
    reveal_strlit("append");
    reveal_strlit("car");
    reveal_strlit("cdr");
    reveal_strlit("char-alphabetic?");
    reveal_strlit("char-ci=?");
    reveal_strlit("char-ci>?");
    reveal_strlit("char-ci>=?");
    reveal_strlit("char-ci<?");
    reveal_strlit("char-ci<=?");
    reveal_strlit("char-downcase");
    reveal_strlit("char=?");
    reveal_strlit("char-foldcase");
    reveal_strlit("char>?");
    reveal_strlit("char>=?");
    reveal_strlit("char-lower-case?");
    reveal_strlit("char<?");
    reveal_strlit("char<=?");
    reveal_strlit("char-numeric?");
    reveal_strlit("char->integer");
    reveal_strlit("char-upcase");
    reveal_strlit("char-upper-case?");
    reveal_strlit("char-whitespace?");
    reveal_strlit("cons");
    reveal_strlit("digit-value");
    reveal_strlit("/");
    reveal_strlit("eq?");
    reveal_strlit("equal?");
    reveal_strlit("eqv?");
    reveal_strlit("even?");
    reveal_strlit(">");
    reveal_strlit(">=");
    reveal_strlit("inexact->exact");
    reveal_strlit("integer->char");
    reveal_strlit("boolean?");
    reveal_strlit("char?");
    reveal_strlit("list?");
    reveal_strlit("null?");
    reveal_strlit("number?");
    reveal_strlit("pair?");
    reveal_strlit("port?");
    reveal_strlit("procedure?");
    reveal_strlit("string?");
    reveal_strlit("symbol?");
    reveal_strlit("vector?");
    reveal_strlit("list-ref");
    reveal_strlit("list-tail");
    reveal_strlit("list->string");
    reveal_strlit("list->vector");
    reveal_strlit("<");
    reveal_strlit("<=");
    reveal_strlit("make-string");
    reveal_strlit("make-vector");
    reveal_strlit("-");
    reveal_strlit("*");
    reveal_strlit("negative?");
    reveal_strlit("not");
    reveal_strlit("=");
    reveal_strlit("odd?");
    reveal_strlit("+");
    reveal_strlit("positive?");
    reveal_strlit("quotient");
    reveal_strlit("remainder");
    reveal_strlit("reverse");
    reveal_strlit("set-car!");
    reveal_strlit("set-cdr!");
    reveal_strlit("string");
    reveal_strlit("string-append");
    reveal_strlit("string-ci=?");
    reveal_strlit("string-ci>?");
    reveal_strlit("string-ci>=?");
    reveal_strlit("string-ci<?");
    reveal_strlit("string-ci<=?");
    reveal_strlit("string-copy");
    reveal_strlit("string-downcase");
    reveal_strlit("string=?");
    reveal_strlit("string-fill!");
    reveal_strlit("string-foldcase");
    reveal_strlit("string>?");
    reveal_strlit("string>=?");
    reveal_strlit("string-length");
    reveal_strlit("string<?");
    reveal_strlit("string<=?");
    reveal_strlit("string-ref");
    reveal_strlit("string-set!");
    reveal_strlit("string->list");
    reveal_strlit("string->symbol");
    reveal_strlit("string->vector");
    reveal_strlit("string-upcase");
    reveal_strlit("substring");
    reveal_strlit("symbol=?");
    reveal_strlit("symbol->string");
    reveal_strlit("vector");
    reveal_strlit("vector-fill!");
    reveal_strlit("vector-length");
    reveal_strlit("vector-ref");
    reveal_strlit("vector-set!");
    reveal_strlit("vector->list");
    reveal_strlit("vector->string");
    reveal_strlit("zero?");
}

/// Where a native procedure stands in the catalog.
pub open spec fn position(f: BuiltIn) -> int {
    match f {
        BuiltIn::Abs => 0,
        BuiltIn::Append => 1,
        BuiltIn::Car => 2,
        BuiltIn::Cdr => 3,
        BuiltIn::CharAlphabetic => 4,
        BuiltIn::CharCiEqual => 5,
        BuiltIn::CharCiGt => 6,
        BuiltIn::CharCiGtEq => 7,
        BuiltIn::CharCiLt => 8,
        BuiltIn::CharCiLtEq => 9,
        BuiltIn::CharDowncase => 10,
        BuiltIn::CharEqual => 11,
        BuiltIn::CharFoldcase => 12,
        BuiltIn::CharGt => 13,
        BuiltIn::CharGtEq => 14,
        BuiltIn::CharLowerCase => 15,
        BuiltIn::CharLt => 16,
        BuiltIn::CharLtEq => 17,
        BuiltIn::CharNumeric => 18,
        BuiltIn::CharToInteger => 19,
        BuiltIn::CharUpcase => 20,
        BuiltIn::CharUpperCase => 21,
        BuiltIn::CharWhitespace => 22,
        BuiltIn::Cons => 23,
        BuiltIn::DigitValue => 24,
        BuiltIn::Divide => 25,
        BuiltIn::Eq => 26,
        BuiltIn::Equal => 27,
        BuiltIn::Eqv => 28,
        BuiltIn::Even => 29,
        BuiltIn::Gt => 30,
        BuiltIn::GtEq => 31,
        BuiltIn::InexactExact => 32,
        BuiltIn::IntegerToChar => 33,
        BuiltIn::IsBoolean => 34,
        BuiltIn::IsChar => 35,
        BuiltIn::IsList => 36,
        BuiltIn::IsNull => 37,
        BuiltIn::IsNumber => 38,
        BuiltIn::IsPair => 39,
        BuiltIn::IsPort => 40,
        BuiltIn::IsProcedure => 41,
        BuiltIn::IsString => 42,
        BuiltIn::IsSymbol => 43,
        BuiltIn::IsVector => 44,
        BuiltIn::ListRef => 45,
        BuiltIn::ListTail => 46,
        BuiltIn::ListToString => 47,
        BuiltIn::ListToVector => 48,
        BuiltIn::Lt => 49,
        BuiltIn::LtEq => 50,
        BuiltIn::MakeString => 51,
        BuiltIn::MakeVector => 52,
        BuiltIn::Minus => 53,
        BuiltIn::Multiply => 54,
        BuiltIn::Negative => 55,
        BuiltIn::Not => 56,
        BuiltIn::NumEqual => 57,
        BuiltIn::Odd => 58,
        BuiltIn::Plus => 59,
        BuiltIn::Positive => 60,
        BuiltIn::Quotient => 61,
        BuiltIn::Remainder => 62,
        BuiltIn::Reverse => 63,
        BuiltIn::SetCar => 64,
        BuiltIn::SetCdr => 65,
        BuiltIn::String => 66,
        BuiltIn::StringAppend => 67,
        BuiltIn::StringCiEqual => 68,
        BuiltIn::StringCiGt => 69,
        BuiltIn::StringCiGtEq => 70,
        BuiltIn::StringCiLt => 71,
        BuiltIn::StringCiLtEq => 72,
        BuiltIn::StringCopy => 73,
        BuiltIn::StringDowncase => 74,
        BuiltIn::StringEqual => 75,
        BuiltIn::StringFill => 76,
        BuiltIn::StringFoldcase => 77,
        BuiltIn::StringGt => 78,
        BuiltIn::StringGtEq => 79,
        BuiltIn::StringLength => 80,
        BuiltIn::StringLt => 81,
        BuiltIn::StringLtEq => 82,
        BuiltIn::StringRef => 83,
        BuiltIn::StringSet => 84,
        BuiltIn::StringToList => 85,
        BuiltIn::StringToSymbol => 86,
        BuiltIn::StringToVector => 87,
        BuiltIn::StringUpcase => 88,
        BuiltIn::Substring => 89,
        BuiltIn::SymbolEqual => 90,
        BuiltIn::SymbolToString => 91,
        BuiltIn::Vector => 92,
        BuiltIn::VectorFill => 93,
        BuiltIn::VectorLength => 94,
        BuiltIn::VectorRef => 95,
        BuiltIn::VectorSet => 96,
        BuiltIn::VectorToList => 97,
        BuiltIn::VectorToString => 98,
        BuiltIn::Zero => 99,
    }
}

/// Every native procedure stands in the catalog, at its position.
pub proof fn lemma_position(f: BuiltIn)
    ensures
        0 <= position(f) < CATALOG_LEN,
        entry(position(f)) == f,
{
}

/// The position of a native procedure is where the catalog has it.
pub proof fn lemma_entry(i: int)
    requires
        0 <= i < CATALOG_LEN,
    ensures
        position(entry(i)) == i,
{
}

/// The machine as it is after the first `n` native procedures were
/// registered in an empty one: the cell, the symbol and the global slot
/// at each position below `n` are those of the procedure at that position
/// of the catalog, and nothing else is in it.
pub open spec fn stocked(m: Machine, n: nat) -> bool {
    &&& m.stack == Seq::<VCell>::empty()
    &&& m.heap.vectors == Seq::<Seq<usize>>::empty()
    &&& m.heap.strings == Seq::<Seq<char>>::empty()
    &&& m.heap.codes == HeapView::empty().codes
    &&& m.heap.cells.len() == n
    &&& m.heap.symbols.len() == n
    &&& m.globals.len() == n
    &&& forall|k: int|
        0 <= k < n ==> {
            &&& #[trigger] m.heap.cells[k] == VCell::BuiltIn(entry(k))
            &&& m.heap.symbols[k] == name(entry(k))
            &&& m.globals[k] == VCell::Ptr(k as usize)
        }
}

/// Registering the first `n` native procedures in an empty machine
/// leaves it so stocked.
pub proof fn lemma_loaded(n: nat)
    requires
        n <= CATALOG_LEN,
    ensures
        stocked(loaded(blank(), n), n),
    decreases n,
{
    if n > 0 {
        let k = (n - 1) as nat;
        lemma_loaded(k);
        let m = loaded(blank(), k);
        let f = entry(k as int);
        let heap = m.heap.put(VCell::BuiltIn(f));
        assert forall|j: int| 0 <= j < heap.symbols.len() implies heap.symbols[j] != name(f) by {
            assert(m.heap.cells[j] == VCell::BuiltIn(entry(j)));
            lemma_names_differ(entry(j), f);
            lemma_entry(j);
            lemma_entry(k as int);
        }
        assert(!heap.symbols.contains(name(f)));
        let next = heap.interned(name(f));
        assert(next.symbols[k as int] == name(f));
        lemma_handle(next, name(f), k as int);
        let after = registered(m, name(f), f);
        assert forall|j: int| 0 <= j < n implies {
            &&& #[trigger] after.heap.cells[j] == VCell::BuiltIn(entry(j))
            &&& after.heap.symbols[j] == name(entry(j))
            &&& after.globals[j] == VCell::Ptr(j as usize)
        } by {
            if j < k {
                assert(m.heap.cells[j] == VCell::BuiltIn(entry(j)));
            }
        }
    }
}

/// The handle of a name is the one place where the symbols have it.
pub proof fn lemma_handle(h: HeapView, name: Seq<char>, k: int)
    requires
        0 <= k < h.symbols.len() <= usize::MAX,
        h.symbols[k] == name,
        forall|j: int| 0 <= j < h.symbols.len() && j != k ==> h.symbols[j] != name,
    ensures
        h.handle_of(name) == k,
        h.symbols.contains(name),
{
    let s = k as usize;
    assert(s < h.symbols.len() && h.symbols[s as int] == name);
}

/// The machine as [`crate::vm::Vm::new`] leaves it.
pub open spec fn fresh() -> Machine {
    registered(loaded(blank(), CATALOG_LEN as nat), "%"@, BuiltIn::Remainder)
}

/// What the global variable of a name holds in a machine: `Undefined`
/// where the name is no symbol or its variable has no slot.
pub open spec fn global(m: Machine, name: Seq<char>) -> VCell {
    if m.heap.symbols.contains(name) && m.heap.handle_of(name) < m.globals.len() {
        m.heap.deref(m.globals[m.heap.handle_of(name) as int])
    } else {
        VCell::Undefined
    }
}

/// In a new machine every native procedure is the value of the global
/// variable of its name, and `remainder` that of `%` as well.
pub proof fn law_bindings(f: BuiltIn)
    ensures
        global(fresh(), name(f)) == VCell::BuiltIn(f),
        global(fresh(), "%"@) == VCell::BuiltIn(BuiltIn::Remainder),
{
    let n = CATALOG_LEN as nat;
    lemma_loaded(n);
    let m = loaded(blank(), n);
    let heap = m.heap.put(VCell::BuiltIn(BuiltIn::Remainder));
    assert forall|j: int| 0 <= j < heap.symbols.len() implies heap.symbols[j] != "%"@ by {
        assert(m.heap.cells[j] == VCell::BuiltIn(entry(j)));
        lemma_names_differ(entry(j), f);
    }
    assert(!heap.symbols.contains("%"@));
    let next = heap.interned("%"@);
    assert(next.symbols[n as int] == "%"@);
    lemma_handle(next, "%"@, n as int);
    let k = position(f);
    lemma_position(f);
    assert(m.heap.cells[k] == VCell::BuiltIn(entry(k)));
    assert(next.symbols[k] == name(f));
    assert forall|j: int| 0 <= j < next.symbols.len() && j != k implies next.symbols[j] != name(
        f,
    ) by {
        if j < n {
            assert(m.heap.cells[j] == VCell::BuiltIn(entry(j)));
            lemma_names_differ(entry(j), f);
            lemma_entry(j);
        } else {
            lemma_names_differ(f, f);
        }
    }
    lemma_handle(next, name(f), k);
}

/// The stack `s` with a frame on it: the arguments, first argument
/// first, and their count on top.
pub open spec fn framed(s: Seq<VCell>, args: Seq<VCell>) -> Seq<VCell> {
    s + args + seq![VCell::Argc(args.len() as usize)]
}

/// The call of a native procedure on a frame of values, as many as it
/// takes: the frame is off the stack, the globals are as they were, and
/// heap and result are as the procedure's effect says.
pub proof fn law_call(
    f: BuiltIn,
    pre: Vm,
    post: Vm,
    r: Result<VCell, Error>,
    s: Seq<VCell>,
    args: Seq<VCell>,
)
    requires
        args.len() <= usize::MAX,
        arity_ok(args.len() as usize, min_args(f), max_args(f)),
        all_values(args),
        pre.stack@ == framed(s, args),
        applied(f, pre, post, r),
    ensures
        post.stack@ == s,
        post.globenv@ == pre.globenv@,
        effect(f, pre.heap@, args, post.heap@, outcome(r)),
{
    let st = framed(s, args);
    let n = args.len();
    assert(st.last() == VCell::Argc(n as usize));
    assert(st.subrange(st.len() - 1 - n, st.len() - 1) =~= args);
    assert(st.take(st.len() - 1 - n) =~= s);
}

/// In a new machine `string-length` names the procedure that returns,
/// for a string, the number of its characters: of Unicode scalar values,
/// not of bytes. Only a length that no number holds is an error.
pub proof fn law_string_length_by_name(
    pre: Vm,
    post: Vm,
    r: Result<VCell, Error>,
    s: Seq<VCell>,
    v: VCell,
)
    requires
        v.is_value(),
        pre.heap@.deref(v) is String,
        pre.stack@ == framed(s, seq![v]),
        applied(BuiltIn::StringLength, pre, post, r),
    ensures
        global(fresh(), "string-length"@) == VCell::BuiltIn(BuiltIn::StringLength),
        ({
            let n = pre.heap@.string(pre.heap@.deref(v)->String_0).len();
            &&& r is Ok <==> n <= i64::MAX
            &&& r matches Ok(w) ==> w == VCell::Number(Number::Fixnum(n as i64))
                && Number::Fixnum(n as i64)@.num == n
        }),
        post.stack@ == s,
        post.heap@ == pre.heap@,
{
    law_bindings(BuiltIn::StringLength);
    law_call(BuiltIn::StringLength, pre, post, r, s, seq![v]);
    law_string_length(pre.heap@, v);
}

/// In a new machine `list->string` and `string->list` name procedures of
/// which the second, called with the string that the first returned for a
/// list of characters, returns a list of the same characters, which is
/// `equal?` to the first.
pub proof fn law_string_round_trip_by_name(
    a: Vm,
    b: Vm,
    r1: Result<VCell, Error>,
    c: Vm,
    d: Vm,
    r2: Result<VCell, Error>,
    s: Seq<VCell>,
    t: Seq<VCell>,
    xs: VCell,
)
    requires
        a.wf(),
        b.wf(),
        d.wf(),
        a.heap@.holds(xs),
        is_list(a.heap@, a.heap@.deref(xs)),
        element_chars(a.heap@, elements(a.heap@, a.heap@.deref(xs)), "list->string"@) is Ok,
        a.stack@ == framed(s, seq![xs]),
        applied(BuiltIn::ListToString, a, b, r1),
        r1 matches Ok(v) ==> c.heap@ == b.heap@ && c.stack@ == framed(t, seq![v]),
        applied(BuiltIn::StringToList, c, d, r2),
    ensures
        global(fresh(), "string->list"@) == VCell::BuiltIn(BuiltIn::StringToList),
        global(fresh(), "list->string"@) == VCell::BuiltIn(BuiltIn::ListToString),
        r1 is Ok,
        r2 is Ok,
        b.stack@ == s,
        d.stack@ == t,
        is_list(d.heap@, d.heap@.deref(r2->Ok_0)),
        element_chars(d.heap@, elements(d.heap@, d.heap@.deref(r2->Ok_0)), "list->string"@)
            == element_chars(a.heap@, elements(a.heap@, a.heap@.deref(xs)), "list->string"@),
        equal_cells(d.heap@, r2->Ok_0, xs),
{
    law_bindings(BuiltIn::ListToString);
    law_bindings(BuiltIn::StringToList);
    law_call(BuiltIn::ListToString, a, b, r1, s, seq![xs]);
    if r1 is Ok {
        law_call(BuiltIn::StringToList, c, d, r2, t, seq![r1->Ok_0]);
    }
    law_string_round_trip(a.heap@, xs, b.heap@, outcome(r1), d.heap@, outcome(r2));
}

/// In a new machine `char->integer` and `integer->char` name procedures
/// of which the second, called with the number that the first returned
/// for a character, returns that character.
pub proof fn law_char_integer_round_trip_by_name(
    a: Vm,
    b: Vm,
    r1: Result<VCell, Error>,
    c: Vm,
    d: Vm,
    r2: Result<VCell, Error>,
    s: Seq<VCell>,
    t: Seq<VCell>,
    v: VCell,
)
    requires
        v.is_value(),
        a.heap@.deref(v) is Char,
        a.stack@ == framed(s, seq![v]),
        applied(BuiltIn::CharToInteger, a, b, r1),
        r1 matches Ok(w) ==> c.heap@ == b.heap@ && c.stack@ == framed(t, seq![w]),
        applied(BuiltIn::IntegerToChar, c, d, r2),
    ensures
        global(fresh(), "integer->char"@) == VCell::BuiltIn(BuiltIn::IntegerToChar),
        global(fresh(), "char->integer"@) == VCell::BuiltIn(BuiltIn::CharToInteger),
        r1 is Ok,
        outcome(r2) == Ok::<VCell, ErrorView>(a.heap@.deref(v)),
        b.stack@ == s,
        d.stack@ == t,
{
    law_bindings(BuiltIn::CharToInteger);
    law_bindings(BuiltIn::IntegerToChar);
    law_call(BuiltIn::CharToInteger, a, b, r1, s, seq![v]);
    let w = r1->Ok_0;
    law_call(BuiltIn::IntegerToChar, c, d, r2, t, seq![w]);
    law_char_integer_round_trip(a.heap@, v, b.heap@, w);
}

/// In a new machine `make-vector` names the procedure that, called with
/// a size that is an integer and not negative, returns a vector of that
/// size of which every slot holds the fill value, or the number zero
/// where none is given. Only a size that is no address of this machine is
/// refused.
pub proof fn law_make_vector_by_name(
    pre: Vm,
    post: Vm,
    r: Result<VCell, Error>,
    s: Seq<VCell>,
    args: Seq<VCell>,
    i: int,
)
    requires
        pre.wf(),
        1 <= args.len() <= 2,
        args[0].is_value(),
        args.len() == 2 ==> pre.heap@.holds(args[1]),
        pre.heap@.deref(args[0]) is Number,
        pre.heap@.deref(args[0])->Number_0.spec_is_integer(),
        pre.heap@.deref(args[0])->Number_0@.num >= 0,
        pre.stack@ == framed(s, args),
        applied(BuiltIn::MakeVector, pre, post, r),
    ensures
        global(fresh(), "make-vector"@) == VCell::BuiltIn(BuiltIn::MakeVector),
        post.stack@ == s,
        r is Ok <==> pre.heap@.deref(args[0])->Number_0@.num <= usize::MAX,
        r matches Ok(v) ==> v matches VCell::Vector(w) && post.heap@.vector(w).len()
            == pre.heap@.deref(args[0])->Number_0@.num && (0 <= i < post.heap@.vector(w).len()
            ==> post.heap@.at(post.heap@.vector(w)[i]) == (if args.len() == 2 {
            pre.heap@.deref(args[1])
        } else {
            VCell::Number(Number::Fixnum(0))
        })),
{
    law_bindings(BuiltIn::MakeVector);
    law_call(BuiltIn::MakeVector, pre, post, r, s, args);
    law_make_vector_filled(pre.heap@, args, post.heap@, outcome(r), i);
}

/// In a new machine `make-string` names the procedure that, called with
/// a length that is an integer and not negative, returns a string of that
/// length of which every character is the fill character, or the null
/// character where none is given. Only a length that is no index of this
/// machine is refused.
pub proof fn law_make_string_by_name(
    pre: Vm,
    post: Vm,
    r: Result<VCell, Error>,
    s: Seq<VCell>,
    args: Seq<VCell>,
    i: int,
)
    requires
        pre.wf(),
        1 <= args.len() <= 2,
        all_values(args),
        args.len() == 2 ==> pre.heap@.deref(args[1]) is Char,
        pre.heap@.deref(args[0]) is Number,
        pre.heap@.deref(args[0])->Number_0.spec_is_integer(),
        pre.heap@.deref(args[0])->Number_0@.num >= 0,
        pre.stack@ == framed(s, args),
        applied(BuiltIn::MakeString, pre, post, r),
    ensures
        global(fresh(), "make-string"@) == VCell::BuiltIn(BuiltIn::MakeString),
        post.stack@ == s,
        r is Ok <==> pre.heap@.deref(args[0])->Number_0@.num <= usize::MAX,
        r matches Ok(v) ==> v matches VCell::String(w) && post.heap@.string(w).len()
            == pre.heap@.deref(args[0])->Number_0@.num && (0 <= i < post.heap@.string(w).len()
            ==> post.heap@.string(w)[i] == (if args.len() == 2 {
            pre.heap@.deref(args[1])->Char_0
        } else {
            '\0'
        })),
{
    law_bindings(BuiltIn::MakeString);
    law_call(BuiltIn::MakeString, pre, post, r, s, args);
    law_make_string_filled(pre.heap@, args, post.heap@, outcome(r), i);
}

/// In a new machine `+` names the procedure that, called with any number
/// of values, leaves the heap as it is and returns their sum, or the
/// first error on the way to it.
pub proof fn law_plus_call(
    pre: Vm,
    post: Vm,
    r: Result<VCell, Error>,
    s: Seq<VCell>,
    args: Seq<VCell>,
)
    requires
        args.len() <= usize::MAX,
        all_values(args),
        pre.stack@ == framed(s, args),
        applied(BuiltIn::Plus, pre, post, r),
    ensures
        global(fresh(), "+"@) == VCell::BuiltIn(BuiltIn::Plus),
        outcome(r) == plus_result(pre.heap@, args),
        post.stack@ == s,
        post.heap@ == pre.heap@,
{
    law_bindings(BuiltIn::Plus);
    law_call(BuiltIn::Plus, pre, post, r, s, args);
}

/// In a new machine `+` names the procedure that, called with two
/// numbers, returns their sum as a fraction in lowest terms, in either
/// order: the number that holds it where its two parts fit, and the error
/// of a result out of range where they do not.
pub proof fn law_plus_by_name(
    a: Vm,
    b: Vm,
    r1: Result<VCell, Error>,
    c: Vm,
    d: Vm,
    r2: Result<VCell, Error>,
    s: Seq<VCell>,
    t: Seq<VCell>,
    x: VCell,
    y: VCell,
)
    requires
        a.wf(),
        a.heap@.holds(x),
        a.heap@.holds(y),
        a.heap@.deref(x) is Number,
        a.heap@.deref(y) is Number,
        a.stack@ == framed(s, seq![x, y]),
        applied(BuiltIn::Plus, a, b, r1),
        c.heap@ == a.heap@,
        c.stack@ == framed(t, seq![y, x]),
        applied(BuiltIn::Plus, c, d, r2),
    ensures
        global(fresh(), "+"@) == VCell::BuiltIn(BuiltIn::Plus),
        ({
            let m = a.heap@.deref(x)->Number_0;
            let n = a.heap@.deref(y)->Number_0;
            let sum = m@.num * n@.den + n@.num * m@.den;
            &&& outcome(r1) == checked_value("+"@, m.spec_add(n))
            &&& outcome(r2) == outcome(r1)
            &&& r1 is Ok <==> fits(reduce(sum, m@.den * n@.den))
            &&& r1 matches Ok(v) ==> v matches VCell::Number(k) && k.valid() && lowest(k@)
                && k@.num * (m@.den * n@.den) == sum * k@.den
            &&& b.stack@ == s
            &&& d.stack@ == t
            &&& b.heap@ == a.heap@
            &&& d.heap@ == a.heap@
        }),
{
    law_plus_call(a, b, r1, s, seq![x, y]);
    law_plus_call(c, d, r2, t, seq![y, x]);
    law_plus_sum(a.heap@, x, y);
}

/// In a new machine `+` names the procedure that returns the same for
/// three numbers whichever two are added first, where the sums of the
/// first two and of the last two are numbers: called with the sum of the
/// first two and the third, and with the first and the sum of the last
/// two.
#[verifier::rlimit(40)]
pub proof fn law_plus_associative_by_name(
    h: HeapView,
    x: VCell,
    y: VCell,
    z: VCell,
    xy: VCell,
    yz: VCell,
    a: Vm,
    b: Vm,
    r1: Result<VCell, Error>,
    c: Vm,
    d: Vm,
    r2: Result<VCell, Error>,
    s: Seq<VCell>,
)
    requires
        h.wf(),
        h.holds(x),
        h.holds(y),
        h.holds(z),
        h.deref(x) is Number,
        h.deref(y) is Number,
        h.deref(z) is Number,
        plus_result(h, seq![x, y]) == Ok::<VCell, ErrorView>(xy),
        plus_result(h, seq![y, z]) == Ok::<VCell, ErrorView>(yz),
        a.heap@ == h,
        c.heap@ == h,
        a.stack@ == framed(s, seq![xy, z]),
        c.stack@ == framed(s, seq![x, yz]),
        applied(BuiltIn::Plus, a, b, r1),
        applied(BuiltIn::Plus, c, d, r2),
    ensures
        global(fresh(), "+"@) == VCell::BuiltIn(BuiltIn::Plus),
        outcome(r1) == outcome(r2),
        b.stack@ == s,
        d.stack@ == s,
{
    assert(xy is Number && yz is Number);
    assert(all_values(seq![xy, z]));
    assert(all_values(seq![x, yz]));
    law_plus_call(a, b, r1, s, seq![xy, z]);
    law_plus_call(c, d, r2, s, seq![x, yz]);
    law_plus_associative(h, x, y, z, xy, yz);
}

/// In a new machine `+` names the procedure that returns the same for
/// three numbers at once as for the first and the sum of the last two,
/// where that sum is a number.
pub proof fn law_plus_of_three_by_name(
    h: HeapView,
    x: VCell,
    y: VCell,
    z: VCell,
    yz: VCell,
    a: Vm,
    b: Vm,
    r1: Result<VCell, Error>,
    c: Vm,
    d: Vm,
    r2: Result<VCell, Error>,
    s: Seq<VCell>,
)
    requires
        h.wf(),
        h.holds(x),
        h.holds(y),
        h.holds(z),
        h.deref(x) is Number,
        h.deref(y) is Number,
        h.deref(z) is Number,
        plus_result(h, seq![y, z]) == Ok::<VCell, ErrorView>(yz),
        a.heap@ == h,
        c.heap@ == h,
        a.stack@ == framed(s, seq![x, y, z]),
        c.stack@ == framed(s, seq![x, yz]),
        applied(BuiltIn::Plus, a, b, r1),
        applied(BuiltIn::Plus, c, d, r2),
    ensures
        global(fresh(), "+"@) == VCell::BuiltIn(BuiltIn::Plus),
        outcome(r1) == outcome(r2),
        b.stack@ == s,
        d.stack@ == s,
{
    assert(yz is Number);
    assert(all_values(seq![x, y, z]));
    assert(all_values(seq![x, yz]));
    law_plus_call(a, b, r1, s, seq![x, y, z]);
    law_plus_call(c, d, r2, s, seq![x, yz]);
    law_plus_of_three(h, x, y, z, yz);
}

/// In a new machine `eqv?` names the procedure that says yes to every
/// value and itself.
pub proof fn law_eqv_reflexive_by_name(
    pre: Vm,
    post: Vm,
    r: Result<VCell, Error>,
    s: Seq<VCell>,
    v: VCell,
)
    requires
        v.is_value(),
        pre.stack@ == framed(s, seq![v, v]),
        applied(BuiltIn::Eqv, pre, post, r),
    ensures
        global(fresh(), "eqv?"@) == VCell::BuiltIn(BuiltIn::Eqv),
        outcome(r) == Ok::<VCell, ErrorView>(VCell::Bool(true)),
        post.stack@ == s,
        post.heap@ == pre.heap@,
{
    law_bindings(BuiltIn::Eqv);
    law_call(BuiltIn::Eqv, pre, post, r, s, seq![v, v]);
    law_eqv_reflexive(pre.heap@, v);
}

/// In a new machine `equal?` names the procedure that says of two values
/// the same in either order.
pub proof fn law_equal_symmetric_by_name(
    a: Vm,
    b: Vm,
    r1: Result<VCell, Error>,
    c: Vm,
    d: Vm,
    r2: Result<VCell, Error>,
    s: Seq<VCell>,
    t: Seq<VCell>,
    x: VCell,
    y: VCell,
)
    requires
        x.is_value(),
        y.is_value(),
        a.stack@ == framed(s, seq![x, y]),
        applied(BuiltIn::Equal, a, b, r1),
        c.heap@ == a.heap@,
        c.stack@ == framed(t, seq![y, x]),
        applied(BuiltIn::Equal, c, d, r2),
    ensures
        global(fresh(), "equal?"@) == VCell::BuiltIn(BuiltIn::Equal),
        r1 is Ok,
        outcome(r2) == outcome(r1),
        b.stack@ == s,
        d.stack@ == t,
{
    law_bindings(BuiltIn::Equal);
    law_call(BuiltIn::Equal, a, b, r1, s, seq![x, y]);
    law_call(BuiltIn::Equal, c, d, r2, t, seq![y, x]);
    law_equal_symmetric(a.heap@, x, y);
}

/// In a new machine `equal?` names the procedure that, where it says yes
/// to a first and a second value, and to the second and a third, says yes
/// to the first and the third.
pub proof fn law_equal_transitive_by_name(
    h: HeapView,
    x: VCell,
    y: VCell,
    z: VCell,
    a: Vm,
    b: Vm,
    r1: Result<VCell, Error>,
    c: Vm,
    d: Vm,
    r2: Result<VCell, Error>,
    e: Vm,
    g: Vm,
    r3: Result<VCell, Error>,
    s: Seq<VCell>,
)
    requires
        h.wf(),
        h.holds(x),
        h.holds(y),
        h.holds(z),
        a.heap@ == h,
        c.heap@ == h,
        e.heap@ == h,
        a.stack@ == framed(s, seq![x, y]),
        c.stack@ == framed(s, seq![y, z]),
        e.stack@ == framed(s, seq![x, z]),
        applied(BuiltIn::Equal, a, b, r1),
        applied(BuiltIn::Equal, c, d, r2),
        applied(BuiltIn::Equal, e, g, r3),
        r1 == Ok::<VCell, Error>(VCell::Bool(true)),
        r2 == Ok::<VCell, Error>(VCell::Bool(true)),
    ensures
        global(fresh(), "equal?"@) == VCell::BuiltIn(BuiltIn::Equal),
        r3 == Ok::<VCell, Error>(VCell::Bool(true)),
{
    law_bindings(BuiltIn::Equal);
    law_call(BuiltIn::Equal, a, b, r1, s, seq![x, y]);
    law_call(BuiltIn::Equal, c, d, r2, s, seq![y, z]);
    law_call(BuiltIn::Equal, e, g, r3, s, seq![x, z]);
    law_equal_transitive(h, x, y, z);
}

/// In a new machine `cons`, `car` and `cdr` name procedures of which the
/// second and the third return, for the pair that the first made of two
/// values, pointers to what the first and the second value stand for;
/// where a value was a pointer, that pointer itself.
#[verifier::rlimit(40)]
pub proof fn law_car_cdr_of_cons_by_name(
    a: Vm,
    b: Vm,
    r1: Result<VCell, Error>,
    c: Vm,
    d: Vm,
    r2: Result<VCell, Error>,
    e: Vm,
    g: Vm,
    r3: Result<VCell, Error>,
    s: Seq<VCell>,
    x: VCell,
    y: VCell,
)
    requires
        a.wf(),
        c.wf(),
        a.heap@.holds(x),
        a.heap@.holds(y),
        a.stack@ == framed(s, seq![x, y]),
        applied(BuiltIn::Cons, a, b, r1),
        r1 matches Ok(pair) ==> {
            &&& c.heap@ == b.heap@.put(pair)
            &&& e.heap@ == c.heap@
            &&& c.stack@ == framed(s, seq![b.heap@.put_ptr(pair)])
            &&& e.stack@ == c.stack@
        },
        applied(BuiltIn::Car, c, d, r2),
        applied(BuiltIn::Cdr, e, g, r3),
    ensures
        global(fresh(), "cdr"@) == VCell::BuiltIn(BuiltIn::Cdr),
        global(fresh(), "car"@) == VCell::BuiltIn(BuiltIn::Car),
        global(fresh(), "cons"@) == VCell::BuiltIn(BuiltIn::Cons),
        r1 is Ok,
        r2 matches Ok(first) && first is Ptr && d.heap@.deref(first) == a.heap@.deref(x) && (x is Ptr
            ==> first == x),
        r3 matches Ok(second) && second is Ptr && g.heap@.deref(second) == a.heap@.deref(y) && (y
            is Ptr ==> second == y),
        b.stack@ == s,
        d.stack@ == s,
        g.stack@ == s,
{
    law_bindings(BuiltIn::Cons);
    law_bindings(BuiltIn::Car);
    law_bindings(BuiltIn::Cdr);
    law_call(BuiltIn::Cons, a, b, r1, s, seq![x, y]);
    let pair = r1->Ok_0;
    let v = b.heap@.put_ptr(pair);
    law_call(BuiltIn::Car, c, d, r2, s, seq![v]);
    law_call(BuiltIn::Cdr, e, g, r3, s, seq![v]);
}

/// In a new machine `reverse` names the procedure that returns, for a
/// proper list, a list of the same elements in reverse order, and so of
/// the same length; the list itself stays as it is.
pub proof fn law_reverse_by_name(
    pre: Vm,
    post: Vm,
    r: Result<VCell, Error>,
    s: Seq<VCell>,
    list: VCell,
)
    requires
        pre.wf(),
        post.wf(),
        pre.heap@.holds(list),
        is_list(pre.heap@, pre.heap@.deref(list)),
        pre.stack@ == framed(s, seq![list]),
        applied(BuiltIn::Reverse, pre, post, r),
    ensures
        global(fresh(), "reverse"@) == VCell::BuiltIn(BuiltIn::Reverse),
        r is Ok,
        list_of(
            post.heap@,
            post.heap@.deref(r->Ok_0),
            elements(pre.heap@, pre.heap@.deref(list)).reverse(),
        ),
        elements(post.heap@, post.heap@.deref(r->Ok_0)).len() == elements(
            pre.heap@,
            pre.heap@.deref(list),
        ).len(),
        list_of(post.heap@, post.heap@.deref(list), elements(pre.heap@, pre.heap@.deref(list))),
        post.stack@ == s,
{
    law_bindings(BuiltIn::Reverse);
    law_call(BuiltIn::Reverse, pre, post, r, s, seq![list]);
    law_reverse(pre.heap@, list, post.heap@, outcome(r));
}

/// In a new machine `reverse` names the procedure that, called with the
/// list that it returned for a proper list, returns a list of the
/// elements of the first, which is `equal?` to the first.
pub proof fn law_reverse_twice_by_name(
    a: Vm,
    b: Vm,
    r1: Result<VCell, Error>,
    c: Vm,
    d: Vm,
    r2: Result<VCell, Error>,
    s: Seq<VCell>,
    t: Seq<VCell>,
    list: VCell,
)
    requires
        a.wf(),
        b.wf(),
        d.wf(),
        a.heap@.holds(list),
        is_list(a.heap@, a.heap@.deref(list)),
        a.stack@ == framed(s, seq![list]),
        applied(BuiltIn::Reverse, a, b, r1),
        r1 matches Ok(v) ==> c.heap@ == b.heap@ && c.stack@ == framed(t, seq![v]),
        applied(BuiltIn::Reverse, c, d, r2),
    ensures
        global(fresh(), "reverse"@) == VCell::BuiltIn(BuiltIn::Reverse),
        r1 is Ok,
        r2 is Ok,
        elements(d.heap@, d.heap@.deref(r2->Ok_0)) == elements(a.heap@, a.heap@.deref(list)),
        equal_cells(d.heap@, r2->Ok_0, list),
        b.stack@ == s,
        d.stack@ == t,
{
    law_bindings(BuiltIn::Reverse);
    law_call(BuiltIn::Reverse, a, b, r1, s, seq![list]);
    if r1 is Ok {
        law_call(BuiltIn::Reverse, c, d, r2, t, seq![r1->Ok_0]);
    }
    law_reverse_twice(a.heap@, list, b.heap@, outcome(r1), d.heap@, outcome(r2));
}

/// In a new machine `append` names the procedure that returns, for a
/// proper list and a value, a proper list just where the value is one,
/// and then its elements are those of the list and behind them those of
/// the value.
pub proof fn law_append_by_name(
    pre: Vm,
    post: Vm,
    r: Result<VCell, Error>,
    s: Seq<VCell>,
    xs: VCell,
    ys: VCell,
)
    requires
        pre.wf(),
        post.wf(),
        pre.heap@.holds(xs),
        pre.heap@.holds(ys),
        is_list(pre.heap@, pre.heap@.deref(xs)),
        pre.stack@ == framed(s, seq![xs, ys]),
        applied(BuiltIn::Append, pre, post, r),
    ensures
        global(fresh(), "append"@) == VCell::BuiltIn(BuiltIn::Append),
        r is Ok,
        is_list(post.heap@, post.heap@.deref(r->Ok_0)) == is_list(pre.heap@, pre.heap@.deref(ys)),
        is_list(pre.heap@, pre.heap@.deref(ys)) ==> elements(
            post.heap@,
            post.heap@.deref(r->Ok_0),
        ) == elements(pre.heap@, pre.heap@.deref(xs)) + elements(pre.heap@, pre.heap@.deref(ys)),
        post.stack@ == s,
{
    law_bindings(BuiltIn::Append);
    law_call(BuiltIn::Append, pre, post, r, s, seq![xs, ys]);
    law_append(pre.heap@, xs, ys, post.heap@, outcome(r));
}

/// In a new machine `vector->list` and `list->vector` name procedures of
/// which the second, called with the list that the first returned for a
/// vector, returns a vector with the same slots, which is `equal?` to the
/// first.
pub proof fn law_vector_round_trip_by_name(
    a: Vm,
    b: Vm,
    r1: Result<VCell, Error>,
    c: Vm,
    d: Vm,
    r2: Result<VCell, Error>,
    s: Seq<VCell>,
    t: Seq<VCell>,
    v: VCell,
)
    requires
        a.wf(),
        b.wf(),
        d.wf(),
        a.heap@.holds(v),
        a.heap@.deref(v) is Vector,
        a.stack@ == framed(s, seq![v]),
        applied(BuiltIn::VectorToList, a, b, r1),
        r1 matches Ok(list) ==> c.heap@ == b.heap@ && c.stack@ == framed(t, seq![list]),
        applied(BuiltIn::ListToVector, c, d, r2),
    ensures
        global(fresh(), "list->vector"@) == VCell::BuiltIn(BuiltIn::ListToVector),
        global(fresh(), "vector->list"@) == VCell::BuiltIn(BuiltIn::VectorToList),
        r1 is Ok,
        r2 matches Ok(VCell::Vector(w)) && d.heap@.vector(w) == a.heap@.vector(
            a.heap@.deref(v)->Vector_0,
        ),
        equal_cells(d.heap@, r2->Ok_0, v),
        b.stack@ == s,
        d.stack@ == t,
{
    law_bindings(BuiltIn::VectorToList);
    law_bindings(BuiltIn::ListToVector);
    law_call(BuiltIn::VectorToList, a, b, r1, s, seq![v]);
    if r1 is Ok {
        law_call(BuiltIn::ListToVector, c, d, r2, t, seq![r1->Ok_0]);
    }
    law_vector_round_trip(a.heap@, v, b.heap@, outcome(r1), d.heap@, outcome(r2));
}

} // verus!
