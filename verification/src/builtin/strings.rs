//! Strings and symbols.
use crate::builtin::chars::{char_arg, char_args, char_of, chars_of};
use crate::builtin::list::{build_list, chain_added, chain_head, list_error, list_error_for};
use crate::builtin::vector::{slots_of, vector_arg, vector_of, with_vector};
use crate::builtin::{all_hold, index_arg, index_of, pop_args, rendered_with};
use crate::error::{outcome, Error, ErrorView};
use crate::heap::{same_chars, Heap, HeapView};
use crate::list::{elements, is_list, lemma_elements, list_elements};
use crate::number::Number;
use crate::printer::{push_value, written, RENDER_DEPTH};
use crate::text::{char_at, push_chars, push_str, string_of};
use crate::unicode::{folded, simple_lower, simple_upper, to_simple_lower, to_simple_upper};
use crate::vcell::{BuiltIn, VCell};
use crate::vm::Vm;
use vstd::prelude::*;

verus! {

/// The handle of the string that an argument stands for.
pub open spec fn text_of(h: HeapView, v: VCell) -> Result<usize, ErrorView> {
    match h.deref(v) {
        VCell::String(handle) => Ok(handle),
        c => Err(ErrorView::InvalidSyntax(written(h, c) + " is not a valid string"@)),
    }
}

/// The handle of the symbol that an argument stands for.
pub open spec fn symbol_of(h: HeapView, v: VCell) -> Result<usize, ErrorView> {
    match h.deref(v) {
        VCell::Symbol(handle) => Ok(handle),
        c => Err(ErrorView::InvalidSyntax(written(h, c) + " is not a valid symbol"@)),
    }
}

/// The heap with one more string.
pub open spec fn with_string(h: HeapView, chars: Seq<char>) -> HeapView {
    HeapView { strings: h.strings.push(chars), ..h }
}

/// The heap with the characters of one string replaced.
pub open spec fn with_chars(h: HeapView, handle: usize, chars: Seq<char>) -> HeapView {
    HeapView { strings: h.strings.update(handle as int, chars), ..h }
}

/// The heap with more cells behind its cells.
pub open spec fn with_cells(h: HeapView, cells: Seq<VCell>) -> HeapView {
    HeapView { cells: h.cells + cells, ..h }
}

/// What a procedure does that returns a new string: it stores the
/// characters and returns the cell with their handle, or it fails and
/// leaves the heap as it was.
pub open spec fn makes_string(
    h: HeapView,
    made: Result<Seq<char>, ErrorView>,
    g: HeapView,
    r: Result<VCell, ErrorView>,
) -> bool {
    match made {
        Err(e) => g == h && r == Err::<VCell, ErrorView>(e),
        Ok(chars) => g == with_string(h, chars) && r == Ok::<VCell, ErrorView>(
            VCell::String(h.strings.len() as usize),
        ),
    }
}

/// `n` times the character `c`.
pub open spec fn repeated(c: char, n: nat) -> Seq<char> {
    Seq::new(n, |i: int| c)
}

/// The characters in upper case, each for itself.
pub open spec fn upper_text(chars: Seq<char>) -> Seq<char> {
    Seq::new(chars.len(), |i: int| simple_upper(chars[i]))
}

/// The characters in lower case, each for itself.
pub open spec fn lower_text(chars: Seq<char>) -> Seq<char> {
    Seq::new(chars.len(), |i: int| simple_lower(chars[i]))
}

/// The characters with their case folded away, each for itself.
pub open spec fn fold_text(chars: Seq<char>) -> Seq<char> {
    Seq::new(chars.len(), |i: int| folded(chars[i]))
}

/// The cell that holds the character at a place of a text.
pub open spec fn char_cell(chars: Seq<char>, i: int) -> VCell {
    VCell::Char(chars[i])
}

/// The cells that hold the characters.
pub open spec fn char_cells(chars: Seq<char>) -> Seq<VCell> {
    Seq::new(chars.len(), |i: int| char_cell(chars, i))
}

/// The `n` addresses from `base` on.
pub open spec fn run(base: nat, n: nat) -> Seq<usize> {
    Seq::new(n, |i: int| (base + i) as usize)
}

/// The part of a text of `len` characters that optional arguments pick:
/// from the index `args[at]`, or the start, to the index `args[at + 1]`,
/// or the end. The end may not lie before the start nor behind the text.
pub open spec fn range_of(h: HeapView, args: Seq<VCell>, at: int, len: nat) -> Result<
    (usize, usize),
    ErrorView,
> {
    match (if args.len() > at {
        index_of(h, args[at])
    } else {
        Ok(0usize)
    }) {
        Err(e) => Err(e),
        Ok(start) => match (if args.len() > at + 1 {
            index_of(h, args[at + 1])
        } else {
            Ok(len as usize)
        }) {
            Err(e) => Err(e),
            Ok(end) => if end < start {
                Err(ErrorView::InvalidSyntax("invalid substring indices: end < start"@))
            } else if end > len {
                Err(ErrorView::InvalidStringIndex(end, len as usize))
            } else {
                Ok((start, end))
            },
        },
    }
}

/// `make-string`: the size, then the fill character, which is the null
/// character where none is given.
pub open spec fn make_string_chars(h: HeapView, args: Seq<VCell>) -> Result<Seq<char>, ErrorView> {
    match index_of(h, args[0]) {
        Err(_) => Err(ErrorView::InvalidSyntax("make-string requires an integer size"@)),
        Ok(n) => match (if args.len() == 2 {
            char_of(h, args[1])
        } else {
            Ok('\0')
        }) {
            Err(e) => Err(e),
            Ok(c) => Ok(repeated(c, n as nat)),
        },
    }
}

/// The characters of the strings that the arguments stand for, one
/// string after the other.
pub open spec fn appended(h: HeapView, args: Seq<VCell>) -> Result<Seq<char>, ErrorView>
    decreases args.len(),
{
    if args.len() == 0 {
        Ok(Seq::empty())
    } else {
        match appended(h, args.drop_last()) {
            Err(e) => Err(e),
            Ok(front) => match text_of(h, args.last()) {
                Err(e) => Err(e),
                Ok(handle) => Ok(front + h.string(handle)),
            },
        }
    }
}

/// `substring` and `string-copy`: the part of the string `args[0]` that
/// the arguments behind it pick.
pub open spec fn substring_chars(h: HeapView, args: Seq<VCell>) -> Result<Seq<char>, ErrorView> {
    match text_of(h, args[0]) {
        Err(e) => Err(e),
        Ok(handle) => match range_of(h, args, 1, h.string(handle).len()) {
            Err(e) => Err(e),
            Ok((start, end)) => Ok(h.string(handle).subrange(start as int, end as int)),
        },
    }
}

/// The characters that the cells at the addresses hold. A cell that
/// holds none is an error of the procedure `name`.
pub open spec fn element_chars(h: HeapView, addrs: Seq<usize>, name: Seq<char>) -> Result<
    Seq<char>,
    ErrorView,
>
    decreases addrs.len(),
{
    if addrs.len() == 0 {
        Ok(Seq::empty())
    } else {
        match element_chars(h, addrs.drop_last(), name) {
            Err(e) => Err(e),
            Ok(front) => match h.at(addrs.last()) {
                VCell::Char(c) => Ok(front.push(c)),
                other => Err(
                    ErrorView::InvalidSyntax(
                        name + " expected char but found "@ + written(h, other),
                    ),
                ),
            },
        }
    }
}

/// `list->string`: the characters that are the elements of a proper list.
pub open spec fn list_to_string_chars(h: HeapView, args: Seq<VCell>) -> Result<
    Seq<char>,
    ErrorView,
> {
    let c = h.deref(args[0]);
    if is_list(h, c) {
        element_chars(h, elements(h, c), "list->string"@)
    } else {
        Err(list_error(h, c))
    }
}

/// `vector->string`: the characters in the slots of a vector that the
/// arguments behind it pick.
pub open spec fn vector_to_string_chars(h: HeapView, args: Seq<VCell>) -> Result<
    Seq<char>,
    ErrorView,
> {
    match vector_of(h, args[0]) {
        Err(e) => Err(e),
        Ok(handle) => match range_of(h, args, 1, h.vector(handle).len()) {
            Err(e) => Err(e),
            Ok((start, end)) => element_chars(
                h,
                h.vector(handle).subrange(start as int, end as int),
                "vector->string"@,
            ),
        },
    }
}

/// `symbol->string`: the name of a symbol.
pub open spec fn symbol_to_string_chars(h: HeapView, args: Seq<VCell>) -> Result<
    Seq<char>,
    ErrorView,
> {
    match symbol_of(h, args[0]) {
        Err(e) => Err(e),
        Ok(handle) => Ok(h.symbol(handle)),
    }
}

/// `string-upcase`, `string-downcase` and `string-foldcase`.
pub open spec fn case_chars(f: BuiltIn, h: HeapView, args: Seq<VCell>) -> Result<
    Seq<char>,
    ErrorView,
> {
    match text_of(h, args[0]) {
        Err(e) => Err(e),
        Ok(handle) => Ok(
            match f {
                BuiltIn::StringUpcase => upper_text(h.string(handle)),
                BuiltIn::StringDowncase => lower_text(h.string(handle)),
                _ => fold_text(h.string(handle)),
            },
        ),
    }
}

/// The characters of the new string that a procedure returns.
pub open spec fn made_chars(f: BuiltIn, h: HeapView, args: Seq<VCell>) -> Result<
    Seq<char>,
    ErrorView,
> {
    match f {
        BuiltIn::MakeString => make_string_chars(h, args),
        BuiltIn::String => chars_of(h, args),
        BuiltIn::StringAppend => appended(h, args),
        BuiltIn::Substring => substring_chars(h, args),
        BuiltIn::StringCopy => substring_chars(h, args),
        BuiltIn::ListToString => list_to_string_chars(h, args),
        BuiltIn::VectorToString => vector_to_string_chars(h, args),
        BuiltIn::SymbolToString => symbol_to_string_chars(h, args),
        _ => case_chars(f, h, args),
    }
}

/// What a procedure does that returns a new string.
pub open spec fn string_maker_effect(
    f: BuiltIn,
    h: HeapView,
    args: Seq<VCell>,
    g: HeapView,
    r: Result<VCell, ErrorView>,
) -> bool {
    makes_string(h, made_chars(f, h, args), g, r)
}

/// `string-length`: the number of characters.
pub open spec fn string_length_result(h: HeapView, args: Seq<VCell>) -> Result<VCell, ErrorView> {
    match text_of(h, args[0]) {
        Err(e) => Err(e),
        Ok(handle) => if h.string(handle).len() <= i64::MAX {
            Ok(VCell::Number(Number::Fixnum(h.string(handle).len() as i64)))
        } else {
            Err(crate::builtin::numeric::out_of_range("string-length"@))
        },
    }
}

/// `string-ref`: the character at the index.
pub open spec fn string_ref_result(h: HeapView, args: Seq<VCell>) -> Result<VCell, ErrorView> {
    match text_of(h, args[0]) {
        Err(e) => Err(e),
        Ok(handle) => match index_of(h, args[1]) {
            Err(e) => Err(e),
            Ok(idx) => if idx < h.string(handle).len() {
                Ok(VCell::Char(h.string(handle)[idx as int]))
            } else {
                Err(ErrorView::InvalidStringIndex(idx, h.string(handle).len() as usize))
            },
        },
    }
}

/// `string-set!`: the character at the index is replaced.
pub open spec fn string_set_effect(
    h: HeapView,
    args: Seq<VCell>,
    g: HeapView,
    r: Result<VCell, ErrorView>,
) -> bool {
    match text_of(h, args[0]) {
        Err(e) => g == h && r == Err::<VCell, ErrorView>(e),
        Ok(handle) => match index_of(h, args[1]) {
            Err(e) => g == h && r == Err::<VCell, ErrorView>(e),
            Ok(idx) => match char_of(h, args[2]) {
                Err(e) => g == h && r == Err::<VCell, ErrorView>(e),
                Ok(c) => if idx < h.string(handle).len() {
                    &&& g == with_chars(h, handle, h.string(handle).update(idx as int, c))
                    &&& r == Ok::<VCell, ErrorView>(VCell::Void)
                } else {
                    g == h && r == Err::<VCell, ErrorView>(
                        ErrorView::InvalidStringIndex(idx, h.string(handle).len() as usize),
                    )
                },
            },
        },
    }
}

/// A text with the characters from `start` to `end` replaced by `c`.
pub open spec fn filled(chars: Seq<char>, c: char, start: int, end: int) -> Seq<char> {
    Seq::new(
        chars.len(),
        |i: int|
            if start <= i < end {
                c
            } else {
                chars[i]
            },
    )
}

/// `string-fill!`: the part of the string that the arguments behind the
/// character pick is filled with the character.
pub open spec fn string_fill_effect(
    h: HeapView,
    args: Seq<VCell>,
    g: HeapView,
    r: Result<VCell, ErrorView>,
) -> bool {
    match text_of(h, args[0]) {
        Err(e) => g == h && r == Err::<VCell, ErrorView>(e),
        Ok(handle) => match char_of(h, args[1]) {
            Err(e) => g == h && r == Err::<VCell, ErrorView>(e),
            Ok(c) => match range_of(h, args, 2, h.string(handle).len()) {
                Err(e) => g == h && r == Err::<VCell, ErrorView>(e),
                Ok((start, end)) => {
                    &&& g == with_chars(
                        h,
                        handle,
                        filled(h.string(handle), c, start as int, end as int),
                    )
                    &&& r == Ok::<VCell, ErrorView>(VCell::Void)
                },
            },
        },
    }
}

/// `string->list`: a new list of the characters that the arguments pick:
/// one new cell for each character, a new nil cell, and in front of it
/// one new pair for each character.
pub open spec fn string_to_list_effect(
    h: HeapView,
    args: Seq<VCell>,
    g: HeapView,
    r: Result<VCell, ErrorView>,
) -> bool {
    match substring_chars(h, args) {
        Err(e) => g == h && r == Err::<VCell, ErrorView>(e),
        Ok(chars) => {
            let h1 = with_cells(h, char_cells(chars)).with_cell(VCell::Nil);
            let addrs = run(h.cells.len(), chars.len());
            let nil = (h.cells.len() + chars.len()) as usize;
            &&& chain_added(h1, g, addrs, nil)
            &&& r == Ok::<VCell, ErrorView>(VCell::Ptr(chain_head(h1, addrs, nil)))
        },
    }
}

/// `string->vector`: a new vector of the characters that the arguments
/// pick, with one new cell for each character.
pub open spec fn string_to_vector_effect(
    h: HeapView,
    args: Seq<VCell>,
    g: HeapView,
    r: Result<VCell, ErrorView>,
) -> bool {
    match substring_chars(h, args) {
        Err(e) => g == h && r == Err::<VCell, ErrorView>(e),
        Ok(chars) => {
            &&& g == with_vector(
                with_cells(h, char_cells(chars)),
                run(h.cells.len(), chars.len()),
            )
            &&& r == Ok::<VCell, ErrorView>(VCell::Vector(h.vectors.len() as usize))
        },
    }
}

/// `string->symbol`: the symbol whose name is the characters of the
/// string, whatever they are. It is interned where it was not.
pub open spec fn string_to_symbol_effect(
    h: HeapView,
    args: Seq<VCell>,
    g: HeapView,
    r: Result<VCell, ErrorView>,
) -> bool {
    match text_of(h, args[0]) {
        Err(e) => g == h && r == Err::<VCell, ErrorView>(e),
        Ok(handle) => {
            let name = h.string(handle);
            &&& g == h.interned(name)
            &&& r == Ok::<VCell, ErrorView>(VCell::Symbol(g.handle_of(name)))
        },
    }
}

/// The handles of the symbols that the arguments stand for.
pub open spec fn symbols_of(h: HeapView, args: Seq<VCell>) -> Result<Seq<usize>, ErrorView>
    decreases args.len(),
{
    if args.len() == 0 {
        Ok(Seq::empty())
    } else {
        match symbols_of(h, args.drop_last()) {
            Err(e) => Err(e),
            Ok(front) => match symbol_of(h, args.last()) {
                Err(e) => Err(e),
                Ok(s) => Ok(front.push(s)),
            },
        }
    }
}

/// Whether all handles are the first one.
pub open spec fn all_same(handles: Seq<usize>) -> bool
    decreases handles.len(),
{
    handles.len() < 2 || (all_same(handles.drop_last()) && handles.last() == handles[0])
}

/// `symbol=?`: whether all arguments are one symbol.
pub open spec fn symbol_equal_result(h: HeapView, args: Seq<VCell>) -> Result<VCell, ErrorView> {
    match symbols_of(h, args) {
        Err(e) => Err(e),
        Ok(handles) => Ok(VCell::Bool(all_same(handles))),
    }
}

/// Whether the text `a` comes before the text `b`: at the first place
/// where they differ `a` has the smaller character, or `a` ends there
/// and `b` does not.
pub open spec fn text_lt(a: Seq<char>, b: Seq<char>) -> bool
    decreases a.len(),
{
    if b.len() == 0 {
        false
    } else if a.len() == 0 {
        true
    } else if a[0] != b[0] {
        a[0] < b[0]
    } else {
        text_lt(a.drop_first(), b.drop_first())
    }
}

/// How the string comparisons compare two texts; those that ignore case
/// compare the folded texts.
pub open spec fn text_compares(f: BuiltIn, a: Seq<char>, b: Seq<char>) -> bool {
    match f {
        BuiltIn::StringEqual => a == b,
        BuiltIn::StringLt => text_lt(a, b),
        BuiltIn::StringGt => text_lt(b, a),
        BuiltIn::StringLtEq => !text_lt(b, a),
        BuiltIn::StringGtEq => !text_lt(a, b),
        BuiltIn::StringCiEqual => fold_text(a) == fold_text(b),
        BuiltIn::StringCiLt => text_lt(fold_text(a), fold_text(b)),
        BuiltIn::StringCiGt => text_lt(fold_text(b), fold_text(a)),
        BuiltIn::StringCiLtEq => !text_lt(fold_text(b), fold_text(a)),
        BuiltIn::StringCiGtEq => !text_lt(fold_text(a), fold_text(b)),
        _ => false,
    }
}

/// The texts of the strings that the arguments stand for.
pub open spec fn texts_of(h: HeapView, args: Seq<VCell>) -> Result<Seq<Seq<char>>, ErrorView>
    decreases args.len(),
{
    if args.len() == 0 {
        Ok(Seq::empty())
    } else {
        match texts_of(h, args.drop_last()) {
            Err(e) => Err(e),
            Ok(front) => match text_of(h, args.last()) {
                Err(e) => Err(e),
                Ok(handle) => Ok(front.push(h.string(handle))),
            },
        }
    }
}

/// Whether each text compares with the next as `f` asks.
pub open spec fn texts_in_order(f: BuiltIn, texts: Seq<Seq<char>>) -> bool
    decreases texts.len(),
{
    if texts.len() < 2 {
        true
    } else {
        texts_in_order(f, texts.drop_last()) && text_compares(
            f,
            texts[texts.len() - 2],
            texts.last(),
        )
    }
}

/// A comparison of strings: all arguments have to be strings.
pub open spec fn string_comparison_result(f: BuiltIn, h: HeapView, args: Seq<VCell>) -> Result<
    VCell,
    ErrorView,
> {
    match texts_of(h, args) {
        Err(e) => Err(e),
        Ok(texts) => Ok(VCell::Bool(texts_in_order(f, texts))),
    }
}

/// The handle of the string that an argument stands for.
pub fn text_arg(heap: &Heap, v: VCell) -> (r: Result<usize, Error>)
    requires
        heap.wf(),
        heap@.holds(v),
    ensures
        outcome(r) == text_of(heap@, v),
        r matches Ok(handle) ==> handle < heap@.strings.len(),
{
    match heap.get(v) {
        VCell::String(handle) => Ok(handle),
        c => Err(Error::InvalidSyntax(rendered_with(heap, c, " is not a valid string"))),
    }
}

/// The handle of the symbol that an argument stands for.
pub fn symbol_arg(heap: &Heap, v: VCell) -> (r: Result<usize, Error>)
    requires
        heap.wf(),
        heap@.holds(v),
    ensures
        outcome(r) == symbol_of(heap@, v),
        r matches Ok(handle) ==> handle < heap@.symbols.len(),
{
    match heap.get(v) {
        VCell::Symbol(handle) => Ok(handle),
        c => Err(Error::InvalidSyntax(rendered_with(heap, c, " is not a valid symbol"))),
    }
}

/// The part of a text that optional arguments pick.
pub fn range_arg(heap: &Heap, args: &Vec<VCell>, at: usize, len: usize) -> (r: Result<
    (usize, usize),
    Error,
>)
    ensures
        outcome(r) == range_of(heap@, args@, at as int, len as nat),
        r matches Ok(range) ==> range.0 <= range.1 <= len,
{
    let start = if args.len() > at {
        index_arg(heap, args[at])?
    } else {
        0
    };
    let end = if at < usize::MAX && args.len() > at + 1 {
        index_arg(heap, args[at + 1])?
    } else {
        len
    };
    if end < start {
        Err(Error::InvalidSyntax("invalid substring indices: end < start".to_owned()))
    } else if end > len {
        Err(Error::InvalidStringIndex(end, len))
    } else {
        Ok((start, end))
    }
}

/// The characters from `start` to `end`.
pub fn slice_chars(chars: &Vec<char>, start: usize, end: usize) -> (part: Vec<char>)
    requires
        start <= end <= chars.len(),
    ensures
        part@ == chars@.subrange(start as int, end as int),
{
    let mut part: Vec<char> = Vec::new();
    let mut i = start;
    while i < end
        invariant
            start <= i <= end <= chars.len(),
            part@ == chars@.subrange(start as int, i as int),
        decreases end - i,
    {
        part.push(chars[i]);
        assert(part@ =~= chars@.subrange(start as int, i + 1));
        i = i + 1;
    }
    part
}

/// The characters that the cells at the addresses hold.
pub fn chars_at(heap: &Heap, addrs: &Vec<usize>, from: usize, to: usize, name: &str) -> (r: Result<
    Vec<char>,
    Error,
>)
    requires
        from <= to <= addrs.len(),
    ensures
        match r {
            Ok(v) => element_chars(heap@, addrs@.subrange(from as int, to as int), name@) == Ok::<
                Seq<char>,
                ErrorView,
            >(v@),
            Err(e) => element_chars(heap@, addrs@.subrange(from as int, to as int), name@)
                == Err::<Seq<char>, ErrorView>(e@),
        },
{
    let mut out: Vec<char> = Vec::new();
    let mut failure: Option<Error> = None;
    let mut i = from;
    while i < to
        invariant
            from <= i <= to <= addrs.len(),
            match failure {
                None => element_chars(heap@, addrs@.subrange(from as int, i as int), name@)
                    == Ok::<Seq<char>, ErrorView>(out@),
                Some(e) => element_chars(heap@, addrs@.subrange(from as int, i as int), name@)
                    == Err::<Seq<char>, ErrorView>(e@),
            },
        decreases to - i,
    {
        assert(addrs@.subrange(from as int, i + 1).drop_last() =~= addrs@.subrange(
            from as int,
            i as int,
        ));
        if failure.is_none() {
            match heap.get_at_index(addrs[i]) {
                VCell::Char(c) => {
                    out.push(c);
                },
                other => {
                    let mut text: Vec<char> = Vec::new();
                    push_str(&mut text, name);
                    push_str(&mut text, " expected char but found ");
                    push_value(heap, other, RENDER_DEPTH, &mut text);
                    assert(text@ =~= name@ + " expected char but found "@ + written(
                        heap@,
                        other,
                    ));
                    failure = Some(Error::InvalidSyntax(string_of(&text)));
                },
            }
        }
        i = i + 1;
    }
    match failure {
        None => Ok(out),
        Some(e) => Err(e),
    }
}

/// The texts of the strings that the arguments stand for.
pub fn text_args(heap: &Heap, args: &Vec<VCell>) -> (r: Result<Vec<Vec<char>>, Error>)
    requires
        heap.wf(),
        all_hold(heap@, args@),
    ensures
        match r {
            Ok(v) => texts_of(heap@, args@) matches Ok(texts) && texts.len() == v.len()
                && forall|i: int| 0 <= i < v.len() ==> (#[trigger] v[i])@ == texts[i],
            Err(e) => texts_of(heap@, args@) == Err::<Seq<Seq<char>>, ErrorView>(e@),
        },
{
    let mut out: Vec<Vec<char>> = Vec::new();
    let mut failure: Option<Error> = None;
    let mut i: usize = 0;
    while i < args.len()
        invariant
            heap.wf(),
            all_hold(heap@, args@),
            i <= args.len(),
            match failure {
                None => texts_of(heap@, args@.take(i as int)) matches Ok(texts) && texts.len()
                    == out.len() && forall|k: int|
                    0 <= k < out.len() ==> (#[trigger] out[k])@ == texts[k],
                Some(e) => texts_of(heap@, args@.take(i as int)) == Err::<
                    Seq<Seq<char>>,
                    ErrorView,
                >(e@),
            },
        decreases args.len() - i,
    {
        assert(args@.take(i + 1).drop_last() =~= args@.take(i as int));
        if failure.is_none() {
            match text_arg(heap, args[i]) {
                Ok(handle) => {
                    out.push(heap.string_chars(handle));
                },
                Err(e) => {
                    failure = Some(e);
                },
            }
        }
        i = i + 1;
    }
    assert(args@.take(args.len() as int) =~= args@);
    match failure {
        None => Ok(out),
        Some(e) => Err(e),
    }
}

/// Whether the text `a` comes before the text `b`.
pub fn less_text(a: &Vec<char>, b: &Vec<char>) -> (r: bool)
    ensures
        r == text_lt(a@, b@),
{
    let mut i: usize = 0;
    assert(a@.skip(0) =~= a@ && b@.skip(0) =~= b@);
    loop
        invariant
            i <= a.len(),
            i <= b.len(),
            text_lt(a@, b@) == text_lt(a@.skip(i as int), b@.skip(i as int)),
        decreases a.len() - i,
    {
        if i >= b.len() {
            return false;
        }
        if i >= a.len() {
            return true;
        }
        if a[i] != b[i] {
            return a[i] < b[i];
        }
        assert(a@.skip(i as int).drop_first() =~= a@.skip(i + 1));
        assert(b@.skip(i as int).drop_first() =~= b@.skip(i + 1));
        i = i + 1;
    }
}

/// The characters with their case changed as `f` asks: to upper case for
/// `string-upcase`, to lower case for `string-downcase`, else folded.
pub fn change_case(f: BuiltIn, chars: &Vec<char>) -> (r: Vec<char>)
    ensures
        r@ == match f {
            BuiltIn::StringUpcase => upper_text(chars@),
            BuiltIn::StringDowncase => lower_text(chars@),
            _ => fold_text(chars@),
        },
{
    let mut out: Vec<char> = Vec::new();
    let mut i: usize = 0;
    while i < chars.len()
        invariant
            i <= chars.len(),
            out.len() == i,
            forall|k: int|
                0 <= k < i ==> out@[k] == (match f {
                    BuiltIn::StringUpcase => simple_upper(chars@[k]),
                    BuiltIn::StringDowncase => simple_lower(chars@[k]),
                    _ => folded(chars@[k]),
                }),
        decreases chars.len() - i,
    {
        let c = match f {
            BuiltIn::StringUpcase => to_simple_upper(chars[i]),
            _ => to_simple_lower(chars[i]),
        };
        out.push(c);
        i = i + 1;
    }
    assert(out@ =~= match f {
        BuiltIn::StringUpcase => upper_text(chars@),
        BuiltIn::StringDowncase => lower_text(chars@),
        _ => fold_text(chars@),
    });
    out
}

/// Whether two texts compare as `f` asks.
pub fn compare_texts(f: BuiltIn, a: &Vec<char>, b: &Vec<char>) -> (r: bool)
    ensures
        r == text_compares(f, a@, b@),
{
    match f {
        BuiltIn::StringEqual => same_chars(a, b),
        BuiltIn::StringLt => less_text(a, b),
        BuiltIn::StringGt => less_text(b, a),
        BuiltIn::StringLtEq => !less_text(b, a),
        BuiltIn::StringGtEq => !less_text(a, b),
        BuiltIn::StringCiEqual | BuiltIn::StringCiLt | BuiltIn::StringCiGt
        | BuiltIn::StringCiLtEq | BuiltIn::StringCiGtEq => {
            let x = change_case(BuiltIn::StringFoldcase, a);
            let y = change_case(BuiltIn::StringFoldcase, b);
            match f {
                BuiltIn::StringCiEqual => same_chars(&x, &y),
                BuiltIn::StringCiLt => less_text(&x, &y),
                BuiltIn::StringCiGt => less_text(&y, &x),
                BuiltIn::StringCiLtEq => !less_text(&y, &x),
                _ => !less_text(&x, &y),
            }
        },
        _ => false,
    }
}

/// Compares each string with the next.
pub fn string_comp(vm: &mut Vm, name: &str, f: BuiltIn) -> (r: Result<VCell, Error>)
    requires
        old(vm).wf(),
        name@ == crate::builtin::name(f),
        crate::builtin::min_args(f) == 1,
        crate::builtin::max_args(f) == None::<usize>,
        forall|h: HeapView, args: Seq<VCell>, g: HeapView, r: Result<VCell, ErrorView>|
            #[trigger] crate::builtin::effect(f, h, args, g, r) == (g == h && r
                == string_comparison_result(f, h, args)),
    ensures
        final(vm).wf(),
        crate::builtin::applied(f, *old(vm), *final(vm), r),
{
    let args = pop_args(vm, 1, None, name)?;
    let texts = text_args(&vm.heap, &args)?;
    let ghost all = texts_of(vm.heap@, args@)->Ok_0;
    let mut result = true;
    if texts.len() == 0 {
        return Ok(VCell::Bool(true));
    }
    let mut i: usize = 1;
    assert(texts_in_order(f, all.take(1)));
    while i < texts.len()
        invariant
            1 <= i <= texts.len(),
            all.len() == texts.len(),
            forall|k: int| 0 <= k < texts.len() ==> (#[trigger] texts[k])@ == all[k],
            result == texts_in_order(f, all.take(i as int)),
        decreases texts.len() - i,
    {
        assert(all.take(i + 1).drop_last() =~= all.take(i as int));
        if !compare_texts(f, &texts[i - 1], &texts[i]) {
            result = false;
        }
        i = i + 1;
    }
    assert(all.take(all.len() as int) =~= all);
    Ok(VCell::Bool(result))
}

/// The characters of the new string that the procedure `f` makes of its
/// arguments.
pub fn make_chars(heap: &Heap, f: BuiltIn, args: &Vec<VCell>) -> (r: Result<Vec<char>, Error>)
    requires
        heap.wf(),
        all_hold(heap@, args@),
        crate::builtin::arity_ok(
            args.len(),
            crate::builtin::min_args(f),
            crate::builtin::max_args(f),
        ),
        maker(f),
    ensures
        match r {
            Ok(v) => made_chars(f, heap@, args@) == Ok::<Seq<char>, ErrorView>(v@),
            Err(e) => made_chars(f, heap@, args@) == Err::<Seq<char>, ErrorView>(e@),
        },
{
    match f {
        BuiltIn::MakeString => {
            let n = match index_arg(heap, args[0]) {
                Ok(n) => n,
                Err(_) => {
                    return Err(
                        Error::InvalidSyntax("make-string requires an integer size".to_owned()),
                    );
                },
            };
            let c = if args.len() == 2 {
                char_arg(heap, args[1])?
            } else {
                '\0'
            };
            let mut out: Vec<char> = Vec::new();
            let mut i: usize = 0;
            while i < n
                invariant
                    i <= n,
                    out@ == repeated(c, i as nat),
                decreases n - i,
            {
                out.push(c);
                assert(out@ =~= repeated(c, (i + 1) as nat));
                i = i + 1;
            }
            Ok(out)
        },
        BuiltIn::String => char_args(heap, args),
        BuiltIn::StringAppend => {
            let mut out: Vec<char> = Vec::new();
            let mut failure: Option<Error> = None;
            let mut i: usize = 0;
            while i < args.len()
                invariant
                    heap.wf(),
                    all_hold(heap@, args@),
                    i <= args.len(),
                    match failure {
                        None => appended(heap@, args@.take(i as int)) == Ok::<
                            Seq<char>,
                            ErrorView,
                        >(out@),
                        Some(e) => appended(heap@, args@.take(i as int)) == Err::<
                            Seq<char>,
                            ErrorView,
                        >(e@),
                    },
                decreases args.len() - i,
            {
                assert(args@.take(i + 1).drop_last() =~= args@.take(i as int));
                if failure.is_none() {
                    match text_arg(heap, args[i]) {
                        Ok(handle) => {
                            let more = heap.string_chars(handle);
                            push_chars(&mut out, &more);
                        },
                        Err(e) => {
                            failure = Some(e);
                        },
                    }
                }
                i = i + 1;
            }
            assert(args@.take(args.len() as int) =~= args@);
            match failure {
                None => Ok(out),
                Some(e) => Err(e),
            }
        },
        BuiltIn::Substring | BuiltIn::StringCopy => picked_chars(heap, args),
        BuiltIn::ListToString => {
            let c = heap.get(args[0]);
            match list_elements(heap, c) {
                None => Err(list_error_for(heap, c)),
                Some(elems) => {
                    proof {
                        lemma_elements(heap@, c, elems@);
                    }
                    assert(elems@.subrange(0, elems.len() as int) =~= elems@);
                    chars_at(heap, &elems, 0, elems.len(), "list->string")
                },
            }
        },
        BuiltIn::VectorToString => {
            let handle = vector_arg(heap, args[0])?;
            let slots = slots_of(heap, handle);
            let (start, end) = range_arg(heap, args, 1, slots.len())?;
            chars_at(heap, &slots, start, end, "vector->string")
        },
        BuiltIn::SymbolToString => {
            let handle = symbol_arg(heap, args[0])?;
            Ok(heap.symbol_name(handle))
        },
        _ => {
            let handle = text_arg(heap, args[0])?;
            let chars = heap.string_chars(handle);
            Ok(change_case(f, &chars))
        },
    }
}

/// Whether `f` is one of the procedures that return a new string.
pub open spec fn maker(f: BuiltIn) -> bool {
    f == BuiltIn::MakeString || f == BuiltIn::String || f == BuiltIn::StringAppend || f
        == BuiltIn::Substring || f == BuiltIn::StringCopy || f == BuiltIn::ListToString || f
        == BuiltIn::VectorToString || f == BuiltIn::SymbolToString || f == BuiltIn::StringUpcase
        || f == BuiltIn::StringDowncase || f == BuiltIn::StringFoldcase
}

/// The part of the string `args[0]` that the arguments behind it pick.
pub fn picked_chars(heap: &Heap, args: &Vec<VCell>) -> (r: Result<Vec<char>, Error>)
    requires
        heap.wf(),
        all_hold(heap@, args@),
        args.len() >= 1,
    ensures
        match r {
            Ok(v) => substring_chars(heap@, args@) == Ok::<Seq<char>, ErrorView>(v@),
            Err(e) => substring_chars(heap@, args@) == Err::<Seq<char>, ErrorView>(e@),
        },
{
    let handle = text_arg(heap, args[0])?;
    let chars = heap.string_chars(handle);
    let (start, end) = range_arg(heap, args, 1, chars.len())?;
    Ok(slice_chars(&chars, start, end))
}

/// Calls a procedure that returns a new string.
pub fn string_maker(vm: &mut Vm, name: &str, f: BuiltIn) -> (r: Result<VCell, Error>)
    requires
        old(vm).wf(),
        maker(f),
        name@ == crate::builtin::name(f),
        forall|h: HeapView, args: Seq<VCell>, g: HeapView, r: Result<VCell, ErrorView>|
            #[trigger] crate::builtin::effect(f, h, args, g, r) == string_maker_effect(
                f,
                h,
                args,
                g,
                r,
            ),
    ensures
        final(vm).wf(),
        crate::builtin::applied(f, *old(vm), *final(vm), r),
{
    let args = pop_args(vm, min_of(f), max_of(f), name)?;
    let chars = make_chars(&vm.heap, f, &args)?;
    Ok(vm.heap.alloc_string(chars))
}

/// The least number of arguments of a procedure that returns a new string.
pub fn min_of(f: BuiltIn) -> (n: usize)
    requires
        maker(f),
    ensures
        n == crate::builtin::min_args(f),
{
    match f {
        BuiltIn::String | BuiltIn::StringAppend => 0,
        BuiltIn::Substring => 3,
        _ => 1,
    }
}

/// The greatest number of arguments of a procedure that returns a new
/// string.
pub fn max_of(f: BuiltIn) -> (n: Option<usize>)
    requires
        maker(f),
    ensures
        n == crate::builtin::max_args(f),
{
    match f {
        BuiltIn::String | BuiltIn::StringAppend => None,
        BuiltIn::MakeString => Some(2),
        BuiltIn::Substring | BuiltIn::StringCopy | BuiltIn::VectorToString => Some(3),
        _ => Some(1),
    }
}

pub fn string_length(vm: &mut Vm) -> (r: Result<VCell, Error>)
    requires
        old(vm).wf(),
    ensures
        final(vm).wf(),
        crate::builtin::applied(BuiltIn::StringLength, *old(vm), *final(vm), r),
{
    let args = pop_args(vm, 1, Some(1), "string-length")?;
    let handle = text_arg(&vm.heap, args[0])?;
    let n = vm.heap.string_len(handle);
    if n as u64 <= i64::MAX as u64 {
        Ok(VCell::Number(Number::Fixnum(n as i64)))
    } else {
        Err(crate::builtin::numeric::out_of_range_error("string-length"))
    }
}

pub fn string_ref(vm: &mut Vm) -> (r: Result<VCell, Error>)
    requires
        old(vm).wf(),
    ensures
        final(vm).wf(),
        crate::builtin::applied(BuiltIn::StringRef, *old(vm), *final(vm), r),
{
    let args = pop_args(vm, 2, Some(2), "string-ref")?;
    let handle = text_arg(&vm.heap, args[0])?;
    let idx = index_arg(&vm.heap, args[1])?;
    match vm.heap.string_get(handle, idx) {
        Some(c) => Ok(VCell::Char(c)),
        None => Err(Error::InvalidStringIndex(idx, vm.heap.string_len(handle))),
    }
}

pub fn string_set(vm: &mut Vm) -> (r: Result<VCell, Error>)
    requires
        old(vm).wf(),
    ensures
        final(vm).wf(),
        crate::builtin::applied(BuiltIn::StringSet, *old(vm), *final(vm), r),
{
    let args = pop_args(vm, 3, Some(3), "string-set!")?;
    let handle = text_arg(&vm.heap, args[0])?;
    let idx = index_arg(&vm.heap, args[1])?;
    let c = char_arg(&vm.heap, args[2])?;
    if vm.heap.string_set(handle, idx, c) {
        Ok(VCell::Void)
    } else {
        Err(Error::InvalidStringIndex(idx, vm.heap.string_len(handle)))
    }
}

pub fn string_fill(vm: &mut Vm) -> (r: Result<VCell, Error>)
    requires
        old(vm).wf(),
    ensures
        final(vm).wf(),
        crate::builtin::applied(BuiltIn::StringFill, *old(vm), *final(vm), r),
{
    let args = pop_args(vm, 2, Some(4), "string-fill!")?;
    let handle = text_arg(&vm.heap, args[0])?;
    let c = char_arg(&vm.heap, args[1])?;
    let n = vm.heap.string_len(handle);
    let (start, end) = range_arg(&vm.heap, &args, 2, n)?;
    let ghost h = vm.heap@;
    let ghost before = *vm;
    let ghost mut cur = h.string(handle);
    let mut i = start;
    assert(vm.heap@.strings =~= h.strings.update(handle as int, cur));
    while i < end
        invariant
            vm.wf(),
            start <= i <= end <= n,
            vm.stack@ == before.stack@,
            vm.globenv@ == before.globenv@,
            handle < h.strings.len(),
            n == cur.len(),
            n == h.string(handle).len(),
            vm.heap@ == with_chars(h, handle, cur),
            forall|k: int|
                0 <= k < n ==> cur[k] == if start <= k < i {
                    c
                } else {
                    h.string(handle)[k]
                },
        decreases end - i,
    {
        vm.heap.string_set(handle, i, c);
        proof {
            cur = cur.update(i as int, c);
            assert(vm.heap@.strings =~= h.strings.update(handle as int, cur));
        }
        i = i + 1;
    }
    assert(cur =~= filled(h.string(handle), c, start as int, end as int));
    Ok(VCell::Void)
}

/// Stores one cell for each character and returns their addresses.
pub fn store_chars(heap: &mut Heap, chars: &Vec<char>) -> (addrs: Vec<usize>)
    requires
        old(heap).wf(),
    ensures
        final(heap).wf(),
        final(heap)@ == with_cells(old(heap)@, char_cells(chars@)),
        addrs@ == run(old(heap)@.cells.len(), chars@.len()),
        forall|i: int| 0 <= i < addrs.len() ==> (#[trigger] addrs[i]) < final(heap)@.cells.len(),
{
    let mut addrs: Vec<usize> = Vec::new();
    let mut i: usize = 0;
    let ghost base = heap@.cells.len();
    assert(chars@.take(0).len() == 0);
    assert(char_cells(chars@.take(0)).len() == 0);
    assert(heap@.cells =~= old(heap)@.cells + char_cells(chars@.take(0)));
    assert(addrs@ =~= run(base, 0));
    while i < chars.len()
        invariant
            heap.wf(),
            i <= chars.len(),
            base == old(heap)@.cells.len(),
            heap@ == with_cells(old(heap)@, char_cells(chars@.take(i as int))),
            addrs@ == run(base, i as nat),
            forall|k: int| 0 <= k < addrs.len() ==> (#[trigger] addrs[k]) < heap@.cells.len(),
        decreases chars.len() - i,
    {
        let ghost grown = heap@.cells;
        let c = char_at(chars, i);
        let a = heap.address(VCell::Char(c));
        addrs.push(a);
        assert(heap@.cells == grown.push(VCell::Char(c)));
        assert forall|k: int| 0 <= k < heap@.cells.len() implies heap@.cells[k] == (old(
            heap,
        )@.cells + char_cells(chars@.take(i + 1)))[k] by {
            if k < base {
            } else if k < base + i {
                assert(grown[k] == char_cells(chars@.take(i as int))[k - base]);
                assert(char_cell(chars@.take(i as int), k - base) == char_cell(
                    chars@.take(i + 1),
                    k - base,
                ));
            } else {
                assert(char_cell(chars@.take(i + 1), k - base) == VCell::Char(c));
            }
        }
        assert(heap@.cells =~= old(heap)@.cells + char_cells(chars@.take(i + 1)));
        assert(addrs@ =~= run(base, (i + 1) as nat));
        i = i + 1;
    }
    assert(chars@.take(chars.len() as int) =~= chars@);
    addrs
}

pub fn string_to_list(vm: &mut Vm) -> (r: Result<VCell, Error>)
    requires
        old(vm).wf(),
    ensures
        final(vm).wf(),
        crate::builtin::applied(BuiltIn::StringToList, *old(vm), *final(vm), r),
{
    let args = pop_args(vm, 1, Some(3), "string->list")?;
    let chars = picked_chars(&vm.heap, &args)?;
    let addrs = store_chars(&mut vm.heap, &chars);
    let nil = vm.heap.address(VCell::Nil);
    let head = build_list(&mut vm.heap, &addrs, nil);
    Ok(VCell::Ptr(head))
}

pub fn string_to_vector(vm: &mut Vm) -> (r: Result<VCell, Error>)
    requires
        old(vm).wf(),
    ensures
        final(vm).wf(),
        crate::builtin::applied(BuiltIn::StringToVector, *old(vm), *final(vm), r),
{
    let args = pop_args(vm, 1, Some(3), "string->vector")?;
    let chars = picked_chars(&vm.heap, &args)?;
    let addrs = store_chars(&mut vm.heap, &chars);
    Ok(vm.heap.alloc_vector(addrs))
}

pub fn string_to_symbol(vm: &mut Vm) -> (r: Result<VCell, Error>)
    requires
        old(vm).wf(),
    ensures
        final(vm).wf(),
        crate::builtin::applied(BuiltIn::StringToSymbol, *old(vm), *final(vm), r),
{
    let args = pop_args(vm, 1, Some(1), "string->symbol")?;
    let handle = text_arg(&vm.heap, args[0])?;
    let name = vm.heap.string_chars(handle);
    Ok(vm.heap.intern(name))
}

pub fn symbol_equal(vm: &mut Vm) -> (r: Result<VCell, Error>)
    requires
        old(vm).wf(),
    ensures
        final(vm).wf(),
        crate::builtin::applied(BuiltIn::SymbolEqual, *old(vm), *final(vm), r),
{
    let args = pop_args(vm, 1, None, "symbol=?")?;
    let ghost h = vm.heap@;
    let mut first: usize = 0;
    let mut same = true;
    let mut failure: Option<Error> = None;
    let mut i: usize = 0;
    while i < args.len()
        invariant
            vm.wf(),
            h == vm.heap@,
            all_hold(h, args@),
            i <= args.len(),
            match failure {
                None => symbols_of(h, args@.take(i as int)) matches Ok(handles) && same
                    == all_same(handles) && handles.len() == i && (i > 0 ==> handles[0]
                    == first),
                Some(e) => symbols_of(h, args@.take(i as int)) == Err::<Seq<usize>, ErrorView>(
                    e@,
                ),
            },
        decreases args.len() - i,
    {
        assert(args@.take(i + 1).drop_last() =~= args@.take(i as int));
        if failure.is_none() {
            let ghost front = symbols_of(h, args@.take(i as int))->Ok_0;
            match symbol_arg(&vm.heap, args[i]) {
                Ok(s) => {
                    if i == 0 {
                        first = s;
                    } else if s != first {
                        same = false;
                    }
                    proof {
                        let now = front.push(s);
                        assert(now.drop_last() =~= front);
                    }
                },
                Err(e) => {
                    failure = Some(e);
                },
            }
        }
        i = i + 1;
    }
    assert(args@.take(args.len() as int) =~= args@);
    match failure {
        None => Ok(VCell::Bool(same)),
        Some(e) => Err(e),
    }
}

pub fn list_to_string(vm: &mut Vm) -> (r: Result<VCell, Error>)
    requires
        old(vm).wf(),
    ensures
        final(vm).wf(),
        crate::builtin::applied(BuiltIn::ListToString, *old(vm), *final(vm), r),
{
    string_maker(vm, "list->string", BuiltIn::ListToString)
}

pub fn make_string(vm: &mut Vm) -> (r: Result<VCell, Error>)
    requires
        old(vm).wf(),
    ensures
        final(vm).wf(),
        crate::builtin::applied(BuiltIn::MakeString, *old(vm), *final(vm), r),
{
    string_maker(vm, "make-string", BuiltIn::MakeString)
}

pub fn string_of_chars(vm: &mut Vm) -> (r: Result<VCell, Error>)
    requires
        old(vm).wf(),
    ensures
        final(vm).wf(),
        crate::builtin::applied(BuiltIn::String, *old(vm), *final(vm), r),
{
    string_maker(vm, "string", BuiltIn::String)
}

pub fn string_append(vm: &mut Vm) -> (r: Result<VCell, Error>)
    requires
        old(vm).wf(),
    ensures
        final(vm).wf(),
        crate::builtin::applied(BuiltIn::StringAppend, *old(vm), *final(vm), r),
{
    string_maker(vm, "string-append", BuiltIn::StringAppend)
}

pub fn string_ci_equal(vm: &mut Vm) -> (r: Result<VCell, Error>)
    requires
        old(vm).wf(),
    ensures
        final(vm).wf(),
        crate::builtin::applied(BuiltIn::StringCiEqual, *old(vm), *final(vm), r),
{
    string_comp(vm, "string-ci=?", BuiltIn::StringCiEqual)
}

pub fn string_ci_gt(vm: &mut Vm) -> (r: Result<VCell, Error>)
    requires
        old(vm).wf(),
    ensures
        final(vm).wf(),
        crate::builtin::applied(BuiltIn::StringCiGt, *old(vm), *final(vm), r),
{
    string_comp(vm, "string-ci>?", BuiltIn::StringCiGt)
}

pub fn string_ci_gt_eq(vm: &mut Vm) -> (r: Result<VCell, Error>)
    requires
        old(vm).wf(),
    ensures
        final(vm).wf(),
        crate::builtin::applied(BuiltIn::StringCiGtEq, *old(vm), *final(vm), r),
{
    string_comp(vm, "string-ci>=?", BuiltIn::StringCiGtEq)
}

pub fn string_ci_lt(vm: &mut Vm) -> (r: Result<VCell, Error>)
    requires
        old(vm).wf(),
    ensures
        final(vm).wf(),
        crate::builtin::applied(BuiltIn::StringCiLt, *old(vm), *final(vm), r),
{
    string_comp(vm, "string-ci<?", BuiltIn::StringCiLt)
}

pub fn string_ci_lt_eq(vm: &mut Vm) -> (r: Result<VCell, Error>)
    requires
        old(vm).wf(),
    ensures
        final(vm).wf(),
        crate::builtin::applied(BuiltIn::StringCiLtEq, *old(vm), *final(vm), r),
{
    string_comp(vm, "string-ci<=?", BuiltIn::StringCiLtEq)
}

pub fn string_copy(vm: &mut Vm) -> (r: Result<VCell, Error>)
    requires
        old(vm).wf(),
    ensures
        final(vm).wf(),
        crate::builtin::applied(BuiltIn::StringCopy, *old(vm), *final(vm), r),
{
    string_maker(vm, "string-copy", BuiltIn::StringCopy)
}

pub fn string_downcase(vm: &mut Vm) -> (r: Result<VCell, Error>)
    requires
        old(vm).wf(),
    ensures
        final(vm).wf(),
        crate::builtin::applied(BuiltIn::StringDowncase, *old(vm), *final(vm), r),
{
    string_maker(vm, "string-downcase", BuiltIn::StringDowncase)
}

pub fn string_equal(vm: &mut Vm) -> (r: Result<VCell, Error>)
    requires
        old(vm).wf(),
    ensures
        final(vm).wf(),
        crate::builtin::applied(BuiltIn::StringEqual, *old(vm), *final(vm), r),
{
    string_comp(vm, "string=?", BuiltIn::StringEqual)
}

pub fn string_foldcase(vm: &mut Vm) -> (r: Result<VCell, Error>)
    requires
        old(vm).wf(),
    ensures
        final(vm).wf(),
        crate::builtin::applied(BuiltIn::StringFoldcase, *old(vm), *final(vm), r),
{
    string_maker(vm, "string-foldcase", BuiltIn::StringFoldcase)
}

pub fn string_gt(vm: &mut Vm) -> (r: Result<VCell, Error>)
    requires
        old(vm).wf(),
    ensures
        final(vm).wf(),
        crate::builtin::applied(BuiltIn::StringGt, *old(vm), *final(vm), r),
{
    string_comp(vm, "string>?", BuiltIn::StringGt)
}

pub fn string_gt_eq(vm: &mut Vm) -> (r: Result<VCell, Error>)
    requires
        old(vm).wf(),
    ensures
        final(vm).wf(),
        crate::builtin::applied(BuiltIn::StringGtEq, *old(vm), *final(vm), r),
{
    string_comp(vm, "string>=?", BuiltIn::StringGtEq)
}

pub fn string_lt(vm: &mut Vm) -> (r: Result<VCell, Error>)
    requires
        old(vm).wf(),
    ensures
        final(vm).wf(),
        crate::builtin::applied(BuiltIn::StringLt, *old(vm), *final(vm), r),
{
    string_comp(vm, "string<?", BuiltIn::StringLt)
}

pub fn string_lt_eq(vm: &mut Vm) -> (r: Result<VCell, Error>)
    requires
        old(vm).wf(),
    ensures
        final(vm).wf(),
        crate::builtin::applied(BuiltIn::StringLtEq, *old(vm), *final(vm), r),
{
    string_comp(vm, "string<=?", BuiltIn::StringLtEq)
}

pub fn string_upcase(vm: &mut Vm) -> (r: Result<VCell, Error>)
    requires
        old(vm).wf(),
    ensures
        final(vm).wf(),
        crate::builtin::applied(BuiltIn::StringUpcase, *old(vm), *final(vm), r),
{
    string_maker(vm, "string-upcase", BuiltIn::StringUpcase)
}

pub fn substring(vm: &mut Vm) -> (r: Result<VCell, Error>)
    requires
        old(vm).wf(),
    ensures
        final(vm).wf(),
        crate::builtin::applied(BuiltIn::Substring, *old(vm), *final(vm), r),
{
    string_maker(vm, "substring", BuiltIn::Substring)
}

pub fn symbol_to_string(vm: &mut Vm) -> (r: Result<VCell, Error>)
    requires
        old(vm).wf(),
    ensures
        final(vm).wf(),
        crate::builtin::applied(BuiltIn::SymbolToString, *old(vm), *final(vm), r),
{
    string_maker(vm, "symbol->string", BuiltIn::SymbolToString)
}

pub fn vector_to_string(vm: &mut Vm) -> (r: Result<VCell, Error>)
    requires
        old(vm).wf(),
    ensures
        final(vm).wf(),
        crate::builtin::applied(BuiltIn::VectorToString, *old(vm), *final(vm), r),
{
    string_maker(vm, "vector->string", BuiltIn::VectorToString)
}

} // verus!
