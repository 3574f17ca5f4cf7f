//! The embedding surface: evaluating text and writing values.
use crate::builtin::rendered;
use crate::compiler::{compile_program, program, programmed};
use crate::error::{outcome, Error, ErrorView};
use crate::heap::HeapView;
use crate::lexer::{lex, LexError, Token};
use crate::machine::{ran, run, started_in};
use crate::printer::written;
use crate::reader::{lex_failure, read, text_read};
use crate::vcell::VCell;
use crate::vm::{Machine, Vm};
use vstd::prelude::*;

verus! {

/// How many instructions the evaluation of one expression may take.
pub const DEFAULT_BUDGET: usize = 100_000_000;

/// Evaluating the data from `from` on in the machine `m`, where the datum
/// before came to the value `last`, comes to `r` and leaves the machine
/// `end`: each datum is compiled as a program and run within the budget,
/// in the machine that the datum before has left, and each run leaves the
/// stack as it was; the first error is the error of all, and the value of
/// the last datum is the value of all. A datum that does not compile
/// leaves the machine as the datum before has left it.
pub open spec fn evaluated(
    m: Machine,
    data: Seq<VCell>,
    from: int,
    budget: nat,
    last: VCell,
    r: Result<VCell, ErrorView>,
    end: Machine,
) -> bool
    decreases data.len() - from,
{
    if from < 0 || from >= data.len() {
        r == Ok::<VCell, ErrorView>(last) && end == m
    } else {
        match program(m.heap, data[from]) {
            Err(e) => r == Err::<VCell, ErrorView>(e) && end == m,
            Ok((heap, code)) => exists|mid: Machine, v: Result<VCell, ErrorView>| #[trigger]
                ran(started_in(Machine { heap, ..m }, code), budget, mid.heap, mid.globals, v)
                    && mid.stack == m.stack && match v {
                    Err(e) => r == Err::<VCell, ErrorView>(e) && end == mid,
                    Ok(value) => evaluated(mid, data, from + 1, budget, value, r, end),
                },
        }
    }
}

/// Evaluating a text in the machine `m` comes to `r` and leaves the
/// machine `end`: the text is read, and its data are evaluated in order.
/// A text that cannot be read leaves the machine as it is.
pub open spec fn evaluation(
    m: Machine,
    text: Seq<char>,
    budget: nat,
    r: Result<VCell, ErrorView>,
    end: Machine,
) -> bool {
    match text_read(m.heap, text) {
        Err(e) => r == Err::<VCell, ErrorView>(e) && end == m,
        Ok((heap, data)) => evaluated(Machine { heap, ..m }, data, 0, budget, VCell::Void, r, end),
    }
}

impl Vm {
    /// Evaluates the expressions of a text, one after the other, and
    /// returns the value of the last; void for a text without any. Each
    /// expression may take [`DEFAULT_BUDGET`] instructions. The first error
    /// ends the evaluation: what was evaluated before it stays done, the
    /// stack is as it was, and a text that cannot be read or an expression
    /// that does not compile leaves nothing in the heap.
    pub fn eval(&mut self, text: &str) -> (r: Result<VCell, Error>)
        requires
            old(self).wf(),
        ensures
            final(self).wf(),
            evaluation(old(self)@, text@, DEFAULT_BUDGET as nat, outcome(r), final(self)@),
            final(self).stack@ == old(self).stack@,
            r matches Ok(v) ==> final(self).heap@.valid(v),
            lex(text@) matches Err(e) ==> outcome(r) == Err::<VCell, ErrorView>(lex_failure(e))
                && final(self)@ == old(self)@,
            lex(text@) == Ok::<Seq<Token>, LexError>(Seq::empty()) ==> r == Ok::<VCell, Error>(
                VCell::Void,
            ) && final(self)@ == old(self)@,
    {
        self.eval_with_budget(text, DEFAULT_BUDGET)
    }

    /// Evaluates the expressions of a text; each may take `budget`
    /// instructions.
    pub fn eval_with_budget(&mut self, text: &str, budget: usize) -> (r: Result<VCell, Error>)
        requires
            old(self).wf(),
        ensures
            final(self).wf(),
            evaluation(old(self)@, text@, budget as nat, outcome(r), final(self)@),
            final(self).stack@ == old(self).stack@,
            r matches Ok(v) ==> final(self).heap@.valid(v),
            lex(text@) matches Err(e) ==> outcome(r) == Err::<VCell, ErrorView>(lex_failure(e))
                && final(self)@ == old(self)@,
            lex(text@) == Ok::<Seq<Token>, LexError>(Seq::empty()) ==> r == Ok::<VCell, Error>(
                VCell::Void,
            ) && final(self)@ == old(self)@,
    {
        let ghost start = self.heap@;
        let sizes = self.heap.sizes();
        let read_result = read(&mut self.heap, text);
        proof {
            assert forall|i: int| 0 <= i < self.stack@.len() implies self.heap@.valid(
                #[trigger] self.stack@[i],
            ) by {
                assert(start.valid(old(self).stack@[i]));
            }
            assert forall|i: int| 0 <= i < self.globenv@.len() implies self.heap@.holds(
                #[trigger] self.globenv@[i],
            ) by {
                assert(start.holds(old(self).globenv@[i]));
            }
        }
        let data = match read_result {
            Ok(data) => data,
            Err(e) => {
                proof {
                    start.lemma_cut(self.heap@, sizes);
                }
                self.heap.cut(sizes);
                return Err(e);
            },
        };
        let ghost first = self@;
        let ghost steps = budget as nat;
        let mut result = VCell::Void;
        let mut i: usize = 0;
        while i < data.len()
            invariant
                self.wf(),
                i <= data.len(),
                steps == budget,
                self.stack@ == old(self).stack@,
                self.heap@.valid(result),
                lex(text@) is Ok,
                lex(text@) == Ok::<Seq<Token>, LexError>(Seq::empty()) ==> data.len() == 0
                    && self@ == old(self)@ && result == VCell::Void,
                forall|k: int| 0 <= k < data.len() ==> self.heap@.holds(#[trigger] data[k]),
                text_read(old(self).heap@, text@) == Ok::<(HeapView, Seq<VCell>), ErrorView>(
                    (first.heap, data@),
                ),
                first == (Machine { heap: first.heap, ..old(self)@ }),
                forall|r: Result<VCell, ErrorView>, end: Machine| #[trigger]
                    evaluated(self@, data@, i as int, steps, result, r, end) ==> evaluated(
                        first,
                        data@,
                        0,
                        steps,
                        VCell::Void,
                        r,
                        end,
                    ),
            decreases data.len() - i,
        {
            let ghost before = self.heap@;
            let ghost here = self@;
            let ghost last = result;
            let sizes = self.heap.sizes();
            let entry = match self.compile(data[i]) {
                Ok(entry) => entry,
                Err(e) => {
                    proof {
                        before.lemma_cut(self.heap@, sizes);
                    }
                    self.heap.cut(sizes);
                    assert(self@ == here);
                    assert(evaluated(here, data@, i as int, steps, last, Err(e@), self@));
                    return Err(e);
                },
            };
            let ghost ready = self@;
            let ran_result = run(self, entry, budget);
            let ghost mid = self@;
            assert(ran(
                started_in(Machine { heap: ready.heap, ..here }, entry),
                steps,
                mid.heap,
                mid.globals,
                outcome(ran_result),
            ));
            match ran_result {
                Err(e) => {
                    assert(evaluated(here, data@, i as int, steps, last, Err(e@), mid));
                    return Err(e);
                },
                Ok(value) => {
                    assert forall|r: Result<VCell, ErrorView>, end: Machine| #[trigger]
                        evaluated(mid, data@, i + 1, steps, value, r, end) implies evaluated(
                        first,
                        data@,
                        0,
                        steps,
                        VCell::Void,
                        r,
                        end,
                    ) by {
                        assert(evaluated(here, data@, i as int, steps, last, r, end));
                    }
                    result = value;
                },
            }
            assert forall|k: int| 0 <= k < data.len() implies self.heap@.holds(
                #[trigger] data[k],
            ) by {
                assert(before.holds(data[k]));
            }
            i = i + 1;
        }
        assert(evaluated(self@, data@, i as int, steps, result, Ok(result), self@));
        Ok(result)
    }

    /// Compiles a datum as a program for this machine.
    fn compile(&mut self, datum: VCell) -> (r: Result<usize, Error>)
        requires
            old(self).wf(),
            old(self).heap@.valid(datum),
        ensures
            final(self).wf(),
            final(self).stack@ == old(self).stack@,
            final(self).globenv@ == old(self).globenv@,
            programmed(r, final(self).heap@, program(old(self).heap@, datum)),
            old(self).heap@.no_larger_than(final(self).heap@),
            old(self).heap@.extended_by(final(self).heap@),
            r matches Ok(code) ==> code < final(self).heap@.codes.len(),
    {
        let ghost start = self.heap@;
        let r = compile_program(&mut self.heap, datum);
        proof {
            assert forall|i: int| 0 <= i < self.stack@.len() implies self.heap@.valid(
                #[trigger] self.stack@[i],
            ) by {
                assert(start.valid(old(self).stack@[i]));
            }
            assert forall|i: int| 0 <= i < self.globenv@.len() implies self.heap@.holds(
                #[trigger] self.globenv@[i],
            ) by {
                assert(start.holds(old(self).globenv@[i]));
            }
        }
        r
    }

    /// The external representation of a value.
    pub fn display(&self, v: &VCell) -> (s: String)
        ensures
            s@ == written(self.heap@, *v),
    {
        rendered(&self.heap, *v)
    }
}

} // verus!
