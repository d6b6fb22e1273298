//! The pull-based source protocol over token streams.
//!
//! A source produces, on each call to `next`, exactly one of three
//! outcomes: one datum, an error, or Empty; and once Empty, always Empty.
//! The expander both consumes a source and is one, so stages chain.

use vstd::prelude::*;
use crate::token::{Atom, PreprocessingToken, TokenModel, toks_view, clone_token};
use crate::expand::{ExpandError, Expansion, expand_tokens, error_model};
use crate::model::{run, init_state, StatusModel};
use crate::table::Macros;

verus! {

/// An in-memory token source: yields its tokens in order, then is
/// permanently empty.
pub struct VecTokenSource {
    tokens: Vec<PreprocessingToken>,
    pos: usize,
}

impl VecTokenSource {
    /// The tokens not yet produced.
    pub closed spec fn remaining(&self) -> Seq<TokenModel> {
        if self.pos <= self.tokens@.len() {
            toks_view(self.tokens@).subrange(self.pos as int, self.tokens@.len() as int)
        } else {
            Seq::empty()
        }
    }

    pub fn new(tokens: Vec<PreprocessingToken>) -> (r: VecTokenSource)
        ensures
            r.remaining() == toks_view(tokens@),
    {
        let r = VecTokenSource { tokens, pos: 0 };
        proof {
            assert(r.remaining() =~= toks_view(r.tokens@));
        }
        r
    }

    /// One protocol step: a datum while any remain, then Empty for ever.
    pub fn next(&mut self) -> (a: Atom<PreprocessingToken, ExpandError>)
        ensures
            old(self).remaining().len() == 0 ==> a is Empty && final(self).remaining() == old(
                self,
            ).remaining(),
            old(self).remaining().len() > 0 ==> (a matches Atom::Datum(t) && t@ == old(
                self,
            ).remaining().first() && final(self).remaining() == old(self).remaining().drop_first()),
    {
        if self.pos < self.tokens.len() {
            let t = clone_token(&self.tokens[self.pos]);
            self.pos = self.pos + 1;
            proof {
                assert(toks_view(self.tokens@)[old(self).pos as int] == self.tokens@[old(
                    self,
                ).pos as int]@);
                assert(self.remaining() =~= old(self).remaining().drop_first());
            }
            Atom::Datum(t)
        } else {
            Atom::Empty
        }
    }
}

/// An exact copy of an expansion error.
pub(crate) fn clone_error(e: &ExpandError) -> (r: ExpandError)
    ensures
        r == *e,
{
    match e {
        ExpandError::UnterminatedInvocation(n) => ExpandError::UnterminatedInvocation(n.clone()),
        ExpandError::ArityMismatch(n) => ExpandError::ArityMismatch(n.clone()),
        ExpandError::InvalidPaste => ExpandError::InvalidPaste,
        ExpandError::BudgetExhausted => ExpandError::BudgetExhausted,
    }
}

/// The macro expander as a source: wraps an upstream token source and a
/// macro table, and yields the fully expanded stream one token per call,
/// then Empty for ever.  On a failed expansion it yields the error once,
/// then Empty.  Nested sub-expansions are eager by design; this driver
/// materializes the top level the same way, up front.
pub struct MacroExpandingTokenSource {
    macros: Macros,
    items: Vec<PreprocessingToken>,
    fault: Option<ExpandError>,
    pos: usize,
    fault_given: bool,
}

impl MacroExpandingTokenSource {
    /// The expanded tokens this source yields.
    pub closed spec fn produced(&self) -> Seq<TokenModel> {
        toks_view(self.items@)
    }

    /// The error, if the expansion failed.
    pub closed spec fn fault_of(&self) -> Option<ExpandError> {
        self.fault
    }

    /// How many tokens have been yielded so far.
    pub closed spec fn position(&self) -> nat {
        self.pos as nat
    }

    /// Whether the error is still to be yielded.
    pub closed spec fn fault_pending(&self) -> bool {
        self.fault is Some && !self.fault_given
    }

    /// Wraps the upstream source: drains it through the protocol and runs
    /// the expansion machine over what it produced.  What this source then
    /// yields is exactly what the machine reaches on the upstream stream.
    pub fn new(macros: Macros, token_stream: VecTokenSource) -> (r: MacroExpandingTokenSource)
        ensures
            r.position() == 0,
            match r.fault_of() {
                Option::None => !r.fault_pending() && exists|n: nat|
                    run(macros@, init_state(token_stream.remaining()), n)
                        == StatusModel::Finished(r.produced()),
                Option::Some(e) => r.produced().len() == 0 && r.fault_pending() && match error_model(
                    e,
                ) {
                    Option::Some(em) => exists|n: nat|
                        run(macros@, init_state(token_stream.remaining()), n)
                            == StatusModel::Failed(em),
                    Option::None => run(
                        macros@,
                        init_state(token_stream.remaining()),
                        u64::MAX as nat,
                    ) is Running,
                },
            },
    {
        let ghost upstream0 = token_stream.remaining();
        let mut token_stream = token_stream;
        let mut input: Vec<PreprocessingToken> = Vec::new();
        let mut done = false;
        proof {
            assert(toks_view(input@) =~= Seq::<TokenModel>::empty());
            assert(toks_view(input@) + token_stream.remaining() =~= upstream0);
        }
        while !done
            invariant
                done ==> token_stream.remaining().len() == 0,
                toks_view(input@) + token_stream.remaining() == upstream0,
            decreases token_stream.remaining().len() + (if done {
                0int
            } else {
                1int
            }),
        {
            let ghost before = token_stream.remaining();
            match token_stream.next() {
                Atom::Datum(t) => {
                    let ghost tv = t@;
                    proof {
                        crate::expand::lemma_toks_push(input@, t);
                    }
                    input.push(t);
                    proof {
                        assert(toks_view(input@) + token_stream.remaining() =~= upstream0);
                    }
                },
                Atom::Empty => {
                    done = true;
                },
                Atom::Error(_) => {
                    proof {
                        assert(false);
                    }
                    done = true;
                },
            }
        }
        proof {
            assert(toks_view(input@) =~= upstream0);
        }
        match expand_tokens(&macros, &input) {
            Expansion::Complete(v) => MacroExpandingTokenSource {
                macros,
                items: v,
                fault: Option::None,
                pos: 0,
                fault_given: false,
            },
            Expansion::Faulted(e) => MacroExpandingTokenSource {
                macros,
                items: Vec::new(),
                fault: Option::Some(e),
                pos: 0,
                fault_given: false,
            },
            Expansion::OutOfBudget => MacroExpandingTokenSource {
                macros,
                items: Vec::new(),
                fault: Option::Some(ExpandError::BudgetExhausted),
                pos: 0,
                fault_given: false,
            },
        }
    }

    /// One protocol step of the expanded stream: the next expanded token;
    /// or, after the last one, the expansion's error once, if there was
    /// one; then Empty, idempotently.
    pub fn next(&mut self) -> (a: Atom<PreprocessingToken, ExpandError>)
        ensures
            final(self).produced() == old(self).produced(),
            final(self).fault_of() == old(self).fault_of(),
            old(self).position() < old(self).produced().len() ==> (a matches Atom::Datum(t)
                && t@ == old(self).produced()[old(self).position() as int]
                && final(self).position() == old(self).position() + 1
                && final(self).fault_pending() == old(self).fault_pending()),
            old(self).position() >= old(self).produced().len()
                ==> final(self).position() == old(self).position(),
            old(self).position() >= old(self).produced().len() && old(self).fault_pending()
                ==> (a matches Atom::Error(e) && Option::Some(e) == old(self).fault_of()
                    && !final(self).fault_pending()),
            old(self).position() >= old(self).produced().len() && !old(self).fault_pending()
                ==> a is Empty && final(self).fault_pending() == old(self).fault_pending(),
    {
        if self.pos < self.items.len() {
            let t = clone_token(&self.items[self.pos]);
            proof {
                assert(toks_view(self.items@)[self.pos as int] == self.items@[self.pos as int]@);
            }
            self.pos = self.pos + 1;
            Atom::Datum(t)
        } else if !self.fault_given {
            match &self.fault {
                Option::Some(e) => {
                    let err = clone_error(e);
                    self.fault_given = true;
                    Atom::Error(err)
                },
                Option::None => Atom::Empty,
            }
        } else {
            Atom::Empty
        }
    }
}

} // verus!
