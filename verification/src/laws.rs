//! Laws of the expansion machine: determinism of its runs, pass-through
//! of streams with nothing to expand, and idempotence on fully expanded
//! streams.

use vstd::prelude::*;
use crate::token::TokenModel;
use crate::model::{
    TableModel, StateModel, StatusModel, UnitModel, ErrorModel, run, step, init_state, expands_to,
    fails_with, to_units, plain_units,
};

verus! {

/// A token the table would try to expand: an identifier among its keys.
pub open spec fn is_table_ident(table: TableModel, t: TokenModel) -> bool {
    match t {
        TokenModel::Identifier(n) => table.contains_key(n),
        _ => false,
    }
}

/// A stream in which no macro-table identifier remains.
pub open spec fn no_macro_idents(table: TableModel, ts: Seq<TokenModel>) -> bool {
    forall|i: int| 0 <= i < ts.len() ==> !is_table_ident(table, #[trigger] ts[i])
}

/// Once terminal, a run stays where it is.
pub proof fn lemma_run_stable(table: TableModel, st: StateModel, n: nat, m: nat)
    requires
        n <= m,
        !(run(table, st, n) is Running),
    ensures
        run(table, st, m) == run(table, st, n),
    decreases m,
{
    if m > n {
        lemma_run_stable(table, st, n, (m - 1) as nat);
    }
}

/// The machine is deterministic: it reaches at most one terminal status.
pub proof fn lemma_terminal_unique(table: TableModel, st: StateModel, n: nat, m: nat)
    requires
        !(run(table, st, n) is Running),
        !(run(table, st, m) is Running),
    ensures
        run(table, st, n) == run(table, st, m),
{
    if n <= m {
        lemma_run_stable(table, st, n, m);
    } else {
        lemma_run_stable(table, st, m, n);
    }
}

/// One step folds into the step count.
pub proof fn lemma_run_shift(table: TableModel, st: StateModel, st2: StateModel, k: nat)
    requires
        step(table, st) == StatusModel::Running(st2),
    ensures
        run(table, st, (k + 1) as nat) == run(table, st2, k),
    decreases k,
{
    if k == 0 {
        assert(run(table, st, 0) == StatusModel::Running(st));
        assert(run(table, st2, 0) == StatusModel::Running(st2));
        assert(run(table, st, 1) == step(table, st));
    } else {
        lemma_run_shift(table, st, st2, (k - 1) as nat);
        match run(table, st2, (k - 1) as nat) {
            StatusModel::Running(s) => {
                assert(run(table, st2, k) == step(table, s));
                assert(run(table, st, (k + 1) as nat) == step(table, s));
            },
            StatusModel::Finished(o) => {
                assert(run(table, st2, k) == StatusModel::Finished(o));
                assert(run(table, st, (k + 1) as nat) == StatusModel::Finished(o));
            },
            StatusModel::Failed(e) => {
                assert(run(table, st2, k) == StatusModel::Failed(e));
                assert(run(table, st, (k + 1) as nat) == StatusModel::Failed(e));
            },
        }
    }
}

/// The tokens a pending queue of plain tokens will yield, in processing
/// order (the queue is a stack, so that is the reverse of its order).
pub open spec fn queued_tokens(pending: Seq<UnitModel>) -> Seq<TokenModel> {
    pending.map_values(
        |u: UnitModel|
            match u {
                UnitModel::Token(h) => h.token,
                _ => TokenModel::Newline,
            },
    ).reverse()
}

/// When nothing in the queue can expand, the machine moves every queued
/// token to the output unchanged, in order, and finishes.
proof fn lemma_passthrough_pending(
    table: TableModel,
    pending: Seq<UnitModel>,
    produced: Seq<TokenModel>,
)
    requires
        forall|i: int|
            0 <= i < pending.len() ==> ((#[trigger] pending[i]) matches UnitModel::Token(h)
                && !is_table_ident(table, h.token)),
    ensures
        exists|n: nat|
            run(table, StateModel { pending, frames: Seq::empty(), produced }, n)
                == StatusModel::Finished(produced + queued_tokens(pending)),
    decreases pending.len(),
{
    let st = StateModel { pending, frames: Seq::empty(), produced };
    if pending.len() == 0 {
        assert(step(table, st) == StatusModel::Finished(produced));
        assert(run(table, st, 0) == StatusModel::Running(st));
        assert(run(table, st, 1) == StatusModel::Finished(produced));
        assert(produced + queued_tokens(pending) =~= produced);
    } else {
        assert(pending[pending.len() - 1] matches UnitModel::Token(h) && !is_table_ident(
            table,
            h.token,
        ));
        let h = pending.last()->Token_0;
        let rest = pending.drop_last();
        let st2 = StateModel {
            pending: rest,
            frames: Seq::empty(),
            produced: produced.push(h.token),
        };
        assert(step(table, st) == StatusModel::Running(st2));
        assert forall|i: int|
            0 <= i < rest.len() implies (#[trigger] rest[i]) matches UnitModel::Token(h2)
            && !is_table_ident(table, h2.token) by {
            assert(rest[i] == pending[i]);
        }
        lemma_passthrough_pending(table, rest, produced.push(h.token));
        let n2 = choose|n2: nat|
            run(table, st2, n2) == StatusModel::Finished(
                produced.push(h.token) + queued_tokens(rest),
            );
        lemma_run_shift(table, st, st2, n2);
        assert(produced.push(h.token) + queued_tokens(rest) =~= produced + queued_tokens(
            pending,
        )) by {
            assert forall|k: int| 0 <= k < queued_tokens(pending).len() implies queued_tokens(
                pending,
            )[k] == (seq![h.token] + queued_tokens(rest))[k] by {
                if k == 0 {
                    assert(queued_tokens(pending)[0] == h.token);
                } else {
                    assert(queued_tokens(pending)[k] == queued_tokens(rest)[k - 1]);
                }
            }
            assert(queued_tokens(pending) =~= seq![h.token] + queued_tokens(rest));
        }
        assert(run(table, st, (n2 + 1) as nat) == StatusModel::Finished(
            produced + queued_tokens(pending),
        ));
    }
}

/// Pass-through law: a stream containing no macro-table identifier is
/// yielded unchanged, in order, with no token added or removed — and
/// that is the machine's only outcome on it.
pub proof fn lemma_pass_through(table: TableModel, input: Seq<TokenModel>)
    requires
        no_macro_idents(table, input),
    ensures
        expands_to(table, input, input),
        forall|out: Seq<TokenModel>| expands_to(table, input, out) ==> out == input,
        forall|e: ErrorModel| !fails_with(table, input, e),
{
    let st0 = init_state(input);
    assert forall|i: int|
        0 <= i < st0.pending.len() implies (#[trigger] st0.pending[i]) matches UnitModel::Token(h)
        && !is_table_ident(table, h.token) by {
        let src = to_units(plain_units(input));
        assert(st0.pending[i] == src[src.len() - 1 - i]);
        assert(src[src.len() - 1 - i] == UnitModel::Token(plain_units(input)[src.len() - 1 - i]));
        assert(plain_units(input)[src.len() - 1 - i].token == input[src.len() - 1 - i]);
    }
    lemma_passthrough_pending(table, st0.pending, Seq::empty());
    assert(queued_tokens(st0.pending) =~= input) by {
        let src = to_units(plain_units(input));
        assert forall|k: int| 0 <= k < queued_tokens(st0.pending).len() implies queued_tokens(
            st0.pending,
        )[k] == input[k] by {
            let mapped = st0.pending.map_values(
                |u: UnitModel|
                    match u {
                        UnitModel::Token(h) => h.token,
                        _ => TokenModel::Newline,
                    },
            );
            assert(queued_tokens(st0.pending)[k] == mapped[mapped.len() - 1 - k]);
            assert(st0.pending[mapped.len() - 1 - k] == src[k]);
            assert(src[k] == UnitModel::Token(plain_units(input)[k]));
        }
    }
    let n = choose|n: nat|
        run(table, StateModel { pending: st0.pending, frames: Seq::empty(), produced: Seq::empty() },
            n,
        ) == StatusModel::Finished(Seq::empty() + queued_tokens(st0.pending));
    assert(st0 =~= StateModel {
        pending: st0.pending,
        frames: Seq::empty(),
        produced: Seq::empty(),
    });
    assert(Seq::empty() + queued_tokens(st0.pending) =~= input);
    assert(run(table, st0, n) == StatusModel::Finished(input));
    assert(expands_to(table, input, input));
    assert forall|out: Seq<TokenModel>| expands_to(table, input, out) implies out == input by {
        let n1 = choose|n1: nat| run(table, st0, n1) == StatusModel::Finished(out);
        lemma_terminal_unique(table, st0, n, n1);
    }
    assert forall|e: ErrorModel| !fails_with(table, input, e) by {
        if fails_with(table, input, e) {
            let n1 = choose|n1: nat| run(table, st0, n1) == StatusModel::Failed(e);
            lemma_terminal_unique(table, st0, n, n1);
        }
    }
}

/// Idempotence law: re-running expansion on an already fully expanded
/// stream — an expansion's output in which no macro-table identifier
/// remains — is a no-op, and cannot fail.
pub proof fn lemma_idempotent(table: TableModel, input: Seq<TokenModel>, once: Seq<TokenModel>)
    requires
        expands_to(table, input, once),
        no_macro_idents(table, once),
    ensures
        expands_to(table, once, once),
        forall|out: Seq<TokenModel>| expands_to(table, once, out) ==> out == once,
        forall|e: ErrorModel| !fails_with(table, once, e),
{
    lemma_pass_through(table, once);
}

} // verus!
