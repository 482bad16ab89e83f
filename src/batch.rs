//! Partition of a settlement plan into bounded transactions.

use vstd::prelude::*;

verus! {

/// Number of operations one transaction carries.
pub const BATCH_SIZE: usize = 5;

/// The operations of each batch, as sequences.
pub open spec fn batch_views<T>(batches: Seq<Vec<T>>) -> Seq<Seq<T>> {
    batches.map_values(|b: Vec<T>| b@)
}

/// Number of batches of at most `size` items that `n` items fill.
pub open spec fn batch_count(n: nat, size: nat) -> nat
    recommends
        size > 0,
{
    ((n + size - 1) as nat) / size
}

/// Splits `items` into consecutive batches of `size` items, the last one
/// holding what is left. Concatenating the batches gives the items back in
/// their order.
pub fn split_into_batches<T>(items: Vec<T>, size: usize) -> (r: Vec<Vec<T>>)
    requires
        size > 0,
    ensures
        r@.len() == batch_count(items@.len() as nat, size as nat),
        batch_views(r@).flatten() == items@,
        forall|k: int|
            0 <= k < r@.len() ==> (#[trigger] r@[k])@ == items@.subrange(
                k * size,
                if (k + 1) * size <= items@.len() {
                    (k + 1) * size
                } else {
                    items@.len() as int
                },
            ),
        forall|k: int| 0 <= k < r@.len() ==> 0 < (#[trigger] r@[k])@.len() <= size,
{
    let ghost all = items@;
    let ghost n = items@.len();
    let mut rest = items;
    let mut out: Vec<Vec<T>> = Vec::new();
    proof {
        vstd::arithmetic::div_mod::lemma_fundamental_div_mod_converse(
            size - 1,
            size as int,
            0,
            size - 1,
        );
        assert(out@.len() == 0);
        assert(out@.len() * size == 0) by (nonlinear_arith)
            requires
                out@.len() == 0,
        ;
    }
    while rest.len() > 0
        invariant
            size > 0,
            n == all.len(),
            rest@.len() <= n,
            rest@ == all.subrange(n - rest@.len(), n as int),
            rest@.len() > 0 ==> n - rest@.len() == out@.len() * size,
            out@.len() == batch_count((n - rest@.len()) as nat, size as nat),
            batch_views(out@).flatten() + rest@ == all,
            forall|k: int|
                0 <= k < out@.len() ==> (#[trigger] out@[k])@ == all.subrange(
                    k * size,
                    if (k + 1) * size <= n {
                        (k + 1) * size
                    } else {
                        n as int
                    },
                ),
            forall|k: int| 0 <= k < out@.len() ==> 0 < (#[trigger] out@[k])@.len() <= size,
        decreases rest@.len(),
    {
        let ghost before = out@;
        let ghost k = out@.len() as int;
        let at: usize = if rest.len() > size {
            size
        } else {
            rest.len()
        };
        let tail = rest.split_off(at);
        let ghost head = rest@;
        out.push(rest);
        rest = tail;
        proof {
            assert(batch_views(out@) =~= batch_views(before).push(head));
            batch_views(before).lemma_flatten_push(head);
            assert(batch_views(out@).flatten() + rest@ =~= all);
            assert(k * size + size == (k + 1) * size) by (nonlinear_arith);
            lemma_count_step(k, at as int, size as int);
            assert(n - rest@.len() == k * size + at);
            assert(rest@ =~= all.subrange(n - rest@.len(), n as int));
            if at < size {
                assert(rest@.len() == 0);
            }
            assert(out@[k]@ =~= all.subrange(
                k * size,
                if (k + 1) * size <= n {
                    (k + 1) * size
                } else {
                    n as int
                },
            ));
        }
    }
    proof {
        assert(batch_views(out@).flatten() =~= all);
    }
    out
}

proof fn lemma_count_step(k: int, at: int, size: int)
    requires
        k >= 0,
        0 < at <= size,
    ensures
        batch_count((k * size + at) as nat, size as nat) == k + 1,
{
    assert(k * size >= 0) by (nonlinear_arith)
        requires
            k >= 0,
            size > 0,
    ;
    assert((k + 1) * size == k * size + size) by (nonlinear_arith);
    vstd::arithmetic::div_mod::lemma_fundamental_div_mod_converse(
        k * size + at + size - 1,
        size,
        k + 1,
        at - 1,
    );
}

/// What the submitter does next.
#[derive(Clone, Copy, Debug, PartialEq, Eq)]
pub enum SubmitAction {
    /// Sign, send and await confirmation of the batch at this position.
    Send(usize),
    /// Every batch is confirmed.
    Done,
    /// The batch at this position failed: stop, sending nothing more.
    Abort(usize),
}

/// Progress of a run that submits `total` batches in order, each only after
/// the one before it is confirmed, and stops at the first failure.
#[derive(Clone, Copy, Debug, PartialEq, Eq)]
pub struct Submission {
    pub total: usize,
    pub confirmed: usize,
    pub failed: bool,
}

impl Submission {
    /// Confirmed batches are a prefix of the batches, and a failed one is the
    /// batch right after them.
    pub open spec fn wf(&self) -> bool {
        &&& self.confirmed <= self.total
        &&& self.failed ==> self.confirmed < self.total
    }

    /// A run over `total` batches that has sent nothing.
    pub fn new(total: usize) -> (r: Submission)
        ensures
            r == (Submission { total, confirmed: 0, failed: false }),
            r.wf(),
    {
        Submission { total, confirmed: 0, failed: false }
    }

    /// The next step: the first unconfirmed batch, or the end of the run.
    pub fn next_action(&self) -> (r: SubmitAction)
        requires
            self.wf(),
        ensures
            self.failed ==> r == SubmitAction::Abort(self.confirmed),
            !self.failed && self.confirmed < self.total ==> r == SubmitAction::Send(self.confirmed),
            !self.failed && self.confirmed == self.total ==> r == SubmitAction::Done,
    {
        if self.failed {
            SubmitAction::Abort(self.confirmed)
        } else if self.confirmed < self.total {
            SubmitAction::Send(self.confirmed)
        } else {
            SubmitAction::Done
        }
    }

    /// Records the outcome of the batch just sent.
    pub fn record(&mut self, ok: bool)
        requires
            old(self).wf(),
            !old(self).failed,
            old(self).confirmed < old(self).total,
        ensures
            final(self).wf(),
            final(self).total == old(self).total,
            ok ==> final(self).confirmed == old(self).confirmed + 1 && !final(self).failed,
            !ok ==> final(self).confirmed == old(self).confirmed && final(self).failed,
    {
        if ok {
            self.confirmed = self.confirmed + 1;
        } else {
            self.failed = true;
        }
    }
}

} // verus!
