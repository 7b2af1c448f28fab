//! Application of validated effects to a ledger.

use crate::ledger::UtxoSet;
use crate::types::{Output, OutputRef};
use crate::validation::{reversed, ValidatedEffects};
use vstd::prelude::*;

verus! {

/// The ledger after the outputs named in `consumed` were taken out, one
/// after the other.
pub open spec fn remove_all<R>(
    ledger: Map<OutputRef, Output<R>>,
    consumed: Seq<OutputRef>,
) -> Map<OutputRef, Output<R>>
    decreases consumed.len(),
{
    if consumed.len() == 0 {
        ledger
    } else {
        remove_all(ledger, consumed.drop_last()).remove(consumed.last())
    }
}

/// The ledger after the outputs in `created` were put in, one after the
/// other, each under its identity.
pub open spec fn insert_all<R>(
    ledger: Map<OutputRef, Output<R>>,
    created: Seq<(OutputRef, Output<R>)>,
) -> Map<OutputRef, Output<R>>
    decreases created.len(),
{
    if created.len() == 0 {
        ledger
    } else {
        insert_all(ledger, created.drop_last()).insert(created.last().0, created.last().1)
    }
}

impl<R> ValidatedEffects<R> {
    /// The ledger that applying the effects to `ledger` gives: the consumed
    /// outputs are taken out, then the created ones are put in.
    pub open spec fn applied_to(self, ledger: Map<OutputRef, Output<R>>) -> Map<
        OutputRef,
        Output<R>,
    > {
        insert_all(remove_all(ledger, self.consumed@), self.created@)
    }
}

/// Applies the effects of a validated transaction to the ledger: every
/// consumed output leaves it and every created output enters it. Nothing
/// can fail here. The effects are those of the transaction only on the
/// ledger that the transaction was validated against.
pub fn apply<R>(effects: ValidatedEffects<R>, ledger: &mut UtxoSet<R>)
    ensures
        final(ledger)@ == effects.applied_to(old(ledger)@),
{
    let ghost before = ledger@;
    let ghost consumed = effects.consumed@;
    let ghost created = effects.created@;
    let count = effects.consumed.len();
    let mut at: usize = 0;
    while at < count
        invariant
            count == consumed.len(),
            consumed == effects.consumed@,
            at <= count,
            ledger@ == remove_all(before, consumed.take(at as int)),
        decreases count - at,
    {
        ledger.remove(&effects.consumed[at]);
        assert(consumed.take(at + 1).drop_last() =~= consumed.take(at as int));
        at += 1;
    }
    assert(consumed.take(count as int) =~= consumed);
    let ghost cleared = ledger@;
    let mut rest = reversed(effects.created);
    while rest.len() > 0
        invariant
            rest@.len() <= created.len(),
            forall|i: int| 0 <= i < rest@.len() ==> rest@[i] == created[created.len() - 1 - i],
            ledger@ == insert_all(cleared, created.take(created.len() - rest@.len())),
        decreases rest@.len(),
    {
        let ghost done = created.len() - rest@.len();
        match rest.pop() {
            Some(entry) => {
                assert(entry == created[done]);
                ledger.insert(entry.0, entry.1);
                assert(created.take(done + 1).drop_last() =~= created.take(done));
            },
            None => {},
        }
    }
    assert(created.take(created.len() as int) =~= created);
}

} // verus!
