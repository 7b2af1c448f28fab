//! Validation of a transaction against a ledger.

use crate::hashing::{blake2_256_digest, transaction_hash};
use crate::ledger::UtxoSet;
use crate::types::{DispatchResult, Output, OutputRef, Transaction, UtxoError};
use vstd::prelude::*;

verus! {

/// The predicate that guards an output: it decides whether what an input
/// shows entitles the transaction to consume the output.
pub trait Redeemer {
    /// Whether `witness` entitles the transaction that `context` encodes to
    /// consume the output that `self` guards.
    fn redeem(&self, context: &[u8], witness: &[u8]) -> bool;
}

/// The predicate on a whole transaction: it decides whether the outputs
/// consumed and the outputs proposed make an acceptable transition.
pub trait Verifier<R> {
    /// Why a transaction is not acceptable.
    type Error;

    /// Accepts or rejects the transition from `inputs`, the outputs that the
    /// transaction consumes, to `outputs`, those it proposes.
    fn verify(&self, inputs: &[&Output<R>], outputs: &[Output<R>]) -> Result<(), Self::Error>;
}

/// What a valid transaction does to a ledger.
#[derive(Debug, Clone, PartialEq, Eq)]
pub struct ValidatedEffects<R> {
    /// The outputs to take out, in the order of the inputs.
    pub consumed: Vec<OutputRef>,
    /// The outputs to put in, each under its new identity, in the order of
    /// the transaction's outputs.
    pub created: Vec<(OutputRef, Output<R>)>,
}

/// The identity of the output at `position` of the transaction with the
/// hash `tx_hash`.
pub open spec fn created_ref(tx_hash: [u8; 32], position: int) -> OutputRef {
    OutputRef { tx_hash, index: position as u32 }
}

/// `ok` is what the redeemer can answer when shown `witness` in `context`.
pub open spec fn redeemer_returns<R: Redeemer>(
    redeemer: R,
    context: Seq<u8>,
    witness: Seq<u8>,
    ok: bool,
) -> bool {
    exists|c: &[u8], w: &[u8]|
        c@ == context && w@ == witness && call_ensures(R::redeem, (&redeemer, c, w), ok)
}

/// `verdict` is what the verifier can answer for the transition from
/// `inputs` to `outputs`.
pub open spec fn verifier_returns<R, V: Verifier<R>>(
    verifier: V,
    inputs: Seq<Output<R>>,
    outputs: Seq<Output<R>>,
    verdict: Result<(), V::Error>,
) -> bool {
    exists|given: &[&Output<R>], proposed: &[Output<R>]|
        {
            &&& given@.len() == inputs.len()
            &&& forall|i: int| 0 <= i < inputs.len() ==> *#[trigger] given@[i] == inputs[i]
            &&& proposed@ == outputs
            &&& call_ensures(V::verify, (&verifier, given, proposed), verdict)
        }
}

impl<R, V> Transaction<R, V> {
    /// The outputs that the inputs name, in order.
    pub open spec fn input_refs(self) -> Seq<OutputRef> {
        Seq::new(self.inputs@.len(), |i: int| self.inputs@[i].output_ref)
    }

    /// The outputs of the transaction, each with the identity it gets.
    pub open spec fn created(self, tx_hash: [u8; 32]) -> Seq<(OutputRef, Output<R>)> {
        Seq::new(self.outputs@.len(), |i: int| (created_ref(tx_hash, i), self.outputs@[i]))
    }

    /// Two inputs name the same output.
    pub open spec fn has_duplicate_inputs(self) -> bool {
        exists|i: int, j: int|
            0 <= i < j < self.inputs@.len() && (#[trigger] self.inputs@[i]).output_ref == (
            #[trigger] self.inputs@[j]).output_ref
    }

    /// There are more outputs than there are positions, so that two of them
    /// would get the same identity.
    pub open spec fn has_colliding_outputs(self) -> bool {
        self.outputs@.len() > 0x1_0000_0000
    }

    /// The ledger already holds the identity that one of the outputs would
    /// get.
    pub open spec fn has_preexisting_output(
        self,
        tx_hash: [u8; 32],
        ledger: Map<OutputRef, Output<R>>,
    ) -> bool {
        exists|i: int|
            0 <= i < self.outputs@.len() && ledger.contains_key(#[trigger] created_ref(tx_hash, i))
    }

    /// An input names an output that the ledger does not hold.
    pub open spec fn has_missing_input(self, ledger: Map<OutputRef, Output<R>>) -> bool {
        exists|i: int|
            0 <= i < self.inputs@.len() && !ledger.contains_key(
                (#[trigger] self.inputs@[i]).output_ref,
            )
    }

    /// The first fault in the structure of the transaction, the checks taken
    /// in their fixed order; `None` where there is none.
    pub open spec fn structural_error<E>(
        self,
        tx_hash: [u8; 32],
        ledger: Map<OutputRef, Output<R>>,
    ) -> Option<UtxoError<E>> {
        if self.has_duplicate_inputs() {
            Some(UtxoError::DuplicateInput)
        } else if self.has_colliding_outputs() {
            Some(UtxoError::DuplicateOutput)
        } else if self.has_preexisting_output(tx_hash, ledger) {
            Some(UtxoError::PreExistingOutput)
        } else if self.has_missing_input(ledger) {
            Some(UtxoError::MissingInput)
        } else {
            None
        }
    }

    /// The outputs that the inputs consume, in order.
    pub open spec fn resolved_inputs(self, ledger: Map<OutputRef, Output<R>>) -> Seq<Output<R>> {
        Seq::new(self.inputs@.len(), |i: int| ledger[self.inputs@[i].output_ref])
    }
}

impl<R: Redeemer, V: Verifier<R>> Transaction<R, V> {
    /// `ok` is what the redeemer of the output that input `at` consumes can
    /// answer to that input's witness.
    pub open spec fn redeemed(
        self,
        context: Seq<u8>,
        ledger: Map<OutputRef, Output<R>>,
        at: int,
        ok: bool,
    ) -> bool {
        redeemer_returns(
            ledger[self.inputs@[at].output_ref].redeemer,
            context,
            self.inputs@[at].witness@,
            ok,
        )
    }

    /// Every redeemer accepted its input.
    pub open spec fn all_redeemed(
        self,
        context: Seq<u8>,
        ledger: Map<OutputRef, Output<R>>,
    ) -> bool {
        forall|i: int|
            0 <= i < self.inputs@.len() ==> #[trigger] self.redeemed(context, ledger, i, true)
    }

    /// A redeemer rejected its input, after those of all inputs before it
    /// had accepted theirs.
    pub open spec fn redeemer_rejected(
        self,
        context: Seq<u8>,
        ledger: Map<OutputRef, Output<R>>,
    ) -> bool {
        exists|i: int|
            {
                &&& 0 <= i < self.inputs@.len()
                &&& #[trigger] self.redeemed(context, ledger, i, false)
                &&& forall|j: int| 0 <= j < i ==> #[trigger] self.redeemed(context, ledger, j, true)
            }
    }

    /// `verdict` is what the verifier can answer for this transaction.
    pub open spec fn judged(
        self,
        ledger: Map<OutputRef, Output<R>>,
        verdict: Result<(), V::Error>,
    ) -> bool {
        verifier_returns(self.verifier, self.resolved_inputs(ledger), self.outputs@, verdict)
    }

    /// `result` is a possible result of validating the transaction: the
    /// first structural fault where there is one, else what the redeemers
    /// and the verifier decide.
    pub open spec fn validates_to(
        self,
        tx_hash: [u8; 32],
        context: Seq<u8>,
        ledger: Map<OutputRef, Output<R>>,
        result: Result<ValidatedEffects<R>, UtxoError<V::Error>>,
    ) -> bool {
        match self.structural_error::<V::Error>(tx_hash, ledger) {
            Some(error) => result == Err::<ValidatedEffects<R>, UtxoError<V::Error>>(error),
            None => match result {
                Ok(effects) => {
                    &&& self.all_redeemed(context, ledger)
                    &&& self.judged(ledger, Ok(()))
                    &&& effects.consumed@ == self.input_refs()
                    &&& effects.created@ == self.created(tx_hash)
                },
                Err(UtxoError::RedeemerError) => self.redeemer_rejected(context, ledger),
                Err(UtxoError::VerifierError(error)) => {
                    &&& self.all_redeemed(context, ledger)
                    &&& self.judged(ledger, Err(error))
                },
                Err(_) => false,
            },
        }
    }
}

/// Whether two inputs of the transaction name the same output.
fn find_duplicate_input<R, V>(transaction: &Transaction<R, V>) -> (found: bool)
    ensures
        found == transaction.has_duplicate_inputs(),
{
    let count = transaction.inputs.len();
    let mut second: usize = 0;
    while second < count
        invariant
            count == transaction.inputs@.len(),
            second <= count,
            forall|i: int, j: int|
                0 <= i < j < second ==> (#[trigger] transaction.inputs@[i]).output_ref != (
                #[trigger] transaction.inputs@[j]).output_ref,
        decreases count - second,
    {
        let mut first: usize = 0;
        while first < second
            invariant
                count == transaction.inputs@.len(),
                second < count,
                first <= second,
                forall|i: int|
                    0 <= i < first ==> (#[trigger] transaction.inputs@[i]).output_ref
                        != transaction.inputs@[second as int].output_ref,
            decreases second - first,
        {
            if transaction.inputs[first].output_ref == transaction.inputs[second].output_ref {
                return true;
            }
            first += 1;
        }
        second += 1;
    }
    false
}

/// Whether the ledger holds the identity that one of the outputs would get.
fn find_preexisting_output<R, V>(
    transaction: &Transaction<R, V>,
    tx_hash: [u8; 32],
    ledger: &UtxoSet<R>,
) -> (found: bool)
    requires
        !transaction.has_colliding_outputs(),
    ensures
        found == transaction.has_preexisting_output(tx_hash, ledger@),
{
    let count = transaction.outputs.len();
    let mut at: usize = 0;
    while at < count
        invariant
            count == transaction.outputs@.len(),
            count <= 0x1_0000_0000,
            at <= count,
            forall|i: int| 0 <= i < at ==> !ledger@.contains_key(#[trigger] created_ref(tx_hash, i)),
        decreases count - at,
    {
        let output_ref = OutputRef { tx_hash, index: at as u32 };
        assert(output_ref == created_ref(tx_hash, at as int));
        if ledger.contains(&output_ref) {
            return true;
        }
        at += 1;
    }
    false
}

/// The outputs that the inputs name, as the ledger holds them; `None` where
/// the ledger lacks one.
fn resolve_inputs<'a, R, V>(transaction: &Transaction<R, V>, ledger: &'a UtxoSet<R>) -> (found:
    Option<Vec<&'a Output<R>>>)
    ensures
        found is None == transaction.has_missing_input(ledger@),
        found matches Some(resolved) ==> {
            &&& resolved@.len() == transaction.inputs@.len()
            &&& forall|i: int|
                0 <= i < resolved@.len() ==> *#[trigger] resolved@[i]
                    == ledger@[transaction.inputs@[i].output_ref]
        },
{
    let count = transaction.inputs.len();
    let mut resolved: Vec<&'a Output<R>> = Vec::new();
    let mut at: usize = 0;
    while at < count
        invariant
            count == transaction.inputs@.len(),
            at <= count,
            resolved@.len() == at,
            forall|i: int|
                0 <= i < at ==> ledger@.contains_key((#[trigger] transaction.inputs@[i]).output_ref),
            forall|i: int|
                0 <= i < at ==> *#[trigger] resolved@[i]
                    == ledger@[transaction.inputs@[i].output_ref],
        decreases count - at,
    {
        match ledger.get(&transaction.inputs[at].output_ref) {
            Some(output) => {
                resolved.push(output);
            },
            None => {
                return None;
            },
        }
        at += 1;
    }
    Some(resolved)
}

/// The structural checks, in their order, and the outputs that the inputs
/// name where all of them pass.
fn check_and_resolve<'a, R, V, E>(
    transaction: &Transaction<R, V>,
    tx_hash: [u8; 32],
    ledger: &'a UtxoSet<R>,
) -> (result: Result<Vec<&'a Output<R>>, UtxoError<E>>)
    ensures
        match transaction.structural_error::<E>(tx_hash, ledger@) {
            Some(error) => result == Err::<Vec<&'a Output<R>>, UtxoError<E>>(error),
            None => result matches Ok(resolved) && {
                &&& resolved@.len() == transaction.inputs@.len()
                &&& forall|i: int|
                    0 <= i < resolved@.len() ==> *#[trigger] resolved@[i]
                        == ledger@[transaction.inputs@[i].output_ref]
            },
        },
{
    if find_duplicate_input(transaction) {
        return Err(UtxoError::DuplicateInput);
    }
    let count = transaction.outputs.len();
    if count > 0 && count - 1 > u32::MAX as usize {
        return Err(UtxoError::DuplicateOutput);
    }
    if find_preexisting_output(transaction, tx_hash, ledger) {
        return Err(UtxoError::PreExistingOutput);
    }
    match resolve_inputs(transaction, ledger) {
        Some(resolved) => Ok(resolved),
        None => Err(UtxoError::MissingInput),
    }
}

/// The structural checks on a transaction: no output is named by two
/// inputs, no output gets an identity that another output of the
/// transaction or the ledger has, and the ledger holds every output that an
/// input names. The first check that fails, in this order, gives the error.
pub fn check_structure<R, V, E>(
    transaction: &Transaction<R, V>,
    tx_hash: [u8; 32],
    ledger: &UtxoSet<R>,
) -> (result: DispatchResult<E>)
    ensures
        match transaction.structural_error::<E>(tx_hash, ledger@) {
            Some(error) => result == Err::<(), UtxoError<E>>(error),
            None => result is Ok,
        },
{
    match check_and_resolve(transaction, tx_hash, ledger) {
        Ok(_) => Ok(()),
        Err(error) => Err(error),
    }
}

/// The same items in the opposite order.
pub(crate) fn reversed<T>(items: Vec<T>) -> (turned: Vec<T>)
    ensures
        turned@ == items@.reverse(),
{
    let ghost given = items@;
    let mut rest = items;
    let mut turned: Vec<T> = Vec::new();
    while rest.len() > 0
        invariant
            rest@.len() + turned@.len() == given.len(),
            rest@ == given.take(rest@.len() as int),
            forall|i: int| 0 <= i < turned@.len() ==> turned@[i] == given[given.len() - 1 - i],
        decreases rest@.len(),
    {
        match rest.pop() {
            Some(item) => {
                turned.push(item);
            },
            None => {},
        }
    }
    assert(turned@ =~= given.reverse());
    turned
}

/// The inputs' references, in order.
fn consumed_refs<R, V>(transaction: &Transaction<R, V>) -> (consumed: Vec<OutputRef>)
    ensures
        consumed@ == transaction.input_refs(),
{
    let count = transaction.inputs.len();
    let mut consumed: Vec<OutputRef> = Vec::new();
    let mut at: usize = 0;
    while at < count
        invariant
            count == transaction.inputs@.len(),
            at <= count,
            consumed@.len() == at,
            forall|i: int| 0 <= i < at ==> consumed@[i] == transaction.inputs@[i].output_ref,
        decreases count - at,
    {
        consumed.push(transaction.inputs[at].output_ref);
        at += 1;
    }
    assert(consumed@ =~= transaction.input_refs());
    consumed
}

/// Each output with the identity that it gets, in order.
fn created_outputs<R>(outputs: Vec<Output<R>>, tx_hash: [u8; 32]) -> (created: Vec<
    (OutputRef, Output<R>),
>)
    requires
        outputs@.len() <= 0x1_0000_0000,
    ensures
        created@ == Seq::new(outputs@.len(), |i: int| (created_ref(tx_hash, i), outputs@[i])),
{
    let ghost given = outputs@;
    let mut rest = outputs;
    let mut turned: Vec<(OutputRef, Output<R>)> = Vec::new();
    while rest.len() > 0
        invariant
            given.len() <= 0x1_0000_0000,
            rest@.len() + turned@.len() == given.len(),
            rest@ == given.take(rest@.len() as int),
            forall|i: int|
                0 <= i < turned@.len() ==> turned@[i] == (
                    created_ref(tx_hash, given.len() - 1 - i),
                    given[given.len() - 1 - i],
                ),
        decreases rest@.len(),
    {
        match rest.pop() {
            Some(output) => {
                let index = rest.len() as u32;
                turned.push((OutputRef { tx_hash, index }, output));
            },
            None => {},
        }
    }
    let created = reversed(turned);
    assert(created@ =~= Seq::new(given.len(), |i: int| (created_ref(tx_hash, i), given[i])));
    created
}

/// Shows each input's witness to the redeemer of the output that the input
/// consumes, in order, and stops at the first that rejects.
fn check_redeemers<R: Redeemer, V: Verifier<R>>(
    transaction: &Transaction<R, V>,
    context: &[u8],
    ledger: &UtxoSet<R>,
    resolved: &Vec<&Output<R>>,
) -> (accepted: bool)
    requires
        resolved@.len() == transaction.inputs@.len(),
        forall|i: int|
            0 <= i < resolved@.len() ==> *#[trigger] resolved@[i]
                == ledger@[transaction.inputs@[i].output_ref],
    ensures
        accepted ==> transaction.all_redeemed(context@, ledger@),
        !accepted ==> transaction.redeemer_rejected(context@, ledger@),
{
    let count = transaction.inputs.len();
    let mut at: usize = 0;
    while at < count
        invariant
            count == transaction.inputs@.len(),
            resolved@.len() == count,
            at <= count,
            forall|i: int|
                0 <= i < resolved@.len() ==> *#[trigger] resolved@[i]
                    == ledger@[transaction.inputs@[i].output_ref],
            forall|i: int|
                0 <= i < at ==> #[trigger] transaction.redeemed(context@, ledger@, i, true),
        decreases count - at,
    {
        let witness = transaction.inputs[at].witness.as_slice();
        let output = resolved[at];
        let ok = output.redeemer.redeem(context, witness);
        assert(call_ensures(R::redeem, (&output.redeemer, context, witness), ok));
        assert(transaction.redeemed(context@, ledger@, at as int, ok));
        if !ok {
            return false;
        }
        at += 1;
    }
    true
}

/// Validates a transaction whose hash is known. The structural checks come
/// first, in the order of `check_structure`. Then each input's witness is
/// shown to the redeemer of the output it consumes, in the order of the
/// inputs, up to the first that rejects. Then the verifier judges the
/// transaction, once. The ledger is only read.
pub fn validate_hashed<R: Redeemer, V: Verifier<R>>(
    transaction: Transaction<R, V>,
    tx_hash: [u8; 32],
    context: &[u8],
    ledger: &UtxoSet<R>,
) -> (result: Result<ValidatedEffects<R>, UtxoError<V::Error>>)
    ensures
        transaction.validates_to(tx_hash, context@, ledger@, result),
        transaction.has_duplicate_inputs() ==> result matches Err(UtxoError::DuplicateInput),
{
    let resolved = match check_and_resolve(&transaction, tx_hash, ledger) {
        Ok(resolved) => resolved,
        Err(error) => {
            return Err(error);
        },
    };
    if !check_redeemers(&transaction, context, ledger, &resolved) {
        return Err(UtxoError::RedeemerError);
    }
    let given = resolved.as_slice();
    let proposed = transaction.outputs.as_slice();
    let verdict = transaction.verifier.verify(given, proposed);
    assert(call_ensures(V::verify, (&transaction.verifier, given, proposed), verdict));
    assert(transaction.judged(ledger@, verdict));
    match verdict {
        Ok(unit) => {
            assert(unit == ());
            let consumed = consumed_refs(&transaction);
            let created = created_outputs(transaction.outputs, tx_hash);
            Ok(ValidatedEffects { consumed, created })
        },
        Err(error) => Err(UtxoError::VerifierError(error)),
    }
}

/// Validates a transaction against a ledger. `encoded` is the canonical
/// encoding of the transaction: its digest is the transaction's hash, under
/// which the outputs get their identities, and it is the context that the
/// redeemers are shown.
pub fn validate<R: Redeemer, V: Verifier<R>>(
    transaction: Transaction<R, V>,
    encoded: &[u8],
    ledger: &UtxoSet<R>,
) -> (result: Result<ValidatedEffects<R>, UtxoError<V::Error>>)
    ensures
        transaction.validates_to(blake2_256_digest(encoded@), encoded@, ledger@, result),
        transaction.has_duplicate_inputs() ==> result matches Err(UtxoError::DuplicateInput),
{
    let tx_hash = transaction_hash(encoded);
    validate_hashed(transaction, tx_hash, encoded, ledger)
}

} // verus!
