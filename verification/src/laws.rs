//! What holds of the engine as a whole, proved from the contracts of its
//! functions.

use crate::application::{insert_all, remove_all};
use crate::types::{
    decodes, encodes, ExtractionError, Output, OutputRef, Transaction, TypedData, UtxoData,
    UtxoError,
};
use crate::validation::{created_ref, Redeemer, ValidatedEffects, Verifier};
use vstd::prelude::*;

verus! {

/// Taking outputs out one after the other leaves what the ledger held under
/// the other identities, unchanged.
pub proof fn lemma_remove_all<R>(ledger: Map<OutputRef, Output<R>>, consumed: Seq<OutputRef>)
    ensures
        remove_all(ledger, consumed) == ledger.remove_keys(consumed.to_set()),
    decreases consumed.len(),
{
    if consumed.len() == 0 {
        assert(consumed.to_set() =~= Set::<OutputRef>::empty());
        assert(ledger.remove_keys(consumed.to_set()) =~= ledger);
    } else {
        let front = consumed.drop_last();
        lemma_remove_all(ledger, front);
        assert forall|key: OutputRef| consumed.to_set().contains(key) == (front.to_set().contains(
            key,
        ) || key == consumed.last()) by {
            if consumed.contains(key) {
                let at = choose|i: int| 0 <= i < consumed.len() && consumed[i] == key;
                if at < consumed.len() - 1 {
                    assert(front[at] == key);
                }
            }
            if front.contains(key) {
                let at = choose|i: int| 0 <= i < front.len() && front[i] == key;
                assert(consumed[at] == key);
            }
            if key == consumed.last() {
                assert(consumed[consumed.len() - 1] == key);
            }
        }
        assert(ledger.remove_keys(front.to_set()).remove(consumed.last()) =~= ledger.remove_keys(
            consumed.to_set(),
        ));
    }
}

/// After outputs were put in one after the other, the ledger holds an
/// identity exactly if it held it before or one of them was put in under it.
pub proof fn lemma_insert_all_keys<R>(
    ledger: Map<OutputRef, Output<R>>,
    created: Seq<(OutputRef, Output<R>)>,
    key: OutputRef,
)
    ensures
        insert_all(ledger, created).contains_key(key) == (ledger.contains_key(key) || exists|
            i: int,
        |
            0 <= i < created.len() && (#[trigger] created[i]).0 == key),
        !(exists|i: int| 0 <= i < created.len() && (#[trigger] created[i]).0 == key)
            && ledger.contains_key(key) ==> insert_all(ledger, created)[key] == ledger[key],
    decreases created.len(),
{
    if created.len() > 0 {
        let front = created.drop_last();
        lemma_insert_all_keys(ledger, front, key);
        if exists|i: int| 0 <= i < front.len() && (#[trigger] front[i]).0 == key {
            let at = choose|i: int| 0 <= i < front.len() && (#[trigger] front[i]).0 == key;
            assert(created[at].0 == key);
        }
        if exists|i: int| 0 <= i < created.len() && (#[trigger] created[i]).0 == key {
            let at = choose|i: int| 0 <= i < created.len() && (#[trigger] created[i]).0 == key;
            if at < created.len() - 1 {
                assert(front[at].0 == key);
            }
        }
    }
}

/// After outputs with distinct identities were put in, each is what the
/// ledger holds under its identity.
pub proof fn lemma_insert_all_value<R>(
    ledger: Map<OutputRef, Output<R>>,
    created: Seq<(OutputRef, Output<R>)>,
    at: int,
)
    requires
        0 <= at < created.len(),
        forall|i: int, j: int|
            0 <= i < j < created.len() ==> (#[trigger] created[i]).0 != (#[trigger] created[j]).0,
    ensures
        insert_all(ledger, created).contains_key(created[at].0),
        insert_all(ledger, created)[created[at].0] == created[at].1,
    decreases created.len(),
{
    let front = created.drop_last();
    if at < created.len() - 1 {
        assert forall|i: int, j: int| 0 <= i < j < front.len() implies (#[trigger] front[i]).0 != (
        #[trigger] front[j]).0 by {
            assert(created[i].0 != created[j].0);
        }
        lemma_insert_all_value(ledger, front, at);
        assert(created[at].0 != created[created.len() - 1].0);
    }
}

/// Distinct positions of one transaction give distinct identities.
pub proof fn lemma_created_refs_distinct(tx_hash: [u8; 32], first: int, second: int)
    requires
        0 <= first < second < 0x1_0000_0000,
    ensures
        created_ref(tx_hash, first) != created_ref(tx_hash, second),
{
}

/// Where validation succeeds, the ledger held every output that an input
/// names and holds none of them after application; it held no identity
/// that an output of the transaction gets, and after application holds each
/// of the transaction's outputs under its identity.
pub proof fn lemma_valid_transaction_moves_outputs<R: Redeemer, V: Verifier<R>>(
    transaction: Transaction<R, V>,
    tx_hash: [u8; 32],
    context: Seq<u8>,
    ledger: Map<OutputRef, Output<R>>,
    effects: ValidatedEffects<R>,
)
    requires
        transaction.validates_to(tx_hash, context, ledger, Ok(effects)),
    ensures
        forall|i: int|
            0 <= i < transaction.inputs@.len() ==> {
                &&& ledger.contains_key((#[trigger] transaction.inputs@[i]).output_ref)
                &&& !effects.applied_to(ledger).contains_key(transaction.inputs@[i].output_ref)
            },
        forall|j: int|
            0 <= j < transaction.outputs@.len() ==> {
                &&& !ledger.contains_key(#[trigger] created_ref(tx_hash, j))
                &&& effects.applied_to(ledger).contains_key(created_ref(tx_hash, j))
                &&& effects.applied_to(ledger)[created_ref(tx_hash, j)] == transaction.outputs@[j]
            },
{
    let consumed = effects.consumed@;
    let created = effects.created@;
    let cleared = remove_all(ledger, consumed);
    let after = effects.applied_to(ledger);
    lemma_remove_all(ledger, consumed);
    assert(transaction.structural_error::<V::Error>(tx_hash, ledger) is None);
    assert forall|i: int, j: int| 0 <= i < j < created.len() implies (#[trigger] created[i]).0 != (
    #[trigger] created[j]).0 by {
        lemma_created_refs_distinct(tx_hash, i, j);
    }
    assert forall|i: int| 0 <= i < transaction.inputs@.len() implies {
        &&& ledger.contains_key((#[trigger] transaction.inputs@[i]).output_ref)
        &&& !after.contains_key(transaction.inputs@[i].output_ref)
    } by {
        let key = transaction.inputs@[i].output_ref;
        assert(consumed[i] == key);
        assert(consumed.to_set().contains(key));
        lemma_insert_all_keys(cleared, created, key);
        if exists|j: int| 0 <= j < created.len() && (#[trigger] created[j]).0 == key {
            let j = choose|j: int| 0 <= j < created.len() && (#[trigger] created[j]).0 == key;
            assert(ledger.contains_key(created_ref(tx_hash, j)));
        }
    }
    assert forall|j: int| 0 <= j < transaction.outputs@.len() implies {
        &&& !ledger.contains_key(#[trigger] created_ref(tx_hash, j))
        &&& after.contains_key(created_ref(tx_hash, j))
        &&& after[created_ref(tx_hash, j)] == transaction.outputs@[j]
    } by {
        assert(created[j] == (created_ref(tx_hash, j), transaction.outputs@[j]));
        lemma_insert_all_value(cleared, created, j);
    }
}

/// Where validation succeeds, application leaves alone what the ledger
/// holds under every identity that the transaction neither consumes nor
/// creates.
pub proof fn lemma_valid_transaction_keeps_the_rest<R: Redeemer, V: Verifier<R>>(
    transaction: Transaction<R, V>,
    tx_hash: [u8; 32],
    context: Seq<u8>,
    ledger: Map<OutputRef, Output<R>>,
    effects: ValidatedEffects<R>,
    key: OutputRef,
)
    requires
        transaction.validates_to(tx_hash, context, ledger, Ok(effects)),
        forall|i: int|
            0 <= i < transaction.inputs@.len() ==> (#[trigger] transaction.inputs@[i]).output_ref
                != key,
        forall|j: int| 0 <= j < transaction.outputs@.len() ==> #[trigger] created_ref(tx_hash, j) != key,
    ensures
        effects.applied_to(ledger).contains_key(key) == ledger.contains_key(key),
        ledger.contains_key(key) ==> effects.applied_to(ledger)[key] == ledger[key],
{
    let consumed = effects.consumed@;
    let created = effects.created@;
    let cleared = remove_all(ledger, consumed);
    lemma_remove_all(ledger, consumed);
    lemma_insert_all_keys(cleared, created, key);
    if consumed.contains(key) {
        let at = choose|i: int| 0 <= i < consumed.len() && consumed[i] == key;
        assert(transaction.inputs@[at].output_ref != key);
    }
    if exists|j: int| 0 <= j < created.len() && (#[trigger] created[j]).0 == key {
        let j = choose|j: int| 0 <= j < created.len() && (#[trigger] created[j]).0 == key;
        assert(created_ref(tx_hash, j) != key);
    }
}

/// An output is consumed at most once: on the ledger that applying a valid
/// transaction gives, no transaction is valid that names an output which
/// the first one consumed.
pub proof fn lemma_spent_output_cannot_be_spent_again<
    R: Redeemer,
    V: Verifier<R>,
    W: Verifier<R>,
>(
    first: Transaction<R, V>,
    first_hash: [u8; 32],
    first_context: Seq<u8>,
    ledger: Map<OutputRef, Output<R>>,
    effects: ValidatedEffects<R>,
    second: Transaction<R, W>,
    second_hash: [u8; 32],
    second_context: Seq<u8>,
    result: Result<ValidatedEffects<R>, UtxoError<W::Error>>,
    spent: int,
    again: int,
)
    requires
        first.validates_to(first_hash, first_context, ledger, Ok(effects)),
        second.validates_to(second_hash, second_context, effects.applied_to(ledger), result),
        0 <= spent < first.inputs@.len(),
        0 <= again < second.inputs@.len(),
        first.inputs@[spent].output_ref == second.inputs@[again].output_ref,
    ensures
        result is Err,
{
    lemma_valid_transaction_moves_outputs(first, first_hash, first_context, ledger, effects);
    let after = effects.applied_to(ledger);
    assert(!after.contains_key(first.inputs@[spent].output_ref));
    assert(!after.contains_key(second.inputs@[again].output_ref));
    assert(second.has_missing_input(after));
    assert(second.structural_error::<W::Error>(second_hash, after) is Some);
}

/// Where validation ends in the verifier's error, the transaction has no
/// structural fault, every redeemer accepted, and the error carried is the
/// one that the verifier gave.
pub proof fn lemma_verifier_error_is_the_verdict<R: Redeemer, V: Verifier<R>>(
    transaction: Transaction<R, V>,
    tx_hash: [u8; 32],
    context: Seq<u8>,
    ledger: Map<OutputRef, Output<R>>,
    error: V::Error,
)
    requires
        transaction.validates_to(tx_hash, context, ledger, Err(UtxoError::VerifierError(error))),
    ensures
        transaction.structural_error::<V::Error>(tx_hash, ledger) is None,
        transaction.all_redeemed(context, ledger),
        transaction.judged(ledger, Err(error)),
{
}

/// Where the transaction has no structural fault, no redeemer can reject
/// and the verifier can only answer with one error, validation ends in
/// that error.
pub proof fn lemma_verifier_rejection_is_returned<R: Redeemer, V: Verifier<R>>(
    transaction: Transaction<R, V>,
    tx_hash: [u8; 32],
    context: Seq<u8>,
    ledger: Map<OutputRef, Output<R>>,
    result: Result<ValidatedEffects<R>, UtxoError<V::Error>>,
    error: V::Error,
)
    requires
        transaction.validates_to(tx_hash, context, ledger, result),
        transaction.structural_error::<V::Error>(tx_hash, ledger) is None,
        forall|i: int|
            0 <= i < transaction.inputs@.len() ==> !#[trigger] transaction.redeemed(
                context,
                ledger,
                i,
                false,
            ),
        forall|verdict: Result<(), V::Error>| #[trigger]
            transaction.judged(ledger, verdict) ==> verdict == Err::<(), V::Error>(error),
    ensures
        result == Err::<ValidatedEffects<R>, UtxoError<V::Error>>(UtxoError::VerifierError(error)),
{
    match result {
        Ok(_) => {
            assert(transaction.judged(ledger, Ok(())));
        },
        Err(UtxoError::VerifierError(given)) => {
            assert(transaction.judged(ledger, Err(given)));
        },
        Err(_) => {},
    }
}

/// Where the transaction has no structural fault and the redeemer of some
/// input can only reject, validation ends in the redeemer error, whatever
/// the verifier would say.
pub proof fn lemma_redeemer_rejection_comes_first<R: Redeemer, V: Verifier<R>>(
    transaction: Transaction<R, V>,
    tx_hash: [u8; 32],
    context: Seq<u8>,
    ledger: Map<OutputRef, Output<R>>,
    result: Result<ValidatedEffects<R>, UtxoError<V::Error>>,
    at: int,
)
    requires
        transaction.validates_to(tx_hash, context, ledger, result),
        transaction.structural_error::<V::Error>(tx_hash, ledger) is None,
        0 <= at < transaction.inputs@.len(),
        !transaction.redeemed(context, ledger, at, true),
    ensures
        result matches Err(UtxoError::RedeemerError),
{
}

/// Where the transaction has no structural fault, no redeemer can reject
/// and the verifier can only accept, validation succeeds, with the effects
/// of the transaction.
pub proof fn lemma_acceptable_transaction_validates<R: Redeemer, V: Verifier<R>>(
    transaction: Transaction<R, V>,
    tx_hash: [u8; 32],
    context: Seq<u8>,
    ledger: Map<OutputRef, Output<R>>,
    result: Result<ValidatedEffects<R>, UtxoError<V::Error>>,
)
    requires
        transaction.validates_to(tx_hash, context, ledger, result),
        transaction.structural_error::<V::Error>(tx_hash, ledger) is None,
        forall|i: int|
            0 <= i < transaction.inputs@.len() ==> !#[trigger] transaction.redeemed(
                context,
                ledger,
                i,
                false,
            ),
        forall|verdict: Result<(), V::Error>| #[trigger]
            transaction.judged(ledger, verdict) ==> verdict is Ok,
    ensures
        result matches Ok(effects) && effects.consumed@ == transaction.input_refs()
            && effects.created@ == transaction.created(tx_hash),
{
    match result {
        Err(UtxoError::VerifierError(given)) => {
            assert(transaction.judged(ledger, Err(given)));
        },
        _ => {},
    }
}

/// Duplicate inputs give the duplicate-input error, whatever else holds of
/// the transaction, of the ledger, of the redeemers and of the verifier.
pub proof fn lemma_duplicate_inputs_always_rejected<R: Redeemer, V: Verifier<R>>(
    transaction: Transaction<R, V>,
    tx_hash: [u8; 32],
    context: Seq<u8>,
    ledger: Map<OutputRef, Output<R>>,
    result: Result<ValidatedEffects<R>, UtxoError<V::Error>>,
)
    requires
        transaction.validates_to(tx_hash, context, ledger, result),
        transaction.has_duplicate_inputs(),
    ensures
        result matches Err(UtxoError::DuplicateInput),
{
}

/// Wrapping a value and extracting it at the same type gives the value
/// back, for every value that its type's decoder recovers from each of its
/// encodings.
pub proof fn lemma_extract_recovers_wrapped_value<T: UtxoData>(
    value: T,
    data: TypedData,
    result: Result<T, ExtractionError>,
)
    requires
        data.wraps(value),
        data.extracts(result),
        forall|bytes: Seq<u8>, decoded: Option<T>|
            encodes(value, bytes) && #[trigger] decodes(bytes, decoded) ==> decoded == Some(value),
    ensures
        result == Ok::<T, ExtractionError>(value),
{
    match result {
        Ok(found) => {
            assert(decodes(data.data@, Some(found)));
        },
        Err(ExtractionError::DecodeFailure) => {
            assert(decodes::<T>(data.data@, None));
        },
        Err(ExtractionError::TypeMismatch) => {},
    }
}

/// Extracting at a type whose tag differs from that of the type that was
/// wrapped gives the type mismatch, whatever the bytes are.
pub proof fn lemma_extract_rejects_other_type<T: UtxoData, U: UtxoData>(
    value: U,
    data: TypedData,
    result: Result<T, ExtractionError>,
)
    requires
        data.wraps(value),
        data.extracts(result),
        T::TYPE_ID@ != U::TYPE_ID@,
    ensures
        result == Err::<T, ExtractionError>(ExtractionError::TypeMismatch),
{
}

} // verus!
