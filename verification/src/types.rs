//! The data that a transaction is made of, and typed payloads.

use vstd::prelude::*;
use vstd::std_specs::cmp::PartialEqSpecImpl;
use vstd::std_specs::convert::FromSpecImpl;

verus! {

/// The identity of an output: the digest of the transaction that created it
/// and the position of the output among that transaction's outputs.
#[derive(Debug, Clone, Copy, Eq)]
pub struct OutputRef {
    /// The digest of the creating transaction.
    pub tx_hash: [u8; 32],
    /// The position among the outputs of that transaction.
    pub index: u32,
}

/// A claim to consume one output, with the proof that the claim is rightful.
#[derive(Debug, Clone, PartialEq, Eq)]
pub struct Input {
    /// The output to consume.
    pub output_ref: OutputRef,
    /// What the output's redeemer is shown, a signature for example.
    pub witness: Vec<u8>,
}

/// An encoded value together with the tag of the type it was encoded from.
#[derive(Debug, Clone, PartialEq, Eq)]
pub struct TypedData {
    /// The encoded value.
    pub data: Vec<u8>,
    /// The tag of the encoded value's type.
    pub type_id: [u8; 4],
}

/// A spendable unit: what it holds and the predicate that guards it.
#[derive(Debug, Clone, PartialEq, Eq)]
pub struct Output<R> {
    pub payload: TypedData,
    pub redeemer: R,
}

/// One atomic state transition: it consumes the outputs that its inputs
/// name and creates its outputs.
#[derive(Debug, Clone, PartialEq, Eq)]
pub struct Transaction<R, V> {
    pub inputs: Vec<Input>,
    pub outputs: Vec<Output<R>>,
    pub verifier: V,
}

/// Why a transaction was rejected.
#[derive(Debug)]
pub enum UtxoError<VerifierError> {
    /// Two inputs of the transaction name the same output.
    DuplicateInput,
    /// Two outputs of the transaction would get the same identity.
    DuplicateOutput,
    /// An output of the transaction would get an identity that the ledger
    /// already holds.
    PreExistingOutput,
    /// The verifier rejected the transaction, for the reason carried.
    VerifierError(VerifierError),
    /// A redeemer rejected the witness it was shown.
    RedeemerError,
    /// An input names an output that the ledger does not hold.
    MissingInput,
}

/// The result of dispatching a transaction.
pub type DispatchResult<VerifierError> = Result<(), UtxoError<VerifierError>>;

/// Why no value could be extracted from a `TypedData`.
#[derive(Debug, Clone, Copy, PartialEq, Eq, Structural)]
pub enum ExtractionError {
    /// The data carries the tag of another type.
    TypeMismatch,
    /// The tag matches but the bytes do not decode.
    DecodeFailure,
}

/// What a type must offer to be stored in an output: a four-byte tag that no
/// other stored type uses, and a deterministic encoding with its decoder.
pub trait UtxoData: Sized {
    /// The tag of this type. Keeping it unique among the types in use is the
    /// application's duty.
    const TYPE_ID: [u8; 4];

    /// The bytes that stand for `self`.
    fn encode(&self) -> Vec<u8>;

    /// The value that `bytes` stand for, if any.
    fn decode(bytes: &[u8]) -> Option<Self>;
}

/// `bytes` is what `T`'s encoder can return for `value`.
pub open spec fn encodes<T: UtxoData>(value: T, bytes: Seq<u8>) -> bool {
    exists|out: Vec<u8>| out@ == bytes && call_ensures(T::encode, (&value,), out)
}

/// `decoded` is what `T`'s decoder can return for `bytes`.
pub open spec fn decodes<T: UtxoData>(bytes: Seq<u8>, decoded: Option<T>) -> bool {
    exists|given: &[u8]| given@ == bytes && call_ensures(T::decode, (given,), decoded)
}

impl PartialEq for OutputRef {
    /// Two references are equal when they name the same transaction and the
    /// same position.
    fn eq(&self, other: &OutputRef) -> (same: bool) {
        if self.index != other.index {
            return false;
        }
        let mut at: usize = 0;
        while at < 32
            invariant
                at <= 32,
                self.index == other.index,
                forall|k: int| 0 <= k < at ==> self.tx_hash[k] == other.tx_hash[k],
            decreases 32 - at,
        {
            if self.tx_hash[at] != other.tx_hash[at] {
                return false;
            }
            at += 1;
        }
        assert(self.tx_hash =~= other.tx_hash);
        true
    }
}

impl PartialEqSpecImpl for OutputRef {
    open spec fn obeys_eq_spec() -> bool {
        true
    }

    open spec fn eq_spec(&self, other: &OutputRef) -> bool {
        *self == *other
    }
}

impl TypedData {
    /// The data carries the tag of `T`.
    pub open spec fn tagged_as<T: UtxoData>(self) -> bool {
        self.type_id@ == T::TYPE_ID@
    }

    /// `self` is a possible result of wrapping `value`.
    pub open spec fn wraps<T: UtxoData>(self, value: T) -> bool {
        self.tagged_as::<T>() && encodes(value, self.data@)
    }

    /// `result` is a possible result of extracting a `T` from `self`.
    pub open spec fn extracts<T: UtxoData>(self, result: Result<T, ExtractionError>) -> bool {
        match result {
            Ok(value) => self.tagged_as::<T>() && decodes(self.data@, Some(value)),
            Err(ExtractionError::TypeMismatch) => !self.tagged_as::<T>(),
            Err(ExtractionError::DecodeFailure) => self.tagged_as::<T>() && decodes::<T>(
                self.data@,
                None,
            ),
        }
    }

    /// Whether the data carries the tag of `T`.
    pub fn has_type<T: UtxoData>(&self) -> (b: bool)
        ensures
            b == self.tagged_as::<T>(),
    {
        let tag = T::TYPE_ID;
        let same = self.type_id[0] == tag[0] && self.type_id[1] == tag[1] && self.type_id[2]
            == tag[2] && self.type_id[3] == tag[3];
        proof {
            if same {
                assert(self.type_id@ =~= tag@);
            }
        }
        same
    }

    /// The value of type `T` that the data holds. The tag is compared first,
    /// and data with another tag is never handed to the decoder.
    pub fn extract<T: UtxoData>(&self) -> (result: Result<T, ExtractionError>)
        ensures
            self.extracts(result),
    {
        if self.has_type::<T>() {
            let given = self.data.as_slice();
            let decoded = T::decode(given);
            assert(decodes(self.data@, decoded));
            match decoded {
                Some(value) => Ok(value),
                None => Err(ExtractionError::DecodeFailure),
            }
        } else {
            Err(ExtractionError::TypeMismatch)
        }
    }
}

impl<T: UtxoData> From<T> for TypedData {
    /// The encoding of `value` under the tag of its type.
    fn from(value: T) -> (data: TypedData)
        ensures
            data.wraps(value),
    {
        let bytes = value.encode();
        TypedData { data: bytes, type_id: T::TYPE_ID }
    }
}

impl<T: UtxoData> FromSpecImpl<T> for TypedData {
    /// What wrapping returns is decided by `T`'s encoder, which need not be
    /// a function of the value as far as a proof can tell.
    open spec fn obeys_from_spec() -> bool {
        false
    }

    open spec fn from_spec(value: T) -> TypedData {
        choose|data: TypedData| data.wraps(value)
    }
}

impl<R, V> Transaction<R, V> {
    /// A transaction is its own call: it is handed back as it came, and a
    /// signature payload is not looked at.
    pub fn new(data: Self, _signed_data: Option<()>) -> (made: Option<Self>)
        ensures
            made == Some(data),
    {
        Some(data)
    }

    /// A transaction carries no signature over the whole of it.
    pub fn is_signed(&self) -> (signed: Option<bool>)
        ensures
            signed == Some(false),
    {
        Some(false)
    }
}

} // verus!
