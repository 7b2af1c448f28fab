use tuxedo_core::{ExtractionError, TypedData, UtxoData};

#[derive(Debug, Clone, PartialEq, Eq)]
struct Coin(u64);

impl UtxoData for Coin {
    const TYPE_ID: [u8; 4] = *b"coin";

    fn encode(&self) -> Vec<u8> {
        self.0.to_le_bytes().to_vec()
    }

    fn decode(bytes: &[u8]) -> Option<Self> {
        let raw: [u8; 8] = bytes.try_into().ok()?;
        Some(Coin(u64::from_le_bytes(raw)))
    }
}

#[derive(Debug, Clone, PartialEq, Eq)]
struct Kitty(Vec<u8>);

impl UtxoData for Kitty {
    const TYPE_ID: [u8; 4] = *b"ctkt";

    fn encode(&self) -> Vec<u8> {
        self.0.clone()
    }

    fn decode(bytes: &[u8]) -> Option<Self> {
        Some(Kitty(bytes.to_vec()))
    }
}

/// A type whose decoder must never run.
#[derive(Debug, PartialEq, Eq)]
struct Trap;

impl UtxoData for Trap {
    const TYPE_ID: [u8; 4] = *b"trap";

    fn encode(&self) -> Vec<u8> {
        Vec::new()
    }

    fn decode(_bytes: &[u8]) -> Option<Self> {
        panic!("the decoder was called on data of another type")
    }
}

#[test]
fn from_sets_tag_and_encoding() {
    let data = TypedData::from(Coin(0x0102));
    assert_eq!(data.type_id, *b"coin");
    assert_eq!(data.data, vec![2u8, 1, 0, 0, 0, 0, 0, 0]);
}

#[test]
fn extract_round_trips() {
    for amount in [0u64, 1, 77, u64::MAX] {
        let data = TypedData::from(Coin(amount));
        assert_eq!(data.extract::<Coin>(), Ok(Coin(amount)));
    }
    let kitty = Kitty(vec![9, 8, 7]);
    assert_eq!(TypedData::from(kitty.clone()).extract::<Kitty>(), Ok(kitty));
}

#[test]
fn extract_round_trips_through_into() {
    let data: TypedData = Coin(5).into();
    assert_eq!(data.extract::<Coin>(), Ok(Coin(5)));
}

#[test]
fn extract_at_other_type_is_a_mismatch() {
    let data = TypedData::from(Kitty(vec![0; 8]));
    // The bytes would decode as a coin: only the tag tells the two apart.
    assert_eq!(data.extract::<Coin>(), Err(ExtractionError::TypeMismatch));
    let data = TypedData::from(Coin(3));
    assert_eq!(data.extract::<Kitty>(), Err(ExtractionError::TypeMismatch));
}

#[test]
fn mismatch_never_reaches_the_decoder() {
    let data = TypedData::from(Coin(3));
    assert_eq!(data.extract::<Trap>(), Err(ExtractionError::TypeMismatch));
}

#[test]
fn malformed_bytes_fail_to_decode() {
    let data = TypedData { data: vec![1, 2, 3], type_id: *b"coin" };
    assert_eq!(data.extract::<Coin>(), Err(ExtractionError::DecodeFailure));
    let empty = TypedData { data: Vec::new(), type_id: *b"coin" };
    assert_eq!(empty.extract::<Coin>(), Err(ExtractionError::DecodeFailure));
}

#[test]
fn tag_is_compared_byte_by_byte() {
    let data = TypedData::from(Coin(1));
    assert!(data.has_type::<Coin>());
    assert!(!data.has_type::<Kitty>());
    for at in 0..4 {
        let mut other = data.clone();
        other.type_id[at] ^= 1;
        assert!(!other.has_type::<Coin>());
        assert_eq!(other.extract::<Coin>(), Err(ExtractionError::TypeMismatch));
    }
}
