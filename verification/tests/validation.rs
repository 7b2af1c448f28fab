use tuxedo_core::{
    apply, check_structure, transaction_hash, validate, validate_hashed, DispatchResult, Input,
    Output, OutputRef, Redeemer, Transaction, TypedData, UtxoData, UtxoError, UtxoSet,
    ValidatedEffects, Verifier,
};

/// An amount of money.
#[derive(Debug, Clone, PartialEq, Eq)]
struct Coin(u64);

impl UtxoData for Coin {
    const TYPE_ID: [u8; 4] = *b"coin";

    fn encode(&self) -> Vec<u8> {
        self.0.to_le_bytes().to_vec()
    }

    fn decode(bytes: &[u8]) -> Option<Self> {
        let raw: [u8; 8] = bytes.try_into().ok()?;
        Some(Coin(u64::from_le_bytes(raw)))
    }
}

/// Lets an output go to whoever shows the password.
#[derive(Debug, Clone, PartialEq, Eq)]
struct Password(Vec<u8>);

impl Redeemer for Password {
    fn redeem(&self, _context: &[u8], witness: &[u8]) -> bool {
        witness == self.0.as_slice()
    }
}

/// Accepts a witness only if it repeats the context.
#[derive(Debug, Clone, PartialEq, Eq)]
struct Echo;

impl Redeemer for Echo {
    fn redeem(&self, context: &[u8], witness: &[u8]) -> bool {
        context == witness
    }
}

#[derive(Debug, Clone, PartialEq, Eq)]
struct AlwaysPass;

impl<R> Verifier<R> for AlwaysPass {
    type Error = ();

    fn verify(&self, _inputs: &[&Output<R>], _outputs: &[Output<R>]) -> Result<(), ()> {
        Ok(())
    }
}

#[derive(Debug, Clone, PartialEq, Eq)]
enum MoneyError {
    NotACoin,
    Overspend,
}

/// No more may come out than goes in.
#[derive(Debug, Clone, PartialEq, Eq)]
struct Conserve;

impl<R> Verifier<R> for Conserve {
    type Error = MoneyError;

    fn verify(&self, inputs: &[&Output<R>], outputs: &[Output<R>]) -> Result<(), MoneyError> {
        let mut held: u64 = 0;
        for input in inputs {
            held += input.payload.extract::<Coin>().map_err(|_| MoneyError::NotACoin)?.0;
        }
        let mut spent: u64 = 0;
        for output in outputs {
            spent += output.payload.extract::<Coin>().map_err(|_| MoneyError::NotACoin)?.0;
        }
        if spent <= held {
            Ok(())
        } else {
            Err(MoneyError::Overspend)
        }
    }
}

/// A verifier that must not be asked.
#[derive(Debug, Clone, PartialEq, Eq)]
struct NeverAsked;

impl<R> Verifier<R> for NeverAsked {
    type Error = ();

    fn verify(&self, _inputs: &[&Output<R>], _outputs: &[Output<R>]) -> Result<(), ()> {
        panic!("the verifier was asked")
    }
}

fn reference(seed: u8, index: u32) -> OutputRef {
    OutputRef { tx_hash: [seed; 32], index }
}

fn coin(amount: u64, password: &[u8]) -> Output<Password> {
    Output { payload: TypedData::from(Coin(amount)), redeemer: Password(password.to_vec()) }
}

fn input(output_ref: OutputRef, witness: &[u8]) -> Input {
    Input { output_ref, witness: witness.to_vec() }
}

/// The ledger that holds one coin of 10 under `reference(1, 0)`.
fn ledger_with_one_coin() -> UtxoSet<Password> {
    let mut ledger = UtxoSet::new();
    ledger.insert(reference(1, 0), coin(10, b"open sesame"));
    ledger
}

#[test]
fn valid_transaction_is_accepted_and_applied() {
    let mut ledger = ledger_with_one_coin();
    let spent = reference(1, 0);
    let transaction = Transaction {
        inputs: vec![input(spent, b"open sesame")],
        outputs: vec![coin(10, b"next")],
        verifier: AlwaysPass,
    };
    let encoded = b"transaction one".to_vec();
    let made = OutputRef { tx_hash: transaction_hash(&encoded), index: 0 };

    let effects = validate(transaction, &encoded, &ledger).expect("the transaction is valid");
    assert_eq!(effects.consumed, vec![spent]);
    assert_eq!(effects.created, vec![(made, coin(10, b"next"))]);
    // Validation is a dry run.
    assert_eq!(ledger.len(), 1);
    assert!(ledger.contains(&spent));

    apply(effects, &mut ledger);
    assert_eq!(ledger.len(), 1);
    assert!(!ledger.contains(&spent));
    assert_eq!(ledger.get(&made), Some(&coin(10, b"next")));
}

#[test]
fn duplicate_input_is_rejected() {
    let ledger = ledger_with_one_coin();
    let transaction = Transaction {
        inputs: vec![input(reference(1, 0), b"open sesame"), input(reference(1, 0), b"open sesame")],
        outputs: vec![coin(10, b"next")],
        verifier: AlwaysPass,
    };
    let result = validate(transaction, b"t2", &ledger);
    assert!(matches!(result, Err(UtxoError::DuplicateInput)));
}

#[test]
fn duplicate_input_is_rejected_before_anything_else() {
    // The duplicated output is missing, the outputs exist already, the
    // witness is wrong and the verifier would panic.
    let mut ledger: UtxoSet<Password> = UtxoSet::new();
    let hash = [3u8; 32];
    ledger.insert(OutputRef { tx_hash: hash, index: 0 }, coin(1, b"x"));
    let transaction = Transaction {
        inputs: vec![
            input(reference(9, 0), b"wrong"),
            input(reference(8, 0), b"wrong"),
            input(reference(9, 0), b"other"),
        ],
        outputs: vec![coin(10, b"next")],
        verifier: NeverAsked,
    };
    let result = validate_hashed(transaction, hash, b"", &ledger);
    assert!(matches!(result, Err(UtxoError::DuplicateInput)));
}

#[test]
fn missing_input_is_rejected() {
    let ledger = ledger_with_one_coin();
    let transaction = Transaction {
        inputs: vec![input(reference(1, 0), b"open sesame"), input(reference(2, 0), b"")],
        outputs: vec![coin(10, b"next")],
        verifier: AlwaysPass,
    };
    let result = validate(transaction, b"t3", &ledger);
    assert!(matches!(result, Err(UtxoError::MissingInput)));
}

#[test]
fn missing_input_comes_before_the_redeemers() {
    let ledger = ledger_with_one_coin();
    let transaction = Transaction {
        inputs: vec![input(reference(1, 0), b"wrong"), input(reference(2, 0), b"")],
        outputs: Vec::new(),
        verifier: NeverAsked,
    };
    let result = validate(transaction, b"t", &ledger);
    assert!(matches!(result, Err(UtxoError::MissingInput)));
}

#[test]
fn overspending_is_rejected_by_the_verifier() {
    let ledger = ledger_with_one_coin();
    let transaction = Transaction {
        inputs: vec![input(reference(1, 0), b"open sesame")],
        outputs: vec![coin(6, b"a"), coin(5, b"b")],
        verifier: Conserve,
    };
    let result = validate(transaction, b"t4", &ledger);
    assert!(matches!(result, Err(UtxoError::VerifierError(MoneyError::Overspend))));
}

#[test]
fn spending_within_means_is_accepted() {
    let ledger = ledger_with_one_coin();
    let transaction = Transaction {
        inputs: vec![input(reference(1, 0), b"open sesame")],
        outputs: vec![coin(6, b"a"), coin(4, b"b")],
        verifier: Conserve,
    };
    let hash = [5u8; 32];
    let effects = validate_hashed(transaction, hash, b"", &ledger).expect("nothing is overspent");
    assert_eq!(effects.consumed, vec![reference(1, 0)]);
    assert_eq!(
        effects.created,
        vec![
            (OutputRef { tx_hash: hash, index: 0 }, coin(6, b"a")),
            (OutputRef { tx_hash: hash, index: 1 }, coin(4, b"b")),
        ]
    );
}

#[test]
fn verifier_sees_the_consumed_outputs_in_input_order() {
    let mut ledger = ledger_with_one_coin();
    ledger.insert(reference(1, 1), Output {
        payload: TypedData { data: vec![1], type_id: *b"junk" },
        redeemer: Password(Vec::new()),
    });
    // A payload that is no coin reaches the verifier, which says so.
    let transaction = Transaction {
        inputs: vec![input(reference(1, 0), b"open sesame"), input(reference(1, 1), b"")],
        outputs: Vec::new(),
        verifier: Conserve,
    };
    let result = validate(transaction, b"t", &ledger);
    assert!(matches!(result, Err(UtxoError::VerifierError(MoneyError::NotACoin))));
}

#[test]
fn wrong_witness_is_a_redeemer_error() {
    let ledger = ledger_with_one_coin();
    let transaction = Transaction {
        inputs: vec![input(reference(1, 0), b"open barley")],
        outputs: vec![coin(10, b"next")],
        verifier: AlwaysPass,
    };
    let result = validate(transaction, b"t", &ledger);
    assert!(matches!(result, Err(UtxoError::RedeemerError)));
}

#[test]
fn failing_redeemer_stops_before_the_verifier() {
    let mut ledger = ledger_with_one_coin();
    ledger.insert(reference(1, 1), coin(5, b"second"));
    let transaction = Transaction {
        inputs: vec![input(reference(1, 0), b"open sesame"), input(reference(1, 1), b"wrong")],
        outputs: vec![coin(100, b"next")],
        verifier: NeverAsked,
    };
    let result = validate(transaction, b"t", &ledger);
    assert!(matches!(result, Err(UtxoError::RedeemerError)));
}

#[test]
fn verifier_error_is_the_same_whatever_the_redeemers_saw() {
    let mut ledger = ledger_with_one_coin();
    ledger.insert(reference(1, 1), coin(5, b"second"));
    let one = Transaction {
        inputs: vec![input(reference(1, 0), b"open sesame")],
        outputs: vec![coin(100, b"next")],
        verifier: Conserve,
    };
    let two = Transaction {
        inputs: vec![input(reference(1, 1), b"second"), input(reference(1, 0), b"open sesame")],
        outputs: vec![coin(100, b"next")],
        verifier: Conserve,
    };
    assert!(matches!(
        validate(one, b"one", &ledger),
        Err(UtxoError::VerifierError(MoneyError::Overspend))
    ));
    assert!(matches!(
        validate(two, b"two", &ledger),
        Err(UtxoError::VerifierError(MoneyError::Overspend))
    ));
    assert_eq!(ledger.len(), 2);
}

#[test]
fn redeemers_are_shown_the_encoding_as_context() {
    let mut ledger: UtxoSet<Echo> = UtxoSet::new();
    ledger.insert(reference(1, 0), Output { payload: TypedData::from(Coin(1)), redeemer: Echo });
    let accepted = Transaction {
        inputs: vec![input(reference(1, 0), b"the encoding")],
        outputs: Vec::new(),
        verifier: AlwaysPass,
    };
    assert!(validate(accepted, b"the encoding", &ledger).is_ok());
    let rejected = Transaction {
        inputs: vec![input(reference(1, 0), b"the encoding")],
        outputs: Vec::new(),
        verifier: AlwaysPass,
    };
    assert!(matches!(
        validate(rejected, b"another encoding", &ledger),
        Err(UtxoError::RedeemerError)
    ));
}

#[test]
fn preexisting_output_is_rejected() {
    let mut ledger = ledger_with_one_coin();
    let encoded = b"seen before".to_vec();
    let hash = transaction_hash(&encoded);
    ledger.insert(OutputRef { tx_hash: hash, index: 1 }, coin(1, b"x"));
    let transaction = Transaction {
        inputs: vec![input(reference(1, 0), b"open sesame")],
        outputs: vec![coin(5, b"a"), coin(5, b"b")],
        verifier: AlwaysPass,
    };
    let result = validate(transaction, &encoded, &ledger);
    assert!(matches!(result, Err(UtxoError::PreExistingOutput)));
}

#[test]
fn output_beyond_the_last_position_does_not_collide() {
    let mut ledger = ledger_with_one_coin();
    let hash = [4u8; 32];
    // Position 2 is taken, but the transaction has only positions 0 and 1.
    ledger.insert(OutputRef { tx_hash: hash, index: 2 }, coin(1, b"x"));
    let transaction = Transaction {
        inputs: vec![input(reference(1, 0), b"open sesame")],
        outputs: vec![coin(5, b"a"), coin(5, b"b")],
        verifier: AlwaysPass,
    };
    assert!(validate_hashed(transaction, hash, b"", &ledger).is_ok());
}

#[test]
fn preexisting_output_comes_before_missing_input() {
    let mut ledger: UtxoSet<Password> = UtxoSet::new();
    let hash = [4u8; 32];
    ledger.insert(OutputRef { tx_hash: hash, index: 0 }, coin(1, b"x"));
    let transaction = Transaction {
        inputs: vec![input(reference(7, 0), b"")],
        outputs: vec![coin(5, b"a")],
        verifier: AlwaysPass,
    };
    let result = validate_hashed(transaction, hash, b"", &ledger);
    assert!(matches!(result, Err(UtxoError::PreExistingOutput)));
}

#[test]
fn structure_is_checked_in_order() {
    let mut ledger: UtxoSet<Password> = UtxoSet::new();
    let hash = [4u8; 32];
    ledger.insert(reference(1, 0), coin(1, b"x"));
    ledger.insert(OutputRef { tx_hash: hash, index: 0 }, coin(1, b"x"));

    let sound: Transaction<Password, AlwaysPass> = Transaction {
        inputs: vec![input(reference(1, 0), b"never looked at")],
        outputs: Vec::new(),
        verifier: AlwaysPass,
    };
    let passed: DispatchResult<MoneyError> = check_structure(&sound, hash, &ledger);
    assert!(matches!(passed, Ok(())));

    let doubled: Transaction<Password, AlwaysPass> = Transaction {
        inputs: vec![input(reference(1, 0), b""), input(reference(1, 0), b"")],
        outputs: vec![coin(1, b"a")],
        verifier: AlwaysPass,
    };
    assert!(matches!(
        check_structure::<_, _, ()>(&doubled, hash, &ledger),
        Err(UtxoError::DuplicateInput)
    ));

    let colliding: Transaction<Password, AlwaysPass> = Transaction {
        inputs: vec![input(reference(2, 0), b"")],
        outputs: vec![coin(1, b"a")],
        verifier: AlwaysPass,
    };
    assert!(matches!(
        check_structure::<_, _, ()>(&colliding, hash, &ledger),
        Err(UtxoError::PreExistingOutput)
    ));

    let dangling: Transaction<Password, AlwaysPass> = Transaction {
        inputs: vec![input(reference(1, 0), b""), input(reference(2, 0), b"")],
        outputs: vec![coin(1, b"a")],
        verifier: AlwaysPass,
    };
    assert!(matches!(
        check_structure::<_, _, ()>(&dangling, [6u8; 32], &ledger),
        Err(UtxoError::MissingInput)
    ));
}

#[test]
fn empty_transaction_is_valid() {
    let ledger = ledger_with_one_coin();
    let transaction: Transaction<Password, AlwaysPass> =
        Transaction { inputs: Vec::new(), outputs: Vec::new(), verifier: AlwaysPass };
    let effects = validate(transaction, b"", &ledger).expect("nothing can be wrong");
    assert_eq!(effects, ValidatedEffects { consumed: Vec::new(), created: Vec::new() });
}

#[test]
fn apply_takes_out_then_puts_in() {
    let mut ledger = ledger_with_one_coin();
    ledger.insert(reference(1, 1), coin(2, b"kept"));
    let effects = ValidatedEffects {
        consumed: vec![reference(1, 0), reference(3, 3)],
        created: vec![
            (reference(2, 0), coin(7, b"a")),
            (reference(2, 1), coin(3, b"b")),
            (reference(2, 0), coin(8, b"c")),
        ],
    };
    apply(effects, &mut ledger);
    assert_eq!(ledger.len(), 3);
    assert!(!ledger.contains(&reference(1, 0)));
    assert_eq!(ledger.get(&reference(1, 1)), Some(&coin(2, b"kept")));
    // Of two outputs under one identity the later stays.
    assert_eq!(ledger.get(&reference(2, 0)), Some(&coin(8, b"c")));
    assert_eq!(ledger.get(&reference(2, 1)), Some(&coin(3, b"b")));
}

#[test]
fn apply_puts_back_what_it_took_out_under_the_same_identity() {
    let mut ledger = ledger_with_one_coin();
    let effects = ValidatedEffects {
        consumed: vec![reference(1, 0)],
        created: vec![(reference(1, 0), coin(99, b"new"))],
    };
    apply(effects, &mut ledger);
    assert_eq!(ledger.len(), 1);
    assert_eq!(ledger.get(&reference(1, 0)), Some(&coin(99, b"new")));
}

#[test]
fn spent_output_cannot_be_spent_again() {
    let mut ledger = ledger_with_one_coin();
    let first = Transaction {
        inputs: vec![input(reference(1, 0), b"open sesame")],
        outputs: vec![coin(10, b"next")],
        verifier: Conserve,
    };
    let again = first.clone();
    let effects = validate(first, b"first", &ledger).expect("the transaction is valid");
    apply(effects, &mut ledger);
    assert!(matches!(validate(again, b"again", &ledger), Err(UtxoError::MissingInput)));
}

#[test]
fn transaction_hash_is_blake2b_256() {
    let empty: [u8; 32] = [
        0x0e, 0x57, 0x51, 0xc0, 0x26, 0xe5, 0x43, 0xb2, 0xe8, 0xab, 0x2e, 0xb0, 0x60, 0x99, 0xda,
        0xa1, 0xd1, 0xe5, 0xdf, 0x47, 0x77, 0x8f, 0x77, 0x87, 0xfa, 0xab, 0x45, 0xcd, 0xf1, 0x2f,
        0xe3, 0xa8,
    ];
    assert_eq!(transaction_hash(b""), empty);
    let abc: [u8; 32] = [
        0xbd, 0xdd, 0x81, 0x3c, 0x63, 0x42, 0x39, 0x72, 0x31, 0x71, 0xef, 0x3f, 0xee, 0x98, 0x57,
        0x9b, 0x94, 0x96, 0x4e, 0x3b, 0xb1, 0xcb, 0x3e, 0x42, 0x72, 0x62, 0xc8, 0xc0, 0x68, 0xd5,
        0x23, 0x19,
    ];
    assert_eq!(transaction_hash(b"abc"), abc);
    assert_eq!(transaction_hash(b"abc"), sp_core::hashing::blake2_256(b"abc"));
    assert_ne!(transaction_hash(b"abc"), transaction_hash(b"abd"));
}

#[test]
fn transaction_is_its_own_unsigned_call() {
    let transaction: Transaction<Password, AlwaysPass> = Transaction {
        inputs: vec![input(reference(1, 0), b"w")],
        outputs: vec![coin(1, b"p")],
        verifier: AlwaysPass,
    };
    assert_eq!(transaction.is_signed(), Some(false));
    assert_eq!(Transaction::new(transaction.clone(), None), Some(transaction.clone()));
    assert_eq!(Transaction::new(transaction.clone(), Some(())), Some(transaction));
}
