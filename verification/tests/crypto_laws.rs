use idrs::crypto::{
    ae_decrypt, ae_encrypt, ae_key_from_seed, ciphertext_add, ciphertext_sub, decrypt,
    derive_public_key, encrypt, keypair_from_seed, zero_ciphertext,
};
use idrs::errors::ErrorKind;
use idrs::zkp::{
    check_proof, ProofData, ProofStatement, WithdrawProofData, WithdrawStatement,
};

#[test]
fn decrypt_inverts_encrypt() {
    let kp = keypair_from_seed(0x5eed_0001);
    let cases: [(u64, u128); 5] = [
        (0, 0),
        (1, 1),
        (100, 0xdead_beef),
        (1_000_000_007, u128::MAX),
        (u64::MAX, 0x1234_5678_9abc_def0_1122_3344_5566_7788),
    ];
    for (amount, randomness) in cases {
        let ct = encrypt(&kp.public_key, amount, randomness);
        assert_eq!(decrypt(&kp.secret_key, &ct), amount as u128);
    }
}

#[test]
fn decrypt_with_wrong_key_garbles() {
    let kp = keypair_from_seed(7);
    let other = keypair_from_seed(8);
    let ct = encrypt(&kp.public_key, 500, 0x77777);
    assert_eq!(decrypt(&kp.secret_key, &ct), 500);
    assert_ne!(decrypt(&other.secret_key, &ct), 500);
}

#[test]
fn public_key_derivation_matches_keypair() {
    let kp = keypair_from_seed(0xabcdef);
    let derived = derive_public_key(&kp.secret_key);
    assert_eq!(derived.point, kp.public_key.point);
}

#[test]
fn homomorphic_addition_adds_plaintexts() {
    let kp = keypair_from_seed(42);
    let a = encrypt(&kp.public_key, 1234, 111);
    let b = encrypt(&kp.public_key, 4321, 222);
    let sum = ciphertext_add(&a, &b);
    assert_eq!(decrypt(&kp.secret_key, &sum), 5555);
}

#[test]
fn homomorphic_subtraction_subtracts_plaintexts() {
    let kp = keypair_from_seed(43);
    let a = encrypt(&kp.public_key, 9000, 314);
    let b = encrypt(&kp.public_key, 250, 159);
    let diff = ciphertext_sub(&a, &b);
    assert_eq!(decrypt(&kp.secret_key, &diff), 8750);
}

#[test]
fn zero_ciphertext_decrypts_to_zero_under_any_key() {
    let zero = zero_ciphertext();
    assert_eq!(decrypt(&keypair_from_seed(1).secret_key, &zero), 0);
    assert_eq!(decrypt(&keypair_from_seed(999).secret_key, &zero), 0);
}

#[test]
fn symmetric_balance_cache_round_trips() {
    let key = ae_key_from_seed(0xfeed_f00d);
    for amount in [0u64, 1, 77, u64::MAX] {
        let c = ae_encrypt(&key, amount);
        assert_eq!(ae_decrypt(&key, c), amount as u128);
    }
}

#[test]
fn valid_withdraw_proof_passes() {
    let kp = keypair_from_seed(77);
    let available = encrypt(&kp.public_key, 100, 5);
    let stmt = ProofStatement::ForWithdraw(WithdrawStatement {
        public_key: kp.public_key,
        available_balance: available,
        amount: 30,
    });
    // subtracting the canonical encryption of 30 leaves randomness 5 intact
    let data = ProofData::ForWithdraw(WithdrawProofData {
        remaining: 70,
        remaining_randomness: 5,
    });
    assert_eq!(check_proof(&stmt, &data), Ok(()));
}

#[test]
fn withdraw_proof_with_wrong_opening_fails() {
    let kp = keypair_from_seed(78);
    let available = encrypt(&kp.public_key, 100, 5);
    let stmt = ProofStatement::ForWithdraw(WithdrawStatement {
        public_key: kp.public_key,
        available_balance: available,
        amount: 30,
    });
    // wrong remainder
    let wrong_value = ProofData::ForWithdraw(WithdrawProofData {
        remaining: 71,
        remaining_randomness: 5,
    });
    assert_eq!(
        check_proof(&stmt, &wrong_value),
        Err(ErrorKind::InsufficientAvailableBalance)
    );
    // wrong randomness
    let wrong_randomness = ProofData::ForWithdraw(WithdrawProofData {
        remaining: 70,
        remaining_randomness: 6,
    });
    assert_eq!(
        check_proof(&stmt, &wrong_randomness),
        Err(ErrorKind::InsufficientAvailableBalance)
    );
}

#[test]
fn withdraw_proof_of_wrong_kind_fails() {
    let kp = keypair_from_seed(79);
    let available = encrypt(&kp.public_key, 100, 5);
    let stmt = ProofStatement::ForWithdraw(WithdrawStatement {
        public_key: kp.public_key,
        available_balance: available,
        amount: 30,
    });
    let data = ProofData::ForTransfer(idrs::zkp::TransferProofData {
        amount_source: 30,
        source_randomness: 0,
        amount_destination: 30,
        destination_randomness: 0,
        remaining: 70,
        remaining_randomness: 5,
    });
    assert_eq!(check_proof(&stmt, &data), Err(ErrorKind::ProofVerificationFailed));
}
