use idrs::crypto::{decrypt, encrypt, keypair_from_seed, ElGamalKeypair};
use idrs::errors::ErrorKind;
use idrs::processor::{process, Instruction, TokenState};
use idrs::zkp::{
    ProofData, ProofStatement, TransferProofData, TransferStatement, WithdrawProofData,
    WithdrawStatement,
};

const AUTHORITY: u64 = 1;
const ALICE: u64 = 10;
const BOB: u64 = 11;

fn setup_funded_account(amount: u64) -> (TokenState, ElGamalKeypair, ElGamalKeypair) {
    let mut state = TokenState::new();
    let kp_a = keypair_from_seed(0xa11ce);
    let kp_b = keypair_from_seed(0xb0b);
    process(
        &mut state,
        Instruction::InitializeMint {
            decimals: 6,
            mint_authority: AUTHORITY,
            auditor_public_key: None,
            auto_approve_new_accounts: true,
        },
        &vec![AUTHORITY],
    )
    .unwrap();
    process(
        &mut state,
        Instruction::ConfigureAccount { owner: ALICE, public_key: kp_a.public_key, decryptable_zero: 0 },
        &vec![ALICE],
    )
    .unwrap();
    process(
        &mut state,
        Instruction::ConfigureAccount { owner: BOB, public_key: kp_b.public_key, decryptable_zero: 0 },
        &vec![BOB],
    )
    .unwrap();
    process(
        &mut state,
        Instruction::Deposit { account: 0, amount, randomness: 0 },
        &vec![ALICE],
    )
    .unwrap();
    process(
        &mut state,
        Instruction::ApplyPendingBalance {
            account: 0,
            expected_counter: 1,
            new_decryptable_available_balance: amount as u128,
        },
        &vec![ALICE],
    )
    .unwrap();
    (state, kp_a, kp_b)
}

/// Stages and verifies a withdrawal proof for an account whose available
/// ciphertext was built with randomness zero and holds `balance`.
fn stage_withdraw_context(
    state: &mut TokenState,
    kp: &ElGamalKeypair,
    balance: u64,
    amount: u64,
) -> usize {
    let ctx = state.contexts.create_context(100);
    let stmt = ProofStatement::ForWithdraw(WithdrawStatement {
        public_key: kp.public_key,
        available_balance: state.ledger.accounts[0].available_balance,
        amount,
    });
    state.contexts.record_statement(ctx, stmt).unwrap();
    let bundle = ProofData::ForWithdraw(WithdrawProofData {
        remaining: balance - amount,
        remaining_randomness: 0,
    });
    state.contexts.verify_context(ctx, &bundle).unwrap();
    ctx
}

#[test]
fn apply_with_same_snapshot_succeeds_once_then_mismatches() {
    let (mut state, _kp_a, _kp_b) = setup_funded_account(100);
    process(
        &mut state,
        Instruction::Deposit { account: 0, amount: 5, randomness: 0 },
        &vec![ALICE],
    )
    .unwrap();
    // counter is now 3 (deposit, apply, deposit); snapshot it.
    let snapshot = state.ledger.accounts[0].pending_balance_credit_counter;
    assert_eq!(
        process(
            &mut state,
            Instruction::ApplyPendingBalance {
                account: 0,
                expected_counter: snapshot,
                new_decryptable_available_balance: 105,
            },
            &vec![ALICE],
        ),
        Ok(())
    );
    assert_eq!(
        process(
            &mut state,
            Instruction::ApplyPendingBalance {
                account: 0,
                expected_counter: snapshot,
                new_decryptable_available_balance: 105,
            },
            &vec![ALICE],
        ),
        Err(ErrorKind::PendingCounterMismatch)
    );
}

#[test]
fn stale_snapshot_is_rejected_after_concurrent_deposit() {
    let (mut state, _kp_a, _kp_b) = setup_funded_account(100);
    let snapshot = state.ledger.accounts[0].pending_balance_credit_counter;
    // A concurrent deposit lands after the snapshot was taken.
    process(
        &mut state,
        Instruction::Deposit { account: 0, amount: 1, randomness: 0 },
        &vec![ALICE],
    )
    .unwrap();
    assert_eq!(
        process(
            &mut state,
            Instruction::ApplyPendingBalance {
                account: 0,
                expected_counter: snapshot,
                new_decryptable_available_balance: 0,
            },
            &vec![ALICE],
        ),
        Err(ErrorKind::PendingCounterMismatch)
    );
}

#[test]
fn consumed_context_cannot_be_reused() {
    let (mut state, kp_a, _kp_b) = setup_funded_account(100);
    let ctx = stage_withdraw_context(&mut state, &kp_a, 100, 30);
    assert_eq!(
        process(
            &mut state,
            Instruction::Withdraw { account: 0, amount: 30, context_id: ctx },
            &vec![ALICE],
        ),
        Ok(())
    );
    assert_eq!(decrypt(&kp_a.secret_key, &state.ledger.accounts[0].available_balance), 70);
    // Reusing the consumed context fails, whatever the amount.
    assert_eq!(
        process(
            &mut state,
            Instruction::Withdraw { account: 0, amount: 30, context_id: ctx },
            &vec![ALICE],
        ),
        Err(ErrorKind::ProofContextAlreadyConsumed)
    );
    assert_eq!(
        process(
            &mut state,
            Instruction::Withdraw { account: 0, amount: 1, context_id: ctx },
            &vec![ALICE],
        ),
        Err(ErrorKind::ProofContextAlreadyConsumed)
    );
    assert_eq!(decrypt(&kp_a.secret_key, &state.ledger.accounts[0].available_balance), 70);
}

#[test]
fn overdraw_attempts_never_verify() {
    let (mut state, kp_a, _kp_b) = setup_funded_account(100);
    // Deliberately too-large amounts: no opening can certify the wrapped
    // negative remainder, so verification always rejects the range proof.
    for amount in [101u64, 150, 1000, u64::MAX] {
        let ctx = state.contexts.create_context(100);
        let stmt = ProofStatement::ForWithdraw(WithdrawStatement {
            public_key: kp_a.public_key,
            available_balance: state.ledger.accounts[0].available_balance,
            amount,
        });
        state.contexts.record_statement(ctx, stmt).unwrap();
        let bundle = ProofData::ForWithdraw(WithdrawProofData {
            remaining: 100u64.wrapping_sub(amount),
            remaining_randomness: 0,
        });
        assert_eq!(
            state.contexts.verify_context(ctx, &bundle),
            Err(ErrorKind::InsufficientAvailableBalance)
        );
        assert_eq!(
            process(
                &mut state,
                Instruction::Withdraw { account: 0, amount, context_id: ctx },
                &vec![ALICE],
            ),
            Err(ErrorKind::InvalidContextState)
        );
    }
    assert_eq!(decrypt(&kp_a.secret_key, &state.ledger.accounts[0].available_balance), 100);
}

#[test]
fn transfer_with_unequal_amounts_fails_equality_check() {
    let (mut state, kp_a, kp_b) = setup_funded_account(100);
    let src_amount = encrypt(&kp_a.public_key, 40, 0);
    let dst_amount = encrypt(&kp_b.public_key, 50, 0);
    let ctx = state.contexts.create_context(100);
    let stmt = ProofStatement::ForTransfer(TransferStatement {
        source_public_key: kp_a.public_key,
        destination_public_key: kp_b.public_key,
        source_available_balance: state.ledger.accounts[0].available_balance,
        source_amount: src_amount,
        destination_amount: dst_amount,
    });
    state.contexts.record_statement(ctx, stmt).unwrap();
    let bundle = ProofData::ForTransfer(TransferProofData {
        amount_source: 40,
        source_randomness: 0,
        amount_destination: 50,
        destination_randomness: 0,
        remaining: 60,
        remaining_randomness: 0,
    });
    assert_eq!(
        state.contexts.verify_context(ctx, &bundle),
        Err(ErrorKind::ProofVerificationFailed)
    );
}

#[test]
fn transfer_with_wrong_ciphertext_opening_is_malformed() {
    let (mut state, kp_a, kp_b) = setup_funded_account(100);
    let src_amount = encrypt(&kp_a.public_key, 40, 0);
    let dst_amount = encrypt(&kp_b.public_key, 40, 0);
    let ctx = state.contexts.create_context(100);
    let stmt = ProofStatement::ForTransfer(TransferStatement {
        source_public_key: kp_a.public_key,
        destination_public_key: kp_b.public_key,
        source_available_balance: state.ledger.accounts[0].available_balance,
        source_amount: src_amount,
        destination_amount: dst_amount,
    });
    state.contexts.record_statement(ctx, stmt).unwrap();
    // The claimed opening does not match the source ciphertext.
    let bundle = ProofData::ForTransfer(TransferProofData {
        amount_source: 39,
        source_randomness: 0,
        amount_destination: 40,
        destination_randomness: 0,
        remaining: 60,
        remaining_randomness: 0,
    });
    assert_eq!(
        state.contexts.verify_context(ctx, &bundle),
        Err(ErrorKind::MalformedCiphertext)
    );
}

#[test]
fn expired_context_cannot_be_consumed() {
    let (mut state, kp_a, _kp_b) = setup_funded_account(100);
    // A context that expires at slot 0.
    let ctx = state.contexts.create_context(0);
    let stmt = ProofStatement::ForWithdraw(WithdrawStatement {
        public_key: kp_a.public_key,
        available_balance: state.ledger.accounts[0].available_balance,
        amount: 30,
    });
    state.contexts.record_statement(ctx, stmt).unwrap();
    let bundle = ProofData::ForWithdraw(WithdrawProofData {
        remaining: 70,
        remaining_randomness: 0,
    });
    state.contexts.verify_context(ctx, &bundle).unwrap();
    state.advance_slot();
    assert_eq!(
        process(
            &mut state,
            Instruction::Withdraw { account: 0, amount: 30, context_id: ctx },
            &vec![ALICE],
        ),
        Err(ErrorKind::ProofContextExpired)
    );
    // Its storage can still be reclaimed.
    assert_eq!(state.contexts.close_context(ctx), Ok(()));
}

#[test]
fn stale_statement_binding_is_rejected() {
    let (mut state, kp_a, _kp_b) = setup_funded_account(100);
    let ctx = stage_withdraw_context(&mut state, &kp_a, 100, 30);
    // A deposit plus apply changes the available ciphertext after the proof
    // was staged; the snapshot the context binds no longer matches.
    process(
        &mut state,
        Instruction::Deposit { account: 0, amount: 7, randomness: 0 },
        &vec![ALICE],
    )
    .unwrap();
    process(
        &mut state,
        Instruction::ApplyPendingBalance {
            account: 0,
            expected_counter: 3,
            new_decryptable_available_balance: 107,
        },
        &vec![ALICE],
    )
    .unwrap();
    assert_eq!(
        process(
            &mut state,
            Instruction::Withdraw { account: 0, amount: 30, context_id: ctx },
            &vec![ALICE],
        ),
        Err(ErrorKind::ProofVerificationFailed)
    );
}

#[test]
fn authorization_is_checked_first() {
    let (mut state, kp_a, _kp_b) = setup_funded_account(100);
    // Nobody but the owner can deposit into or apply on the account.
    assert_eq!(
        process(
            &mut state,
            Instruction::Deposit { account: 0, amount: 5, randomness: 0 },
            &vec![BOB],
        ),
        Err(ErrorKind::Unauthorized)
    );
    assert_eq!(
        process(
            &mut state,
            Instruction::ApplyPendingBalance {
                account: 0,
                expected_counter: 2,
                new_decryptable_available_balance: 0,
            },
            &vec![],
        ),
        Err(ErrorKind::Unauthorized)
    );
    let ctx = stage_withdraw_context(&mut state, &kp_a, 100, 30);
    assert_eq!(
        process(
            &mut state,
            Instruction::Withdraw { account: 0, amount: 30, context_id: ctx },
            &vec![BOB],
        ),
        Err(ErrorKind::Unauthorized)
    );
    // The mint cannot be initialized twice, nor without its authority.
    assert_eq!(
        process(
            &mut state,
            Instruction::InitializeMint {
                decimals: 0,
                mint_authority: BOB,
                auditor_public_key: None,
                auto_approve_new_accounts: false,
            },
            &vec![BOB],
        ),
        Err(ErrorKind::Unauthorized)
    );
}

#[test]
fn missing_accounts_and_contexts_are_reported() {
    let (mut state, _kp_a, _kp_b) = setup_funded_account(100);
    assert_eq!(
        process(
            &mut state,
            Instruction::Deposit { account: 9, amount: 5, randomness: 0 },
            &vec![ALICE],
        ),
        Err(ErrorKind::AccountNotFound)
    );
    assert_eq!(
        process(
            &mut state,
            Instruction::Withdraw { account: 0, amount: 5, context_id: 99 },
            &vec![ALICE],
        ),
        Err(ErrorKind::ContextNotFound)
    );
    let stmt = ProofStatement::ForWithdraw(WithdrawStatement {
        public_key: _kp_a.public_key,
        available_balance: state.ledger.accounts[0].available_balance,
        amount: 5,
    });
    assert_eq!(
        state.contexts.record_statement(99, stmt),
        Err(ErrorKind::ContextNotFound)
    );
    // Recording twice is an invalid transition.
    let ctx = state.contexts.create_context(100);
    assert_eq!(state.contexts.record_statement(ctx, stmt), Ok(()));
    assert_eq!(
        state.contexts.record_statement(ctx, stmt),
        Err(ErrorKind::InvalidContextState)
    );
}

#[test]
fn disabled_accounts_refuse_confidential_credits() {
    let (mut state, kp_a, kp_b) = setup_funded_account(100);
    assert_eq!(
        process(
            &mut state,
            Instruction::DisableConfidentialCredits { account: 1 },
            &vec![BOB],
        ),
        Ok(())
    );
    assert_eq!(
        process(
            &mut state,
            Instruction::Deposit { account: 1, amount: 5, randomness: 0 },
            &vec![BOB],
        ),
        Err(ErrorKind::ConfidentialCreditsDisabled)
    );
    // An incoming transfer is refused too.
    let src_amount = encrypt(&kp_a.public_key, 10, 0);
    let dst_amount = encrypt(&kp_b.public_key, 10, 0);
    assert_eq!(
        process(
            &mut state,
            Instruction::Transfer {
                source: 0,
                destination: 1,
                source_amount: src_amount,
                destination_amount: dst_amount,
                context_id: 0,
            },
            &vec![ALICE],
        ),
        Err(ErrorKind::ConfidentialCreditsDisabled)
    );
    // Re-enabling restores deposits.
    assert_eq!(
        process(
            &mut state,
            Instruction::EnableConfidentialCredits { account: 1 },
            &vec![BOB],
        ),
        Ok(())
    );
    assert_eq!(
        process(
            &mut state,
            Instruction::Deposit { account: 1, amount: 5, randomness: 0 },
            &vec![BOB],
        ),
        Ok(())
    );
}

#[test]
fn supply_cap_is_enforced() {
    let (mut state, _kp_a, _kp_b) = setup_funded_account(u64::MAX);
    assert_eq!(
        process(
            &mut state,
            Instruction::Deposit { account: 1, amount: 1, randomness: 0 },
            &vec![BOB],
        ),
        Err(ErrorKind::LimitExceeded)
    );
}

#[test]
fn configure_account_requires_an_initialized_mint() {
    let mut state = TokenState::new();
    let kp = keypair_from_seed(5);
    assert_eq!(
        process(
            &mut state,
            Instruction::ConfigureAccount { owner: ALICE, public_key: kp.public_key, decryptable_zero: 0 },
            &vec![ALICE],
        ),
        Err(ErrorKind::MintNotInitialized)
    );
    assert_eq!(
        process(
            &mut state,
            Instruction::MintTo { admin: AUTHORITY, destination: 0, amount: 1, randomness: 0 },
            &vec![AUTHORITY],
        ),
        Err(ErrorKind::MintNotInitialized)
    );
}

#[test]
fn self_transfer_moves_funds_into_pending() {
    let (mut state, kp_a, _kp_b) = setup_funded_account(100);
    let src_amount = encrypt(&kp_a.public_key, 30, 0);
    let dst_amount = encrypt(&kp_a.public_key, 30, 0);
    let ctx = state.contexts.create_context(100);
    let stmt = ProofStatement::ForTransfer(TransferStatement {
        source_public_key: kp_a.public_key,
        destination_public_key: kp_a.public_key,
        source_available_balance: state.ledger.accounts[0].available_balance,
        source_amount: src_amount,
        destination_amount: dst_amount,
    });
    state.contexts.record_statement(ctx, stmt).unwrap();
    let bundle = ProofData::ForTransfer(TransferProofData {
        amount_source: 30,
        source_randomness: 0,
        amount_destination: 30,
        destination_randomness: 0,
        remaining: 70,
        remaining_randomness: 0,
    });
    state.contexts.verify_context(ctx, &bundle).unwrap();
    assert_eq!(
        process(
            &mut state,
            Instruction::Transfer {
                source: 0,
                destination: 0,
                source_amount: src_amount,
                destination_amount: dst_amount,
                context_id: ctx,
            },
            &vec![ALICE],
        ),
        Ok(())
    );
    assert_eq!(decrypt(&kp_a.secret_key, &state.ledger.accounts[0].available_balance), 70);
    assert_eq!(decrypt(&kp_a.secret_key, &state.ledger.accounts[0].pending_balance), 30);
}
