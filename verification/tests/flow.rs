use idrs::crypto::{decrypt, encrypt, keypair_from_seed, ElGamalKeypair};
use idrs::errors::ErrorKind;
use idrs::processor::{process, Instruction, TokenState};
use idrs::zkp::{
    ProofData, ProofStatement, TransferProofData, TransferStatement, WithdrawProofData,
    WithdrawStatement,
};

const AUTHORITY: u64 = 1;
const ALICE: u64 = 10;
const BOB: u64 = 11;

fn setup_two_accounts() -> (TokenState, ElGamalKeypair, ElGamalKeypair) {
    let mut state = TokenState::new();
    let kp_a = keypair_from_seed(0xa11ce);
    let kp_b = keypair_from_seed(0xb0b);
    assert_eq!(
        process(
            &mut state,
            Instruction::InitializeMint {
                decimals: 6,
                mint_authority: AUTHORITY,
                auditor_public_key: None,
                auto_approve_new_accounts: true,
            },
            &vec![AUTHORITY],
        ),
        Ok(())
    );
    assert_eq!(
        process(
            &mut state,
            Instruction::ConfigureAccount {
                owner: ALICE,
                public_key: kp_a.public_key,
                decryptable_zero: 0,
            },
            &vec![ALICE],
        ),
        Ok(())
    );
    assert_eq!(
        process(
            &mut state,
            Instruction::ConfigureAccount {
                owner: BOB,
                public_key: kp_b.public_key,
                decryptable_zero: 0,
            },
            &vec![BOB],
        ),
        Ok(())
    );
    (state, kp_a, kp_b)
}

#[test]
fn scenario_deposit_apply_transfer_withdraw() {
    let (mut state, kp_a, kp_b) = setup_two_accounts();

    // Alice deposits 100 units; her pending counter becomes 1.
    assert_eq!(
        process(
            &mut state,
            Instruction::Deposit { account: 0, amount: 100, randomness: 0 },
            &vec![ALICE],
        ),
        Ok(())
    );
    assert_eq!(state.ledger.accounts[0].pending_balance_credit_counter, 1);
    assert_eq!(decrypt(&kp_a.secret_key, &state.ledger.accounts[0].pending_balance), 100);

    // Alice applies the pending balance against her snapshot.
    assert_eq!(
        process(
            &mut state,
            Instruction::ApplyPendingBalance {
                account: 0,
                expected_counter: 1,
                new_decryptable_available_balance: 100,
            },
            &vec![ALICE],
        ),
        Ok(())
    );
    assert_eq!(decrypt(&kp_a.secret_key, &state.ledger.accounts[0].available_balance), 100);
    assert_eq!(decrypt(&kp_a.secret_key, &state.ledger.accounts[0].pending_balance), 0);

    // Alice transfers 40 to Bob with a valid proof bundle.
    let src_amount = encrypt(&kp_a.public_key, 40, 0);
    let dst_amount = encrypt(&kp_b.public_key, 40, 0);
    let ctx = state.contexts.create_context(10);
    let stmt = ProofStatement::ForTransfer(TransferStatement {
        source_public_key: kp_a.public_key,
        destination_public_key: kp_b.public_key,
        source_available_balance: state.ledger.accounts[0].available_balance,
        source_amount: src_amount,
        destination_amount: dst_amount,
    });
    assert_eq!(state.contexts.record_statement(ctx, stmt), Ok(()));
    let bundle = ProofData::ForTransfer(TransferProofData {
        amount_source: 40,
        source_randomness: 0,
        amount_destination: 40,
        destination_randomness: 0,
        remaining: 60,
        remaining_randomness: 0,
    });
    assert_eq!(state.contexts.verify_context(ctx, &bundle), Ok(()));
    assert_eq!(
        process(
            &mut state,
            Instruction::Transfer {
                source: 0,
                destination: 1,
                source_amount: src_amount,
                destination_amount: dst_amount,
                context_id: ctx,
            },
            &vec![ALICE],
        ),
        Ok(())
    );
    assert_eq!(decrypt(&kp_a.secret_key, &state.ledger.accounts[0].available_balance), 60);
    assert_eq!(decrypt(&kp_b.secret_key, &state.ledger.accounts[1].pending_balance), 40);
    assert_eq!(state.ledger.accounts[1].pending_balance_credit_counter, 1);

    // Alice attempts to withdraw 80: the range check on the remainder fails
    // at proof-verification time.
    let ctx2 = state.contexts.create_context(10);
    let stmt2 = ProofStatement::ForWithdraw(WithdrawStatement {
        public_key: kp_a.public_key,
        available_balance: state.ledger.accounts[0].available_balance,
        amount: 80,
    });
    assert_eq!(state.contexts.record_statement(ctx2, stmt2), Ok(()));
    let bad = ProofData::ForWithdraw(WithdrawProofData { remaining: 0, remaining_randomness: 0 });
    assert_eq!(
        state.contexts.verify_context(ctx2, &bad),
        Err(ErrorKind::InsufficientAvailableBalance)
    );
    // The failed context is closed, so the withdrawal itself cannot run.
    assert_eq!(
        process(
            &mut state,
            Instruction::Withdraw { account: 0, amount: 80, context_id: ctx2 },
            &vec![ALICE],
        ),
        Err(ErrorKind::InvalidContextState)
    );
    assert_eq!(decrypt(&kp_a.secret_key, &state.ledger.accounts[0].available_balance), 60);
}

#[test]
fn conservation_across_a_sequence() {
    let (mut state, kp_a, kp_b) = setup_two_accounts();
    assert_eq!(
        process(
            &mut state,
            Instruction::Deposit { account: 0, amount: 500, randomness: 3 },
            &vec![ALICE],
        ),
        Ok(())
    );
    assert_eq!(
        process(
            &mut state,
            Instruction::Deposit { account: 1, amount: 250, randomness: 4 },
            &vec![BOB],
        ),
        Ok(())
    );
    assert_eq!(
        process(
            &mut state,
            Instruction::ApplyPendingBalance {
                account: 0,
                expected_counter: 1,
                new_decryptable_available_balance: 500,
            },
            &vec![ALICE],
        ),
        Ok(())
    );

    // Withdraw 120 from Alice with a valid proof: her available ciphertext
    // carries randomness 3 from the deposit.
    let ctx = state.contexts.create_context(10);
    let stmt = ProofStatement::ForWithdraw(WithdrawStatement {
        public_key: kp_a.public_key,
        available_balance: state.ledger.accounts[0].available_balance,
        amount: 120,
    });
    assert_eq!(state.contexts.record_statement(ctx, stmt), Ok(()));
    let bundle = ProofData::ForWithdraw(WithdrawProofData {
        remaining: 380,
        remaining_randomness: 3,
    });
    assert_eq!(state.contexts.verify_context(ctx, &bundle), Ok(()));
    assert_eq!(
        process(
            &mut state,
            Instruction::Withdraw { account: 0, amount: 120, context_id: ctx },
            &vec![ALICE],
        ),
        Ok(())
    );

    // Every prefix so far kept the books: deposits 750, withdrawals 120.
    assert_eq!(state.ledger.total_deposited, 750);
    assert_eq!(state.ledger.total_withdrawn, 120);
    let sum = decrypt(&kp_a.secret_key, &state.ledger.accounts[0].pending_balance)
        + decrypt(&kp_a.secret_key, &state.ledger.accounts[0].available_balance)
        + decrypt(&kp_b.secret_key, &state.ledger.accounts[1].pending_balance)
        + decrypt(&kp_b.secret_key, &state.ledger.accounts[1].available_balance);
    assert_eq!(sum, 750 - 120);
}

#[test]
fn transfer_with_nonzero_randomness() {
    let (mut state, kp_a, kp_b) = setup_two_accounts();
    assert_eq!(
        process(
            &mut state,
            Instruction::Deposit { account: 0, amount: 90, randomness: 1000 },
            &vec![ALICE],
        ),
        Ok(())
    );
    assert_eq!(
        process(
            &mut state,
            Instruction::ApplyPendingBalance {
                account: 0,
                expected_counter: 1,
                new_decryptable_available_balance: 90,
            },
            &vec![ALICE],
        ),
        Ok(())
    );
    let src_amount = encrypt(&kp_a.public_key, 25, 77);
    let dst_amount = encrypt(&kp_b.public_key, 25, 88);
    let ctx = state.contexts.create_context(10);
    let stmt = ProofStatement::ForTransfer(TransferStatement {
        source_public_key: kp_a.public_key,
        destination_public_key: kp_b.public_key,
        source_available_balance: state.ledger.accounts[0].available_balance,
        source_amount: src_amount,
        destination_amount: dst_amount,
    });
    assert_eq!(state.contexts.record_statement(ctx, stmt), Ok(()));
    // The remainder ciphertext carries the homomorphic difference of the
    // randomness: 1000 - 77 modulo 2^128.
    let bundle = ProofData::ForTransfer(TransferProofData {
        amount_source: 25,
        source_randomness: 77,
        amount_destination: 25,
        destination_randomness: 88,
        remaining: 65,
        remaining_randomness: 1000u128.wrapping_sub(77),
    });
    assert_eq!(state.contexts.verify_context(ctx, &bundle), Ok(()));
    assert_eq!(
        process(
            &mut state,
            Instruction::Transfer {
                source: 0,
                destination: 1,
                source_amount: src_amount,
                destination_amount: dst_amount,
                context_id: ctx,
            },
            &vec![ALICE],
        ),
        Ok(())
    );
    assert_eq!(decrypt(&kp_a.secret_key, &state.ledger.accounts[0].available_balance), 65);
    assert_eq!(decrypt(&kp_b.secret_key, &state.ledger.accounts[1].pending_balance), 25);
}

#[test]
fn mint_and_burn_require_the_authority_and_keep_the_books() {
    let (mut state, kp_a, _kp_b) = setup_two_accounts();

    // Only the mint authority may mint.
    assert_eq!(
        process(
            &mut state,
            Instruction::MintTo { admin: ALICE, destination: 0, amount: 60, randomness: 0 },
            &vec![ALICE],
        ),
        Err(ErrorKind::Unauthorized)
    );
    assert_eq!(
        process(
            &mut state,
            Instruction::MintTo { admin: AUTHORITY, destination: 0, amount: 60, randomness: 0 },
            &vec![AUTHORITY],
        ),
        Ok(())
    );
    assert_eq!(decrypt(&kp_a.secret_key, &state.ledger.accounts[0].pending_balance), 60);
    assert_eq!(state.ledger.total_deposited, 60);

    assert_eq!(
        process(
            &mut state,
            Instruction::ApplyPendingBalance {
                account: 0,
                expected_counter: 1,
                new_decryptable_available_balance: 60,
            },
            &vec![ALICE],
        ),
        Ok(())
    );

    // Burn 10 out of the account, proof-gated like a withdrawal.
    let ctx = state.contexts.create_context(10);
    let stmt = ProofStatement::ForWithdraw(WithdrawStatement {
        public_key: kp_a.public_key,
        available_balance: state.ledger.accounts[0].available_balance,
        amount: 10,
    });
    assert_eq!(state.contexts.record_statement(ctx, stmt), Ok(()));
    let bundle = ProofData::ForWithdraw(WithdrawProofData {
        remaining: 50,
        remaining_randomness: 0,
    });
    assert_eq!(state.contexts.verify_context(ctx, &bundle), Ok(()));
    assert_eq!(
        process(
            &mut state,
            Instruction::Burn { admin: AUTHORITY, account: 0, amount: 10, context_id: ctx },
            &vec![AUTHORITY],
        ),
        Ok(())
    );
    assert_eq!(decrypt(&kp_a.secret_key, &state.ledger.accounts[0].available_balance), 50);
    assert_eq!(state.ledger.total_withdrawn, 10);
}
