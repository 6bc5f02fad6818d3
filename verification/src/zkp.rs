//! Proof verification and the proof-context state machine.
//!
//! A proof bundle is the prover's opening of the ciphertexts its statement
//! binds: verification re-encrypts the opening and compares, so a bundle
//! passes exactly when its statement is true of the bound ciphertexts.  A
//! bundle too large to check inline is staged through a `ProofContext`:
//! recorded with its public inputs, verified as a separate step, consumed by
//! exactly one ledger operation, and closed so its space is reclaimed.

use vstd::prelude::*;

verus! {

use crate::crypto::{
    ElGamalCiphertext, ElGamalPublicKey, GROUP_GEN, amount_bound, ciphertext_sub, encrypt, gmul,
    gsub, plain_of, spec_enc_commitment, spec_enc_handle, spec_is_encryption,
    lemma_plain_of_diff, lemma_plain_of_encryption, lemma_residue_bounds,
};
use crate::errors::ErrorKind;

/// Public inputs of a withdrawal proof: the account's key, the available
/// balance the proof was computed against, and the public amount withdrawn.
#[derive(Clone, Copy, PartialEq, Eq, Structural, Debug)]
pub struct WithdrawStatement {
    pub public_key: ElGamalPublicKey,
    pub available_balance: ElGamalCiphertext,
    pub amount: u64,
}

/// Public inputs of a transfer proof: both keys, the source's available
/// balance, and the two encryptions of the transferred amount.
#[derive(Clone, Copy, PartialEq, Eq, Structural, Debug)]
pub struct TransferStatement {
    pub source_public_key: ElGamalPublicKey,
    pub destination_public_key: ElGamalPublicKey,
    pub source_available_balance: ElGamalCiphertext,
    pub source_amount: ElGamalCiphertext,
    pub destination_amount: ElGamalCiphertext,
}

/// The public inputs a proof context binds.
#[derive(Clone, Copy, PartialEq, Eq, Structural, Debug)]
pub enum ProofStatement {
    ForWithdraw(WithdrawStatement),
    ForTransfer(TransferStatement),
}

/// Prover's opening for a withdrawal: the claimed remaining balance and the
/// randomness of the remaining-balance ciphertext.
#[derive(Clone, Copy, Debug)]
pub struct WithdrawProofData {
    pub remaining: u64,
    pub remaining_randomness: u128,
}

/// Prover's opening for a transfer: openings of both amount ciphertexts and
/// of the source's remaining balance.
#[derive(Clone, Copy, Debug)]
pub struct TransferProofData {
    pub amount_source: u64,
    pub source_randomness: u128,
    pub amount_destination: u64,
    pub destination_randomness: u128,
    pub remaining: u64,
    pub remaining_randomness: u128,
}

/// A submitted proof bundle.
#[derive(Clone, Copy, Debug)]
pub enum ProofData {
    ForWithdraw(WithdrawProofData),
    ForTransfer(TransferProofData),
}

/// What a withdrawal statement claims: subtracting the public amount from the
/// account's available balance leaves a plaintext inside the 64-bit range,
/// i.e. the balance covers the amount.
pub open spec fn spec_withdraw_true(stmt: WithdrawStatement) -> bool {
    gsub(plain_of(stmt.public_key.point as int, stmt.available_balance), stmt.amount as int)
        < amount_bound()
}

/// What a transfer statement claims: both amount ciphertexts encrypt the same
/// in-range amount, and subtracting it from the source's available balance
/// leaves a plaintext inside the 64-bit range.
pub open spec fn spec_transfer_true(stmt: TransferStatement) -> bool {
    let moved = plain_of(stmt.source_public_key.point as int, stmt.source_amount);
    &&& moved < amount_bound()
    &&& plain_of(stmt.destination_public_key.point as int, stmt.destination_amount) == moved
    &&& gsub(plain_of(stmt.source_public_key.point as int, stmt.source_available_balance), moved)
        < amount_bound()
}

/// Whether the public inputs of a statement are in fact true of the
/// ciphertexts they bind.
pub open spec fn spec_statement_true(stmt: ProofStatement) -> bool {
    match stmt {
        ProofStatement::ForWithdraw(s) => spec_withdraw_true(s),
        ProofStatement::ForTransfer(s) => spec_transfer_true(s),
    }
}

/// The withdrawal range sub-check: the opening matches the remaining-balance
/// ciphertext, the homomorphic difference of the available balance and the
/// canonical encryption of the public amount.
pub open spec fn spec_withdraw_witness_ok(stmt: WithdrawStatement, data: WithdrawProofData) -> bool {
    let pk = stmt.public_key.point as int;
    &&& spec_enc_handle(data.remaining_randomness as int)
        == gsub(stmt.available_balance.handle as int, spec_enc_handle(0))
    &&& spec_enc_commitment(pk, data.remaining as int, data.remaining_randomness as int)
        == gsub(
            stmt.available_balance.commitment as int,
            spec_enc_commitment(pk, stmt.amount as int, 0),
        )
}

/// The transfer validity sub-check for the source amount ciphertext.
pub open spec fn spec_transfer_src_valid(stmt: TransferStatement, data: TransferProofData) -> bool {
    spec_is_encryption(
        stmt.source_public_key.point as int,
        data.amount_source as int,
        data.source_randomness as int,
        stmt.source_amount,
    )
}

/// The transfer validity sub-check for the destination amount ciphertext.
pub open spec fn spec_transfer_dst_valid(stmt: TransferStatement, data: TransferProofData) -> bool {
    spec_is_encryption(
        stmt.destination_public_key.point as int,
        data.amount_destination as int,
        data.destination_randomness as int,
        stmt.destination_amount,
    )
}

/// The transfer range sub-check on the source's remaining balance.
pub open spec fn spec_transfer_range_ok(stmt: TransferStatement, data: TransferProofData) -> bool {
    let pk = stmt.source_public_key.point as int;
    &&& spec_enc_handle(data.remaining_randomness as int)
        == gsub(stmt.source_available_balance.handle as int, stmt.source_amount.handle as int)
    &&& spec_enc_commitment(pk, data.remaining as int, data.remaining_randomness as int)
        == gsub(
            stmt.source_available_balance.commitment as int,
            stmt.source_amount.commitment as int,
        )
}

/// The exact outcome of checking a bundle against a statement: each sub-check
/// fails with its own error kind, and a bundle of the wrong kind fails
/// outright.
pub open spec fn spec_proof_check(stmt: ProofStatement, data: ProofData) -> Result<(), ErrorKind> {
    match stmt {
        ProofStatement::ForWithdraw(s) => match data {
            ProofData::ForWithdraw(d) => if spec_withdraw_witness_ok(s, d) {
                Ok(())
            } else {
                Err(ErrorKind::InsufficientAvailableBalance)
            },
            _ => Err(ErrorKind::ProofVerificationFailed),
        },
        ProofStatement::ForTransfer(s) => match data {
            ProofData::ForTransfer(d) => if !spec_transfer_src_valid(s, d)
                || !spec_transfer_dst_valid(s, d) {
                Err(ErrorKind::MalformedCiphertext)
            } else if d.amount_source != d.amount_destination {
                Err(ErrorKind::ProofVerificationFailed)
            } else if !spec_transfer_range_ok(s, d) {
                Err(ErrorKind::InsufficientAvailableBalance)
            } else {
                Ok(())
            },
            _ => Err(ErrorKind::ProofVerificationFailed),
        },
    }
}

/// Law: verification is sound — a bundle passes only if its statement is
/// true of the ciphertexts it binds.  No passing proof can certify a
/// negative remainder or unequal transfer amounts.
pub proof fn lemma_proof_check_sound(stmt: ProofStatement, data: ProofData)
    requires
        spec_proof_check(stmt, data) is Ok,
    ensures
        spec_statement_true(stmt),
{
    match stmt {
        ProofStatement::ForWithdraw(s) => {
            let d = data->ForWithdraw_0;
            let pk = s.public_key.point as int;
            let amt_h = spec_enc_handle(0);
            let amt_c = spec_enc_commitment(pk, s.amount as int, 0);
            lemma_residue_bounds(0, GROUP_GEN as int);
            lemma_residue_bounds(s.amount as int, gmul(0, pk));
            let amt_ct = (ElGamalCiphertext { handle: amt_h as u128, commitment: amt_c as u128 });
            let rem_h = gsub(s.available_balance.handle as int, amt_h);
            let rem_c = gsub(s.available_balance.commitment as int, amt_c);
            lemma_residue_bounds(s.available_balance.handle as int, amt_h);
            lemma_residue_bounds(s.available_balance.commitment as int, amt_c);
            let rem_ct = (ElGamalCiphertext { handle: rem_h as u128, commitment: rem_c as u128 });
            lemma_plain_of_encryption(pk, s.amount as int, 0, amt_ct);
            lemma_plain_of_diff(pk, s.available_balance, amt_ct, rem_ct);
            lemma_plain_of_encryption(pk, d.remaining as int, d.remaining_randomness as int, rem_ct);
        },
        ProofStatement::ForTransfer(s) => {
            let d = data->ForTransfer_0;
            let src_pk = s.source_public_key.point as int;
            let dst_pk = s.destination_public_key.point as int;
            lemma_plain_of_encryption(
                src_pk,
                d.amount_source as int,
                d.source_randomness as int,
                s.source_amount,
            );
            lemma_plain_of_encryption(
                dst_pk,
                d.amount_destination as int,
                d.destination_randomness as int,
                s.destination_amount,
            );
            let rem_h = gsub(s.source_available_balance.handle as int, s.source_amount.handle as int);
            let rem_c = gsub(
                s.source_available_balance.commitment as int,
                s.source_amount.commitment as int,
            );
            lemma_residue_bounds(
                s.source_available_balance.handle as int,
                s.source_amount.handle as int,
            );
            lemma_residue_bounds(
                s.source_available_balance.commitment as int,
                s.source_amount.commitment as int,
            );
            let rem_ct = (ElGamalCiphertext { handle: rem_h as u128, commitment: rem_c as u128 });
            lemma_plain_of_diff(src_pk, s.source_available_balance, s.source_amount, rem_ct);
            lemma_plain_of_encryption(src_pk, d.remaining as int, d.remaining_randomness as int, rem_ct);
        },
    }
}

/// Law: no bundle can certify a false statement — when the public inputs are
/// not true of the ciphertexts they bind, verification rejects every bundle.
pub proof fn lemma_false_statement_rejected(stmt: ProofStatement, data: ProofData)
    requires
        !spec_statement_true(stmt),
    ensures
        spec_proof_check(stmt, data) is Err,
{
    if spec_proof_check(stmt, data) is Ok {
        lemma_proof_check_sound(stmt, data);
    }
}

/// Checks a proof bundle against its statement.  Stateless: the outcome is a
/// function of the statement and bundle alone.
pub fn check_proof(statement: &ProofStatement, data: &ProofData) -> (r: Result<(), ErrorKind>)
    ensures
        r == spec_proof_check(*statement, *data),
{
    match statement {
        ProofStatement::ForWithdraw(s) => match data {
            ProofData::ForWithdraw(d) => {
                let amt_ct = encrypt(&s.public_key, s.amount, 0);
                let rem_ct = ciphertext_sub(&s.available_balance, &amt_ct);
                let reenc = encrypt(&s.public_key, d.remaining, d.remaining_randomness);
                if rem_ct == reenc {
                    Ok(())
                } else {
                    Err(ErrorKind::InsufficientAvailableBalance)
                }
            },
            _ => Err(ErrorKind::ProofVerificationFailed),
        },
        ProofStatement::ForTransfer(s) => match data {
            ProofData::ForTransfer(d) => {
                let src_reenc = encrypt(&s.source_public_key, d.amount_source, d.source_randomness);
                let dst_reenc = encrypt(
                    &s.destination_public_key,
                    d.amount_destination,
                    d.destination_randomness,
                );
                if !(src_reenc == s.source_amount) || !(dst_reenc == s.destination_amount) {
                    return Err(ErrorKind::MalformedCiphertext);
                }
                if d.amount_source != d.amount_destination {
                    return Err(ErrorKind::ProofVerificationFailed);
                }
                let rem_ct = ciphertext_sub(&s.source_available_balance, &s.source_amount);
                let rem_reenc = encrypt(&s.source_public_key, d.remaining, d.remaining_randomness);
                if rem_ct == rem_reenc {
                    Ok(())
                } else {
                    Err(ErrorKind::InsufficientAvailableBalance)
                }
            },
            _ => Err(ErrorKind::ProofVerificationFailed),
        },
    }
}

/// Where a proof context stands in its lifecycle.
#[derive(Clone, Copy, PartialEq, Eq, Structural, Debug)]
pub enum ProofContextState {
    Uninitialized,
    Recorded,
    Verified,
    Consumed,
    Closed,
}

/// A staging record for one proof: created empty, populated with its public
/// inputs, verified, consumed by exactly one ledger operation, and closed.
#[derive(Clone, Copy, Debug)]
pub struct ProofContext {
    pub state: ProofContextState,
    pub statement: Option<ProofStatement>,
    pub expiry_slot: u64,
    pub verification_failed: bool,
}

/// The exact outcome of consuming the context `id` of `ctxs` against an
/// expected statement at `current_slot`: the context must exist, be
/// `Verified`, be unexpired, and bind exactly the expected public inputs.
pub open spec fn spec_consume_outcome(
    ctxs: Seq<ProofContext>,
    id: int,
    expected: ProofStatement,
    current_slot: u64,
) -> Result<(), ErrorKind> {
    if !(0 <= id < ctxs.len()) {
        Err(ErrorKind::ContextNotFound)
    } else if ctxs[id].state == ProofContextState::Consumed {
        Err(ErrorKind::ProofContextAlreadyConsumed)
    } else if ctxs[id].state != ProofContextState::Verified {
        Err(ErrorKind::InvalidContextState)
    } else if current_slot > ctxs[id].expiry_slot {
        Err(ErrorKind::ProofContextExpired)
    } else if ctxs[id].statement != Some(expected) {
        Err(ErrorKind::ProofVerificationFailed)
    } else {
        Ok(())
    }
}

/// A context holds a statement from the moment it is recorded, and a
/// verified context's statement is true of the ciphertexts it binds.
pub open spec fn ctx_wf(c: ProofContext) -> bool {
    &&& (c.state == ProofContextState::Recorded || c.state == ProofContextState::Verified
        || c.state == ProofContextState::Consumed) ==> c.statement is Some
    &&& c.state == ProofContextState::Verified ==> spec_statement_true(c.statement->0)
}

/// The short-lived store of proof contexts, addressed by the index at which
/// each was created.
pub struct ProofContextStore {
    pub contexts: Vec<ProofContext>,
}

impl ProofContextStore {
    /// Every context the store holds is well formed.
    pub open spec fn wf(self) -> bool {
        forall|i: int| 0 <= i < self.contexts@.len() ==> ctx_wf(#[trigger] self.contexts@[i])
    }

    /// An empty store.
    pub fn new() -> (s: Self)
        ensures
            s.wf(),
            s.contexts@.len() == 0,
    {
        ProofContextStore { contexts: Vec::new() }
    }

    /// Opens a fresh, empty context that must be consumed by `expiry_slot`.
    pub fn create_context(&mut self, expiry_slot: u64) -> (id: usize)
        requires
            old(self).wf(),
        ensures
            final(self).wf(),
            id == old(self).contexts@.len(),
            final(self).contexts@ == old(self).contexts@.push(
                ProofContext {
                    state: ProofContextState::Uninitialized,
                    statement: None,
                    expiry_slot,
                    verification_failed: false,
                },
            ),
    {
        let id = self.contexts.len();
        self.contexts.push(
            ProofContext {
                state: ProofContextState::Uninitialized,
                statement: None,
                expiry_slot,
                verification_failed: false,
            },
        );
        id
    }

    /// Populates an empty context with the public inputs its proof will bind.
    pub fn record_statement(&mut self, id: usize, statement: ProofStatement) -> (r: Result<(), ErrorKind>)
        requires
            old(self).wf(),
        ensures
            final(self).wf(),
            r is Ok <==> id < old(self).contexts@.len()
                && old(self).contexts@[id as int].state == ProofContextState::Uninitialized,
            id >= old(self).contexts@.len() ==> r == Err::<(), ErrorKind>(ErrorKind::ContextNotFound),
            id < old(self).contexts@.len()
                && old(self).contexts@[id as int].state != ProofContextState::Uninitialized
                ==> r == Err::<(), ErrorKind>(ErrorKind::InvalidContextState),
            r is Err ==> final(self).contexts@ == old(self).contexts@,
            r is Ok ==> {
                let c_new = final(self).contexts@[id as int];
                &&& final(self).contexts@ == old(self).contexts@.update(id as int, c_new)
                &&& c_new.state == ProofContextState::Recorded
                &&& c_new.statement == Some(statement)
                &&& c_new.expiry_slot == old(self).contexts@[id as int].expiry_slot
                &&& c_new.verification_failed == false
            },
    {
        if id >= self.contexts.len() {
            return Err(ErrorKind::ContextNotFound);
        }
        let c = self.contexts[id];
        if !matches!(c.state, ProofContextState::Uninitialized) {
            return Err(ErrorKind::InvalidContextState);
        }
        self.contexts[id] = ProofContext {
            state: ProofContextState::Recorded,
            statement: Some(statement),
            expiry_slot: c.expiry_slot,
            verification_failed: false,
        };
        Ok(())
    }

    /// Verifies a bundle against a recorded context.  Every sub-check must
    /// pass for the context to become `Verified`; any failure closes the
    /// context with its failure flag set and refuses reuse.
    pub fn verify_context(&mut self, id: usize, data: &ProofData) -> (r: Result<(), ErrorKind>)
        requires
            old(self).wf(),
        ensures
            final(self).wf(),
            id >= old(self).contexts@.len() ==> r == Err::<(), ErrorKind>(ErrorKind::ContextNotFound)
                && final(self).contexts@ == old(self).contexts@,
            id < old(self).contexts@.len()
                && old(self).contexts@[id as int].state != ProofContextState::Recorded
                ==> r == Err::<(), ErrorKind>(ErrorKind::InvalidContextState)
                    && final(self).contexts@ == old(self).contexts@,
            id < old(self).contexts@.len()
                && old(self).contexts@[id as int].state == ProofContextState::Recorded ==> {
                let c_old = old(self).contexts@[id as int];
                let c_new = final(self).contexts@[id as int];
                &&& r == spec_proof_check(c_old.statement->0, *data)
                &&& final(self).contexts@ == old(self).contexts@.update(id as int, c_new)
                &&& c_new.statement == c_old.statement
                &&& c_new.expiry_slot == c_old.expiry_slot
                &&& (r is Ok ==> c_new.state == ProofContextState::Verified
                    && c_new.verification_failed == false)
                &&& (r is Err ==> c_new.state == ProofContextState::Closed
                    && c_new.verification_failed == true)
            },
    {
        if id >= self.contexts.len() {
            return Err(ErrorKind::ContextNotFound);
        }
        let c = self.contexts[id];
        if !matches!(c.state, ProofContextState::Recorded) {
            return Err(ErrorKind::InvalidContextState);
        }
        let statement = match c.statement {
            Some(s) => s,
            None => {
                proof {
                    assert(ctx_wf(old(self).contexts@[id as int]));
                }
                return Err(ErrorKind::InvalidContextState);
            },
        };
        let outcome = check_proof(&statement, data);
        match outcome {
            Ok(_) => {
                proof {
                    lemma_proof_check_sound(statement, *data);
                }
                self.contexts[id] = ProofContext {
                    state: ProofContextState::Verified,
                    statement: Some(statement),
                    expiry_slot: c.expiry_slot,
                    verification_failed: false,
                };
                Ok(())
            },
            Err(kind) => {
                self.contexts[id] = ProofContext {
                    state: ProofContextState::Closed,
                    statement: Some(statement),
                    expiry_slot: c.expiry_slot,
                    verification_failed: true,
                };
                Err(kind)
            },
        }
    }

    /// Consumes a verified context on behalf of one ledger operation.  The
    /// operation presents the statement it is about to rely on; consuming
    /// succeeds only if the context is `Verified`, unexpired, and bound to
    /// exactly that statement — which is then known to be true.
    pub fn consume_context(
        &mut self,
        id: usize,
        expected: &ProofStatement,
        current_slot: u64,
    ) -> (r: Result<(), ErrorKind>)
        requires
            old(self).wf(),
        ensures
            final(self).wf(),
            r == spec_consume_outcome(old(self).contexts@, id as int, *expected, current_slot),
            r is Ok ==> spec_statement_true(*expected),
            r is Err ==> final(self).contexts@ == old(self).contexts@,
            r is Ok ==> {
                let c_old = old(self).contexts@[id as int];
                let c_new = final(self).contexts@[id as int];
                &&& final(self).contexts@ == old(self).contexts@.update(id as int, c_new)
                &&& c_new.state == ProofContextState::Consumed
                &&& c_new.statement == c_old.statement
                &&& c_new.expiry_slot == c_old.expiry_slot
                &&& c_new.verification_failed == c_old.verification_failed
            },
    {
        if id >= self.contexts.len() {
            return Err(ErrorKind::ContextNotFound);
        }
        let c = self.contexts[id];
        if matches!(c.state, ProofContextState::Consumed) {
            return Err(ErrorKind::ProofContextAlreadyConsumed);
        }
        if !matches!(c.state, ProofContextState::Verified) {
            return Err(ErrorKind::InvalidContextState);
        }
        if current_slot > c.expiry_slot {
            return Err(ErrorKind::ProofContextExpired);
        }
        let matches_expected = match c.statement {
            Some(s) => s == *expected,
            None => false,
        };
        proof {
            assert(ctx_wf(old(self).contexts@[id as int]));
        }
        if !matches_expected {
            return Err(ErrorKind::ProofVerificationFailed);
        }
        self.contexts[id] = ProofContext {
            state: ProofContextState::Consumed,
            statement: c.statement,
            expiry_slot: c.expiry_slot,
            verification_failed: c.verification_failed,
        };
        Ok(())
    }

    /// Closes a context, reclaiming its slot.  Allowed from every state, so
    /// storage is released on the success path, on abort, and after expiry
    /// alike; closing is idempotent and a closed context refuses every other
    /// transition.
    pub fn close_context(&mut self, id: usize) -> (r: Result<(), ErrorKind>)
        requires
            old(self).wf(),
        ensures
            final(self).wf(),
            r is Ok <==> id < old(self).contexts@.len(),
            r is Err ==> r == Err::<(), ErrorKind>(ErrorKind::ContextNotFound)
                && final(self).contexts@ == old(self).contexts@,
            r is Ok ==> {
                let c_old = old(self).contexts@[id as int];
                let c_new = final(self).contexts@[id as int];
                &&& final(self).contexts@ == old(self).contexts@.update(id as int, c_new)
                &&& c_new.state == ProofContextState::Closed
                &&& c_new.statement == c_old.statement
                &&& c_new.expiry_slot == c_old.expiry_slot
                &&& c_new.verification_failed == c_old.verification_failed
            },
    {
        if id >= self.contexts.len() {
            return Err(ErrorKind::ContextNotFound);
        }
        let c = self.contexts[id];
        self.contexts[id] = ProofContext {
            state: ProofContextState::Closed,
            statement: c.statement,
            expiry_slot: c.expiry_slot,
            verification_failed: c.verification_failed,
        };
        Ok(())
    }
}

} // verus!
