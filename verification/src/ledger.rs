//! The encrypted-balance ledger: per-account pending and available balances
//! held as ciphertexts and mutated only homomorphically.
//!
//! Funds enter an account's pending balance (deposits and incoming
//! transfers), move wholesale into the available balance through the
//! counter-guarded `apply_pending_balance`, and leave only through operations
//! whose verified proof context certifies a non-negative remainder.  The
//! ledger's well-formedness ties the decrypted balances of all accounts to
//! the running totals: their sum is exactly total deposits minus total
//! withdrawals.

use vstd::prelude::*;

verus! {

use vstd::arithmetic::div_mod::{lemma_small_mod, lemma_mod_add_multiples_vanish};
use crate::crypto::{
    ElGamalCiphertext, ElGamalPublicKey, amount_bound, ciphertext_add, ciphertext_sub, encrypt,
    group_order, gsub, plain_of, zero_ciphertext,
    lemma_plain_bound, lemma_plain_of_diff, lemma_plain_of_encryption, lemma_plain_of_sum,
    lemma_plain_of_zero,
};
use crate::errors::ErrorKind;
use crate::zkp::{
    ProofContext, ProofContextState, ProofContextStore, ProofStatement, TransferStatement,
    WithdrawStatement, spec_consume_outcome,
};

/// One account's confidential extension state.
#[derive(Clone, Copy, Debug)]
pub struct ConfidentialAccount {
    /// The owner's signing key; mutations require its signature.
    pub owner: u64,
    /// The account's encryption key; both balances are encrypted under it.
    pub public_key: ElGamalPublicKey,
    /// Incoming credits accumulate here until applied.
    pub pending_balance: ElGamalCiphertext,
    /// The spendable balance.
    pub available_balance: ElGamalCiphertext,
    /// The available balance under the owner's symmetric key, for fast local
    /// display; the ledger stores it opaquely and never consults it.
    pub decryptable_available_balance: u128,
    /// Increments on every credit to the pending balance and on every apply,
    /// so a stale snapshot is always detected.
    pub pending_balance_credit_counter: u64,
    /// The owner's last applied snapshot of the credit counter.
    pub expected_pending_balance_credit_counter: u64,
    /// Whether the account accepts confidential credits.
    pub allow_confidential_credits: bool,
}

/// The decrypted pending balance of an account.
pub open spec fn pending_plain(a: ConfidentialAccount) -> int {
    plain_of(a.public_key.point as int, a.pending_balance)
}

/// The decrypted available balance of an account.
pub open spec fn available_plain(a: ConfidentialAccount) -> int {
    plain_of(a.public_key.point as int, a.available_balance)
}

/// The decrypted funds an account holds in both balances.
pub open spec fn account_total(a: ConfidentialAccount) -> int {
    pending_plain(a) + available_plain(a)
}

/// The decrypted funds held across a sequence of accounts.
pub open spec fn sum_totals(s: Seq<ConfidentialAccount>) -> int
    decreases s.len(),
{
    if s.len() == 0 {
        0
    } else {
        sum_totals(s.drop_last()) + account_total(s.last())
    }
}

/// The funds held across accounts are never negative.
pub proof fn lemma_sum_nonneg(s: Seq<ConfidentialAccount>)
    ensures
        sum_totals(s) >= 0,
    decreases s.len(),
{
    if s.len() > 0 {
        lemma_sum_nonneg(s.drop_last());
        lemma_plain_bound(s.last().public_key.point as int, s.last().pending_balance);
        lemma_plain_bound(s.last().public_key.point as int, s.last().available_balance);
    }
}

/// No single account holds more than all accounts together.
pub proof fn lemma_sum_bound_at(s: Seq<ConfidentialAccount>, i: int)
    requires
        0 <= i < s.len(),
    ensures
        account_total(s[i]) <= sum_totals(s),
    decreases s.len(),
{
    lemma_plain_bound(s.last().public_key.point as int, s.last().pending_balance);
    lemma_plain_bound(s.last().public_key.point as int, s.last().available_balance);
    if i == s.len() - 1 {
        lemma_sum_nonneg(s.drop_last());
    } else {
        lemma_sum_bound_at(s.drop_last(), i);
    }
}

/// Replacing one account changes the held funds by exactly the difference of
/// the two account totals.
pub proof fn lemma_sum_update(s: Seq<ConfidentialAccount>, i: int, a: ConfidentialAccount)
    requires
        0 <= i < s.len(),
    ensures
        sum_totals(s.update(i, a)) == sum_totals(s) - account_total(s[i]) + account_total(a),
    decreases s.len(),
{
    let t = s.update(i, a);
    if i == s.len() - 1 {
        assert(t.drop_last() =~= s.drop_last());
    } else {
        assert(t.drop_last() =~= s.drop_last().update(i, a));
        lemma_sum_update(s.drop_last(), i, a);
    }
}

/// Moving funds between two accounts — or within one — leaves the total
/// held across all accounts unchanged.
pub proof fn lemma_sum_move(
    s: Seq<ConfidentialAccount>,
    source: int,
    destination: int,
    src_new: ConfidentialAccount,
    dst_new: ConfidentialAccount,
    moved: int,
)
    requires
        0 <= source < s.len(),
        0 <= destination < s.len(),
        account_total(src_new) == account_total(s[source]) - moved,
        destination != source ==> account_total(dst_new) == account_total(s[destination]) + moved,
        destination == source ==> account_total(dst_new) == account_total(src_new) + moved,
    ensures
        sum_totals(s.update(source, src_new).update(destination, dst_new)) == sum_totals(s),
{
    let s1 = s.update(source, src_new);
    lemma_sum_update(s, source, src_new);
    lemma_sum_update(s1, destination, dst_new);
}

/// Appending an account adds exactly its total to the held funds.
pub proof fn lemma_sum_push(s: Seq<ConfidentialAccount>, a: ConfidentialAccount)
    ensures
        sum_totals(s.push(a)) == sum_totals(s) + account_total(a),
{
    assert(s.push(a).drop_last() =~= s);
}

/// The ledger: every account record, plus the public running totals of what
/// has entered and left the confidential side.
pub struct EncryptedBalanceLedger {
    /// Account records, addressed by the index at which each was opened.
    pub accounts: Vec<ConfidentialAccount>,
    /// Sum of all deposited amounts, capped at `u64::MAX`.
    pub total_deposited: u64,
    /// Sum of all withdrawn amounts; never exceeds `total_deposited`.
    pub total_withdrawn: u64,
}

/// The exact outcome of a deposit attempt.
pub open spec fn spec_deposit_outcome(
    l: EncryptedBalanceLedger,
    account: int,
    amount: u64,
) -> Result<(), ErrorKind> {
    if !(0 <= account < l.accounts@.len()) {
        Err(ErrorKind::AccountNotFound)
    } else if !l.accounts@[account].allow_confidential_credits {
        Err(ErrorKind::ConfidentialCreditsDisabled)
    } else if l.total_deposited + amount > u64::MAX
        || l.accounts@[account].pending_balance_credit_counter == u64::MAX {
        Err(ErrorKind::LimitExceeded)
    } else {
        Ok(())
    }
}

/// The exact outcome of an apply-pending-balance attempt.
pub open spec fn spec_apply_outcome(
    l: EncryptedBalanceLedger,
    account: int,
    expected_counter: u64,
) -> Result<(), ErrorKind> {
    if !(0 <= account < l.accounts@.len()) {
        Err(ErrorKind::AccountNotFound)
    } else if l.accounts@[account].pending_balance_credit_counter != expected_counter {
        Err(ErrorKind::PendingCounterMismatch)
    } else if l.accounts@[account].pending_balance_credit_counter == u64::MAX {
        Err(ErrorKind::LimitExceeded)
    } else {
        Ok(())
    }
}

/// The public inputs a withdrawal from `account` must have been proved
/// against.
pub open spec fn spec_withdraw_statement(
    l: EncryptedBalanceLedger,
    account: int,
    amount: u64,
) -> ProofStatement {
    ProofStatement::ForWithdraw(
        WithdrawStatement {
            public_key: l.accounts@[account].public_key,
            available_balance: l.accounts@[account].available_balance,
            amount,
        },
    )
}

/// The exact outcome of a withdrawal attempt.
pub open spec fn spec_withdraw_outcome(
    l: EncryptedBalanceLedger,
    ctxs: Seq<crate::zkp::ProofContext>,
    account: int,
    amount: u64,
    context_id: int,
    current_slot: u64,
) -> Result<(), ErrorKind> {
    if !(0 <= account < l.accounts@.len()) {
        Err(ErrorKind::AccountNotFound)
    } else {
        spec_consume_outcome(ctxs, context_id, spec_withdraw_statement(l, account, amount), current_slot)
    }
}

/// The public inputs a transfer must have been proved against.
pub open spec fn spec_transfer_statement(
    l: EncryptedBalanceLedger,
    source: int,
    destination: int,
    source_amount: ElGamalCiphertext,
    destination_amount: ElGamalCiphertext,
) -> ProofStatement {
    ProofStatement::ForTransfer(
        TransferStatement {
            source_public_key: l.accounts@[source].public_key,
            destination_public_key: l.accounts@[destination].public_key,
            source_available_balance: l.accounts@[source].available_balance,
            source_amount,
            destination_amount,
        },
    )
}

/// The exact outcome of a transfer attempt.
pub open spec fn spec_transfer_outcome(
    l: EncryptedBalanceLedger,
    ctxs: Seq<crate::zkp::ProofContext>,
    source: int,
    destination: int,
    source_amount: ElGamalCiphertext,
    destination_amount: ElGamalCiphertext,
    context_id: int,
    current_slot: u64,
) -> Result<(), ErrorKind> {
    if !(0 <= source < l.accounts@.len()) || !(0 <= destination < l.accounts@.len()) {
        Err(ErrorKind::AccountNotFound)
    } else if !l.accounts@[destination].allow_confidential_credits {
        Err(ErrorKind::ConfidentialCreditsDisabled)
    } else if l.accounts@[destination].pending_balance_credit_counter == u64::MAX {
        Err(ErrorKind::LimitExceeded)
    } else {
        spec_consume_outcome(
            ctxs,
            context_id,
            spec_transfer_statement(l, source, destination, source_amount, destination_amount),
            current_slot,
        )
    }
}

impl EncryptedBalanceLedger {
    /// Conservation: the decrypted balances of all accounts sum to exactly
    /// what has been deposited and not yet withdrawn.
    pub open spec fn wf(self) -> bool {
        &&& self.total_withdrawn <= self.total_deposited
        &&& sum_totals(self.accounts@) == self.total_deposited - self.total_withdrawn
    }

    /// An empty ledger.
    pub fn new() -> (l: Self)
        ensures
            l.wf(),
            l.accounts@.len() == 0,
            l.total_deposited == 0,
            l.total_withdrawn == 0,
    {
        EncryptedBalanceLedger { accounts: Vec::new(), total_deposited: 0, total_withdrawn: 0 }
    }

    /// Opens an account with zero balances for `owner` under the given
    /// encryption key.
    pub fn open_account(
        &mut self,
        owner: u64,
        public_key: ElGamalPublicKey,
        decryptable_zero: u128,
        allow_confidential_credits: bool,
    ) -> (id: usize)
        requires
            old(self).wf(),
        ensures
            final(self).wf(),
            id == old(self).accounts@.len(),
            final(self).total_deposited == old(self).total_deposited,
            final(self).total_withdrawn == old(self).total_withdrawn,
            final(self).accounts@.len() == old(self).accounts@.len() + 1,
            final(self).accounts@ == old(self).accounts@.push(final(self).accounts@[id as int]),
            ({
                let a = final(self).accounts@[id as int];
                &&& a.owner == owner
                &&& a.public_key == public_key
                &&& pending_plain(a) == 0
                &&& available_plain(a) == 0
                &&& a.decryptable_available_balance == decryptable_zero
                &&& a.pending_balance_credit_counter == 0
                &&& a.expected_pending_balance_credit_counter == 0
                &&& a.allow_confidential_credits == allow_confidential_credits
            }),
    {
        let id = self.accounts.len();
        let zero = zero_ciphertext();
        let account = ConfidentialAccount {
            owner,
            public_key,
            pending_balance: zero,
            available_balance: zero,
            decryptable_available_balance: decryptable_zero,
            pending_balance_credit_counter: 0,
            expected_pending_balance_credit_counter: 0,
            allow_confidential_credits,
        };
        self.accounts.push(account);
        proof {
            lemma_plain_of_zero(public_key.point as int, account.pending_balance);
            lemma_sum_push(old(self).accounts@, account);
        }
        id
    }

    /// Credits `amount` to the account's pending balance, homomorphically:
    /// the depositor, who knows the amount, encrypts it under the account's
    /// own key.  Increments the credit counter.
    pub fn deposit(&mut self, account: usize, amount: u64, randomness: u128) -> (r: Result<
        (),
        ErrorKind,
    >)
        requires
            old(self).wf(),
        ensures
            final(self).wf(),
            r == spec_deposit_outcome(*old(self), account as int, amount),
            r is Err ==> final(self).accounts@ == old(self).accounts@
                && final(self).total_deposited == old(self).total_deposited
                && final(self).total_withdrawn == old(self).total_withdrawn,
            r is Ok ==> ({
                let a_old = old(self).accounts@[account as int];
                let a_new = final(self).accounts@[account as int];
                &&& final(self).accounts@ == old(self).accounts@.update(account as int, a_new)
                &&& pending_plain(a_new) == pending_plain(a_old) + amount
                &&& available_plain(a_new) == available_plain(a_old)
                &&& a_new.available_balance == a_old.available_balance
                &&& a_new.owner == a_old.owner
                &&& a_new.public_key == a_old.public_key
                &&& a_new.decryptable_available_balance == a_old.decryptable_available_balance
                &&& a_new.pending_balance_credit_counter
                    == a_old.pending_balance_credit_counter + 1
                &&& a_new.expected_pending_balance_credit_counter
                    == a_old.expected_pending_balance_credit_counter
                &&& a_new.allow_confidential_credits == a_old.allow_confidential_credits
                &&& final(self).total_deposited == old(self).total_deposited + amount
                &&& final(self).total_withdrawn == old(self).total_withdrawn
                &&& sum_totals(final(self).accounts@) == sum_totals(old(self).accounts@) + amount
            }),
    {
        if account >= self.accounts.len() {
            return Err(ErrorKind::AccountNotFound);
        }
        let a = self.accounts[account];
        if !a.allow_confidential_credits {
            return Err(ErrorKind::ConfidentialCreditsDisabled);
        }
        if amount > u64::MAX - self.total_deposited
            || a.pending_balance_credit_counter == u64::MAX {
            return Err(ErrorKind::LimitExceeded);
        }
        let credit = encrypt(&a.public_key, amount, randomness);
        let new_pending = ciphertext_add(&a.pending_balance, &credit);
        let updated = ConfidentialAccount {
            owner: a.owner,
            public_key: a.public_key,
            pending_balance: new_pending,
            available_balance: a.available_balance,
            decryptable_available_balance: a.decryptable_available_balance,
            pending_balance_credit_counter: a.pending_balance_credit_counter + 1,
            expected_pending_balance_credit_counter: a.expected_pending_balance_credit_counter,
            allow_confidential_credits: a.allow_confidential_credits,
        };
        proof {
            let s_old = old(self).accounts@;
            let i = account as int;
            lemma_plain_bound(a.public_key.point as int, a.pending_balance);
            lemma_sum_bound_at(s_old, i);
            lemma_plain_bound(a.public_key.point as int, a.available_balance);
            lemma_plain_of_encryption(
                a.public_key.point as int,
                amount as int,
                randomness as int,
                credit,
            );
            lemma_plain_of_sum(a.public_key.point as int, a.pending_balance, credit, new_pending);
            lemma_small_mod((pending_plain(a) + amount) as nat, group_order() as nat);
            lemma_sum_update(s_old, i, updated);
        }
        self.accounts[account] = updated;
        self.total_deposited = self.total_deposited + amount;
        Ok(())
    }

    /// Moves the whole pending balance into the available balance, guarded by
    /// the caller's counter snapshot, and overwrites the owner's decryptable
    /// balance copy.  The counter increments, so replaying the same snapshot
    /// fails.  This is the only way pending funds become spendable.
    pub fn apply_pending_balance(
        &mut self,
        account: usize,
        expected_counter: u64,
        new_decryptable_available_balance: u128,
    ) -> (r: Result<(), ErrorKind>)
        requires
            old(self).wf(),
        ensures
            final(self).wf(),
            r == spec_apply_outcome(*old(self), account as int, expected_counter),
            r is Err ==> final(self).accounts@ == old(self).accounts@
                && final(self).total_deposited == old(self).total_deposited
                && final(self).total_withdrawn == old(self).total_withdrawn,
            r is Ok ==> ({
                let a_old = old(self).accounts@[account as int];
                let a_new = final(self).accounts@[account as int];
                &&& final(self).accounts@ == old(self).accounts@.update(account as int, a_new)
                &&& pending_plain(a_new) == 0
                &&& available_plain(a_new) == available_plain(a_old) + pending_plain(a_old)
                &&& a_new.owner == a_old.owner
                &&& a_new.public_key == a_old.public_key
                &&& a_new.decryptable_available_balance == new_decryptable_available_balance
                &&& a_new.pending_balance_credit_counter
                    == a_old.pending_balance_credit_counter + 1
                &&& a_new.expected_pending_balance_credit_counter == expected_counter
                &&& a_new.allow_confidential_credits == a_old.allow_confidential_credits
                &&& final(self).total_deposited == old(self).total_deposited
                &&& final(self).total_withdrawn == old(self).total_withdrawn
                &&& sum_totals(final(self).accounts@) == sum_totals(old(self).accounts@)
            }),
    {
        if account >= self.accounts.len() {
            return Err(ErrorKind::AccountNotFound);
        }
        let a = self.accounts[account];
        if a.pending_balance_credit_counter != expected_counter {
            return Err(ErrorKind::PendingCounterMismatch);
        }
        if a.pending_balance_credit_counter == u64::MAX {
            return Err(ErrorKind::LimitExceeded);
        }
        let new_available = ciphertext_add(&a.available_balance, &a.pending_balance);
        let zero = zero_ciphertext();
        let updated = ConfidentialAccount {
            owner: a.owner,
            public_key: a.public_key,
            pending_balance: zero,
            available_balance: new_available,
            decryptable_available_balance: new_decryptable_available_balance,
            pending_balance_credit_counter: a.pending_balance_credit_counter + 1,
            expected_pending_balance_credit_counter: expected_counter,
            allow_confidential_credits: a.allow_confidential_credits,
        };
        proof {
            let s_old = old(self).accounts@;
            let i = account as int;
            lemma_plain_bound(a.public_key.point as int, a.pending_balance);
            lemma_plain_bound(a.public_key.point as int, a.available_balance);
            lemma_sum_bound_at(s_old, i);
            lemma_plain_of_sum(
                a.public_key.point as int,
                a.available_balance,
                a.pending_balance,
                new_available,
            );
            lemma_small_mod((available_plain(a) + pending_plain(a)) as nat, group_order() as nat);
            lemma_plain_of_zero(a.public_key.point as int, zero);
            lemma_sum_update(s_old, i, updated);
        }
        self.accounts[account] = updated;
        Ok(())
    }

    /// Turns acceptance of confidential credits on or off for an account.
    pub fn set_allow_confidential_credits(&mut self, account: usize, allow: bool) -> (r: Result<
        (),
        ErrorKind,
    >)
        requires
            old(self).wf(),
        ensures
            final(self).wf(),
            r is Ok <==> account < old(self).accounts@.len(),
            r is Err ==> r == Err::<(), ErrorKind>(ErrorKind::AccountNotFound)
                && final(self).accounts@ == old(self).accounts@,
            final(self).total_deposited == old(self).total_deposited,
            final(self).total_withdrawn == old(self).total_withdrawn,
            r is Ok ==> ({
                let a_old = old(self).accounts@[account as int];
                let a_new = final(self).accounts@[account as int];
                &&& final(self).accounts@ == old(self).accounts@.update(account as int, a_new)
                &&& a_new.allow_confidential_credits == allow
                &&& a_new.owner == a_old.owner
                &&& a_new.public_key == a_old.public_key
                &&& a_new.pending_balance == a_old.pending_balance
                &&& a_new.available_balance == a_old.available_balance
                &&& a_new.decryptable_available_balance == a_old.decryptable_available_balance
                &&& a_new.pending_balance_credit_counter == a_old.pending_balance_credit_counter
                &&& a_new.expected_pending_balance_credit_counter
                    == a_old.expected_pending_balance_credit_counter
                &&& sum_totals(final(self).accounts@) == sum_totals(old(self).accounts@)
            }),
    {
        if account >= self.accounts.len() {
            return Err(ErrorKind::AccountNotFound);
        }
        let a = self.accounts[account];
        let updated = ConfidentialAccount {
            owner: a.owner,
            public_key: a.public_key,
            pending_balance: a.pending_balance,
            available_balance: a.available_balance,
            decryptable_available_balance: a.decryptable_available_balance,
            pending_balance_credit_counter: a.pending_balance_credit_counter,
            expected_pending_balance_credit_counter: a.expected_pending_balance_credit_counter,
            allow_confidential_credits: allow,
        };
        proof {
            lemma_sum_update(old(self).accounts@, account as int, updated);
        }
        self.accounts[account] = updated;
        Ok(())
    }

    /// Withdraws a public amount from the account's available balance.  The
    /// proof context must be verified, unexpired, and bound to exactly this
    /// account's key, its current available balance and this amount; it is
    /// consumed by the operation.  Because the bound range proof certifies a
    /// non-negative remainder, a withdrawal can never overdraw the balance.
    pub fn withdraw(
        &mut self,
        contexts: &mut ProofContextStore,
        account: usize,
        amount: u64,
        context_id: usize,
        current_slot: u64,
    ) -> (r: Result<(), ErrorKind>)
        requires
            old(self).wf(),
            old(contexts).wf(),
        ensures
            final(self).wf(),
            final(contexts).wf(),
            r == spec_withdraw_outcome(
                *old(self),
                old(contexts).contexts@,
                account as int,
                amount,
                context_id as int,
                current_slot,
            ),
            r is Err ==> final(self).accounts@ == old(self).accounts@
                && final(self).total_deposited == old(self).total_deposited
                && final(self).total_withdrawn == old(self).total_withdrawn
                && final(contexts).contexts@ == old(contexts).contexts@,
            r is Ok ==> ({
                let a_old = old(self).accounts@[account as int];
                let a_new = final(self).accounts@[account as int];
                &&& final(self).accounts@ == old(self).accounts@.update(account as int, a_new)
                &&& amount <= available_plain(a_old)
                &&& available_plain(a_new) == available_plain(a_old) - amount
                &&& pending_plain(a_new) == pending_plain(a_old)
                &&& a_new.pending_balance == a_old.pending_balance
                &&& a_new.owner == a_old.owner
                &&& a_new.public_key == a_old.public_key
                &&& a_new.decryptable_available_balance == a_old.decryptable_available_balance
                &&& a_new.pending_balance_credit_counter == a_old.pending_balance_credit_counter
                &&& a_new.expected_pending_balance_credit_counter
                    == a_old.expected_pending_balance_credit_counter
                &&& a_new.allow_confidential_credits == a_old.allow_confidential_credits
                &&& final(self).total_deposited == old(self).total_deposited
                &&& final(self).total_withdrawn == old(self).total_withdrawn + amount
                &&& sum_totals(final(self).accounts@) == sum_totals(old(self).accounts@) - amount
                &&& final(contexts).contexts@.len() == old(contexts).contexts@.len()
                &&& final(contexts).contexts@[context_id as int].state
                    == ProofContextState::Consumed
            }),
    {
        if account >= self.accounts.len() {
            return Err(ErrorKind::AccountNotFound);
        }
        let a = self.accounts[account];
        let statement = ProofStatement::ForWithdraw(
            WithdrawStatement {
                public_key: a.public_key,
                available_balance: a.available_balance,
                amount,
            },
        );
        match contexts.consume_context(context_id, &statement, current_slot) {
            Ok(_) => {},
            Err(kind) => {
                return Err(kind);
            },
        }
        let debit = encrypt(&a.public_key, amount, 0);
        let new_available = ciphertext_sub(&a.available_balance, &debit);
        let updated = ConfidentialAccount {
            owner: a.owner,
            public_key: a.public_key,
            pending_balance: a.pending_balance,
            available_balance: new_available,
            decryptable_available_balance: a.decryptable_available_balance,
            pending_balance_credit_counter: a.pending_balance_credit_counter,
            expected_pending_balance_credit_counter: a.expected_pending_balance_credit_counter,
            allow_confidential_credits: a.allow_confidential_credits,
        };
        proof {
            let s_old = old(self).accounts@;
            let i = account as int;
            let m = group_order();
            let avail = available_plain(a);
            lemma_plain_bound(a.public_key.point as int, a.available_balance);
            lemma_plain_bound(a.public_key.point as int, a.pending_balance);
            lemma_sum_bound_at(s_old, i);
            // The consumed context certifies gsub(avail, amount) < amount_bound();
            // a wrapped-around negative remainder would land far above the bound.
            if avail < amount as int {
                lemma_mod_add_multiples_vanish(avail - amount, m);
                lemma_small_mod((avail - amount + m) as nat, m as nat);
                assert(false);
            }
            lemma_small_mod((avail - amount) as nat, m as nat);
            lemma_plain_of_encryption(a.public_key.point as int, amount as int, 0, debit);
            lemma_plain_of_diff(a.public_key.point as int, a.available_balance, debit, new_available);
            lemma_sum_update(s_old, i, updated);
        }
        self.accounts[account] = updated;
        self.total_withdrawn = self.total_withdrawn + amount;
        Ok(())
    }

    /// Transfers a hidden amount: debits the source's available balance and
    /// credits the destination's pending balance with the two encryptions the
    /// consumed proof context certifies to hold the same in-range amount.
    /// The destination's credit counter increments.
    #[verifier::rlimit(100)]
    pub fn transfer(
        &mut self,
        contexts: &mut ProofContextStore,
        source: usize,
        destination: usize,
        source_amount: ElGamalCiphertext,
        destination_amount: ElGamalCiphertext,
        context_id: usize,
        current_slot: u64,
    ) -> (r: Result<(), ErrorKind>)
        requires
            old(self).wf(),
            old(contexts).wf(),
        ensures
            final(self).wf(),
            final(contexts).wf(),
            r == spec_transfer_outcome(
                *old(self),
                old(contexts).contexts@,
                source as int,
                destination as int,
                source_amount,
                destination_amount,
                context_id as int,
                current_slot,
            ),
            r is Err ==> final(self).accounts@ == old(self).accounts@
                && final(self).total_deposited == old(self).total_deposited
                && final(self).total_withdrawn == old(self).total_withdrawn
                && final(contexts).contexts@ == old(contexts).contexts@,
            r is Ok ==> ({
                let moved = plain_of(
                    old(self).accounts@[source as int].public_key.point as int,
                    source_amount,
                );
                let s_old = old(self).accounts@;
                let src_old = s_old[source as int];
                let dst_old = s_old[destination as int];
                let src_new = final(self).accounts@[source as int];
                let dst_new = final(self).accounts@[destination as int];
                &&& 0 <= moved < amount_bound()
                &&& moved <= available_plain(src_old)
                &&& plain_of(dst_old.public_key.point as int, destination_amount) == moved
                &&& final(self).accounts@.len() == s_old.len()
                &&& available_plain(src_new) == available_plain(src_old) - moved
                &&& pending_plain(dst_new) == pending_plain(dst_old) + moved
                &&& (source != destination ==> pending_plain(src_new) == pending_plain(src_old))
                &&& dst_new.pending_balance_credit_counter
                    == dst_old.pending_balance_credit_counter + 1
                &&& (forall|j: int| 0 <= j < s_old.len() && j != source && j != destination
                    ==> final(self).accounts@[j] == s_old[j])
                &&& src_new.owner == src_old.owner
                &&& src_new.public_key == src_old.public_key
                &&& dst_new.owner == dst_old.owner
                &&& dst_new.public_key == dst_old.public_key
                &&& dst_new.allow_confidential_credits == dst_old.allow_confidential_credits
                &&& final(self).total_deposited == old(self).total_deposited
                &&& final(self).total_withdrawn == old(self).total_withdrawn
                &&& sum_totals(final(self).accounts@) == sum_totals(old(self).accounts@)
                &&& final(contexts).contexts@.len() == old(contexts).contexts@.len()
                &&& final(contexts).contexts@[context_id as int].state
                    == ProofContextState::Consumed
            }),
    {
        if source >= self.accounts.len() || destination >= self.accounts.len() {
            return Err(ErrorKind::AccountNotFound);
        }
        let src = self.accounts[source];
        let dst = self.accounts[destination];
        if !dst.allow_confidential_credits {
            return Err(ErrorKind::ConfidentialCreditsDisabled);
        }
        if dst.pending_balance_credit_counter == u64::MAX {
            return Err(ErrorKind::LimitExceeded);
        }
        let statement = ProofStatement::ForTransfer(
            TransferStatement {
                source_public_key: src.public_key,
                destination_public_key: dst.public_key,
                source_available_balance: src.available_balance,
                source_amount,
                destination_amount,
            },
        );
        match contexts.consume_context(context_id, &statement, current_slot) {
            Ok(_) => {},
            Err(kind) => {
                return Err(kind);
            },
        }
        let ghost moved = plain_of(src.public_key.point as int, source_amount);
        let new_available = ciphertext_sub(&src.available_balance, &source_amount);
        let src_updated = ConfidentialAccount {
            owner: src.owner,
            public_key: src.public_key,
            pending_balance: src.pending_balance,
            available_balance: new_available,
            decryptable_available_balance: src.decryptable_available_balance,
            pending_balance_credit_counter: src.pending_balance_credit_counter,
            expected_pending_balance_credit_counter: src.expected_pending_balance_credit_counter,
            allow_confidential_credits: src.allow_confidential_credits,
        };
        proof {
            let s_old = old(self).accounts@;
            let m = group_order();
            let avail = available_plain(src);
            lemma_plain_bound(src.public_key.point as int, src.available_balance);
            lemma_plain_bound(src.public_key.point as int, src.pending_balance);
            lemma_plain_bound(dst.public_key.point as int, dst.pending_balance);
            lemma_plain_bound(dst.public_key.point as int, dst.available_balance);
            lemma_plain_bound(src.public_key.point as int, source_amount);
            lemma_sum_bound_at(s_old, source as int);
            lemma_sum_bound_at(s_old, destination as int);
            lemma_sum_nonneg(s_old);
            // The consumed context certifies gsub(avail, moved) < amount_bound();
            // a wrapped-around negative remainder would land far above the bound.
            if avail < moved {
                lemma_mod_add_multiples_vanish(avail - moved, m);
                lemma_small_mod((avail - moved + m) as nat, m as nat);
                assert(false);
            }
            lemma_small_mod((avail - moved) as nat, m as nat);
            lemma_plain_of_diff(
                src.public_key.point as int,
                src.available_balance,
                source_amount,
                new_available,
            );
            assert(available_plain(src_updated) == available_plain(src) - moved);
            assert(pending_plain(src_updated) == pending_plain(src));
            assert(account_total(src_updated) == account_total(src) - moved);
        }
        self.accounts[source] = src_updated;
        let base = self.accounts[destination];
        let new_pending = ciphertext_add(&base.pending_balance, &destination_amount);
        let dst_updated = ConfidentialAccount {
            owner: base.owner,
            public_key: base.public_key,
            pending_balance: new_pending,
            available_balance: base.available_balance,
            decryptable_available_balance: base.decryptable_available_balance,
            pending_balance_credit_counter: base.pending_balance_credit_counter + 1,
            expected_pending_balance_credit_counter: base.expected_pending_balance_credit_counter,
            allow_confidential_credits: base.allow_confidential_credits,
        };
        proof {
            let s_old = old(self).accounts@;
            let m = group_order();
            assert(self.accounts@ == s_old.update(source as int, src_updated));
            if source == destination {
                assert(base == src_updated);
            } else {
                assert(base == dst);
            }
            assert(plain_of(base.public_key.point as int, destination_amount) == moved);
            assert(0 <= pending_plain(base) && pending_plain(base) + moved < m) by {
                lemma_plain_bound(base.public_key.point as int, base.pending_balance);
            }
            lemma_plain_of_sum(
                base.public_key.point as int,
                base.pending_balance,
                destination_amount,
                new_pending,
            );
            lemma_small_mod((pending_plain(base) + moved) as nat, m as nat);
            assert(pending_plain(dst_updated) == pending_plain(base) + moved);
            assert(available_plain(dst_updated) == available_plain(base));
            assert(account_total(dst_updated) == account_total(base) + moved);
            lemma_sum_move(s_old, source as int, destination as int, src_updated, dst_updated, moved);
        }
        self.accounts[destination] = dst_updated;
        Ok(())
    }
}

/// Law: a pending-balance snapshot is single-use — once an apply with
/// `expected_counter` has succeeded, turning the ledger `before` into
/// `after`, a second apply presenting the same snapshot is rejected with
/// `PendingCounterMismatch`.
pub proof fn lemma_apply_snapshot_single_use(
    before: EncryptedBalanceLedger,
    after: EncryptedBalanceLedger,
    account: int,
    expected_counter: u64,
)
    requires
        spec_apply_outcome(before, account, expected_counter) is Ok,
        0 <= account < after.accounts@.len(),
        after.accounts@[account].pending_balance_credit_counter
            == before.accounts@[account].pending_balance_credit_counter + 1,
    ensures
        spec_apply_outcome(after, account, expected_counter)
            == Err::<(), ErrorKind>(ErrorKind::PendingCounterMismatch),
{
}

/// Law: a proof context is single-use — once a withdrawal has consumed it,
/// a second withdrawal presenting the same context is rejected with
/// `ProofContextAlreadyConsumed`, whatever account, amount or slot the retry
/// names.
pub proof fn lemma_context_single_use(
    before: EncryptedBalanceLedger,
    ctxs_before: Seq<ProofContext>,
    after: EncryptedBalanceLedger,
    ctxs_after: Seq<ProofContext>,
    account: int,
    amount: u64,
    retry_account: int,
    retry_amount: u64,
    context_id: int,
    slot: u64,
    retry_slot: u64,
)
    requires
        spec_withdraw_outcome(before, ctxs_before, account, amount, context_id, slot) is Ok,
        ctxs_after.len() == ctxs_before.len(),
        ctxs_after[context_id].state == ProofContextState::Consumed,
        0 <= retry_account < after.accounts@.len(),
    ensures
        spec_withdraw_outcome(after, ctxs_after, retry_account, retry_amount, context_id, retry_slot)
            == Err::<(), ErrorKind>(ErrorKind::ProofContextAlreadyConsumed),
{
}

/// Law: conservation — in every well-formed ledger the decrypted pending and
/// available balances across all accounts sum to exactly total deposits minus
/// total withdrawals; every ledger operation's contract preserves this.
pub proof fn lemma_conservation(l: EncryptedBalanceLedger)
    requires
        l.wf(),
    ensures
        sum_totals(l.accounts@) == l.total_deposited - l.total_withdrawn,
        sum_totals(l.accounts@) >= 0,
{
    lemma_sum_nonneg(l.accounts@);
}

} // verus!
