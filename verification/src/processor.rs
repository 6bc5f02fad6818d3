//! The instruction processor: the single public entry point.
//!
//! It validates signers and authorities, routes each instruction to the
//! ledger and the proof-context store, and guarantees atomicity: an
//! instruction either commits every state change it describes or, on any
//! error, changes nothing at all.

use vstd::prelude::*;

verus! {

use crate::crypto::{ElGamalCiphertext, ElGamalPublicKey, plain_of, amount_bound, lemma_plain_bound};
use crate::errors::ErrorKind;
use crate::ledger::{
    EncryptedBalanceLedger, account_total, available_plain, pending_plain, sum_totals,
    lemma_sum_bound_at, lemma_sum_push, lemma_sum_update,
    spec_apply_outcome, spec_deposit_outcome, spec_transfer_outcome, spec_withdraw_outcome,
};
use crate::zkp::{ProofContextState, ProofContextStore};

/// The mint's confidential-transfer configuration.
#[derive(Clone, Copy, Debug)]
pub struct MintConfig {
    /// Number of decimals of the token; carried for clients, not consulted by
    /// the core.
    pub decimals: u8,
    /// The authority whose signature gates configuration changes and
    /// administrative mint and burn.
    pub mint_authority: u64,
    /// Optional auditor key; when present, clients additionally encrypt
    /// transfer amounts under it.
    pub auditor_public_key: Option<ElGamalPublicKey>,
    /// Whether newly configured accounts accept confidential credits at once.
    pub auto_approve_new_accounts: bool,
}

/// The whole persisted state an instruction runs against.
pub struct TokenState {
    /// The mint configuration, absent until initialized.
    pub mint: Option<MintConfig>,
    /// The encrypted-balance ledger.
    pub ledger: EncryptedBalanceLedger,
    /// The short-lived proof-context store.
    pub contexts: ProofContextStore,
    /// The current slot, against which context expiry is judged.
    pub current_slot: u64,
}

/// The closed set of instructions the processor accepts.
#[derive(Clone, Copy, Debug)]
pub enum Instruction {
    /// Establish the mint configuration; requires the named authority's
    /// signature and refuses reconfiguration.
    InitializeMint {
        decimals: u8,
        mint_authority: u64,
        auditor_public_key: Option<ElGamalPublicKey>,
        auto_approve_new_accounts: bool,
    },
    /// Open a confidential account for `owner` under its encryption key.
    ConfigureAccount { owner: u64, public_key: ElGamalPublicKey, decryptable_zero: u128 },
    /// Credit a public amount to the account's pending balance.
    Deposit { account: usize, amount: u64, randomness: u128 },
    /// Move the pending balance into the available balance, guarded by the
    /// owner's counter snapshot.
    ApplyPendingBalance { account: usize, expected_counter: u64, new_decryptable_available_balance: u128 },
    /// Withdraw a public amount, authorized by a verified proof context.
    Withdraw { account: usize, amount: u64, context_id: usize },
    /// Move a hidden amount between two accounts, authorized by a verified
    /// proof context.
    Transfer {
        source: usize,
        destination: usize,
        source_amount: ElGamalCiphertext,
        destination_amount: ElGamalCiphertext,
        context_id: usize,
    },
    /// Let the account accept confidential credits.
    EnableConfidentialCredits { account: usize },
    /// Stop the account from accepting confidential credits.
    DisableConfidentialCredits { account: usize },
    /// Administrative mint: credit new supply to an account's pending
    /// balance; requires the mint authority.
    MintTo { admin: u64, destination: usize, amount: u64, randomness: u128 },
    /// Administrative burn: destroy supply out of an account's available
    /// balance, proof-gated like a withdrawal; requires the mint authority.
    Burn { admin: u64, account: usize, amount: u64, context_id: usize },
}

/// The exact outcome of an instruction against a given state: which error a
/// rejected instruction surfaces, and when it is accepted instead.
pub open spec fn spec_process_outcome(
    s: TokenState,
    instruction: Instruction,
    signers: Seq<u64>,
) -> Result<(), ErrorKind> {
    match instruction {
        Instruction::InitializeMint { mint_authority, .. } => {
            if s.mint is Some {
                Err(ErrorKind::Unauthorized)
            } else if !signers.contains(mint_authority) {
                Err(ErrorKind::Unauthorized)
            } else {
                Ok(())
            }
        },
        Instruction::ConfigureAccount { owner, .. } => {
            if s.mint is None {
                Err(ErrorKind::MintNotInitialized)
            } else if !signers.contains(owner) {
                Err(ErrorKind::Unauthorized)
            } else {
                Ok(())
            }
        },
        Instruction::Deposit { account, amount, .. } => {
            if !(account < s.ledger.accounts@.len()) {
                Err(ErrorKind::AccountNotFound)
            } else if !signers.contains(s.ledger.accounts@[account as int].owner) {
                Err(ErrorKind::Unauthorized)
            } else {
                spec_deposit_outcome(s.ledger, account as int, amount)
            }
        },
        Instruction::ApplyPendingBalance { account, expected_counter, .. } => {
            if !(account < s.ledger.accounts@.len()) {
                Err(ErrorKind::AccountNotFound)
            } else if !signers.contains(s.ledger.accounts@[account as int].owner) {
                Err(ErrorKind::Unauthorized)
            } else {
                spec_apply_outcome(s.ledger, account as int, expected_counter)
            }
        },
        Instruction::Withdraw { account, amount, context_id } => {
            if !(account < s.ledger.accounts@.len()) {
                Err(ErrorKind::AccountNotFound)
            } else if !signers.contains(s.ledger.accounts@[account as int].owner) {
                Err(ErrorKind::Unauthorized)
            } else {
                spec_withdraw_outcome(
                    s.ledger,
                    s.contexts.contexts@,
                    account as int,
                    amount,
                    context_id as int,
                    s.current_slot,
                )
            }
        },
        Instruction::Transfer { source, destination, source_amount, destination_amount, context_id } => {
            if !(source < s.ledger.accounts@.len()) || !(destination < s.ledger.accounts@.len()) {
                Err(ErrorKind::AccountNotFound)
            } else if !signers.contains(s.ledger.accounts@[source as int].owner) {
                Err(ErrorKind::Unauthorized)
            } else {
                spec_transfer_outcome(
                    s.ledger,
                    s.contexts.contexts@,
                    source as int,
                    destination as int,
                    source_amount,
                    destination_amount,
                    context_id as int,
                    s.current_slot,
                )
            }
        },
        Instruction::EnableConfidentialCredits { account } => {
            if !(account < s.ledger.accounts@.len()) {
                Err(ErrorKind::AccountNotFound)
            } else if !signers.contains(s.ledger.accounts@[account as int].owner) {
                Err(ErrorKind::Unauthorized)
            } else {
                Ok(())
            }
        },
        Instruction::DisableConfidentialCredits { account } => {
            if !(account < s.ledger.accounts@.len()) {
                Err(ErrorKind::AccountNotFound)
            } else if !signers.contains(s.ledger.accounts@[account as int].owner) {
                Err(ErrorKind::Unauthorized)
            } else {
                Ok(())
            }
        },
        Instruction::MintTo { admin, destination, amount, .. } => {
            if s.mint is None {
                Err(ErrorKind::MintNotInitialized)
            } else if admin != s.mint->0.mint_authority || !signers.contains(admin) {
                Err(ErrorKind::Unauthorized)
            } else {
                spec_deposit_outcome(s.ledger, destination as int, amount)
            }
        },
        Instruction::Burn { admin, account, amount, context_id } => {
            if s.mint is None {
                Err(ErrorKind::MintNotInitialized)
            } else if admin != s.mint->0.mint_authority || !signers.contains(admin) {
                Err(ErrorKind::Unauthorized)
            } else {
                spec_withdraw_outcome(
                    s.ledger,
                    s.contexts.contexts@,
                    account as int,
                    amount,
                    context_id as int,
                    s.current_slot,
                )
            }
        },
    }
}

/// Effect of a credit (deposit or administrative mint) on the ledger.
pub open spec fn spec_credit_effect(
    l_old: EncryptedBalanceLedger,
    l_new: EncryptedBalanceLedger,
    account: int,
    amount: u64,
) -> bool {
    let a_old = l_old.accounts@[account];
    let a_new = l_new.accounts@[account];
    &&& 0 <= account < l_old.accounts@.len()
    &&& l_new.accounts@ == l_old.accounts@.update(account, a_new)
    &&& pending_plain(a_new) == pending_plain(a_old) + amount
    &&& available_plain(a_new) == available_plain(a_old)
    &&& a_new.pending_balance_credit_counter == a_old.pending_balance_credit_counter + 1
    &&& a_new.owner == a_old.owner
    &&& a_new.public_key == a_old.public_key
    &&& a_new.allow_confidential_credits == a_old.allow_confidential_credits
    &&& a_new.decryptable_available_balance == a_old.decryptable_available_balance
    &&& l_new.total_deposited == l_old.total_deposited + amount
    &&& l_new.total_withdrawn == l_old.total_withdrawn
    &&& sum_totals(l_new.accounts@) == sum_totals(l_old.accounts@) + amount
}

/// Effect of applying the pending balance on the ledger.
pub open spec fn spec_apply_effect(
    l_old: EncryptedBalanceLedger,
    l_new: EncryptedBalanceLedger,
    account: int,
    expected_counter: u64,
    new_decryptable_available_balance: u128,
) -> bool {
    let a_old = l_old.accounts@[account];
    let a_new = l_new.accounts@[account];
    &&& 0 <= account < l_old.accounts@.len()
    &&& l_new.accounts@ == l_old.accounts@.update(account, a_new)
    &&& pending_plain(a_new) == 0
    &&& available_plain(a_new) == available_plain(a_old) + pending_plain(a_old)
    &&& a_new.pending_balance_credit_counter == a_old.pending_balance_credit_counter + 1
    &&& a_new.expected_pending_balance_credit_counter == expected_counter
    &&& a_new.decryptable_available_balance == new_decryptable_available_balance
    &&& a_new.owner == a_old.owner
    &&& a_new.public_key == a_old.public_key
    &&& a_new.allow_confidential_credits == a_old.allow_confidential_credits
    &&& l_new.total_deposited == l_old.total_deposited
    &&& l_new.total_withdrawn == l_old.total_withdrawn
    &&& sum_totals(l_new.accounts@) == sum_totals(l_old.accounts@)
}

/// Effect of a withdrawal (or administrative burn) on the ledger.
pub open spec fn spec_withdraw_effect(
    l_old: EncryptedBalanceLedger,
    l_new: EncryptedBalanceLedger,
    account: int,
    amount: u64,
) -> bool {
    let a_old = l_old.accounts@[account];
    let a_new = l_new.accounts@[account];
    &&& 0 <= account < l_old.accounts@.len()
    &&& l_new.accounts@ == l_old.accounts@.update(account, a_new)
    &&& amount <= available_plain(a_old)
    &&& available_plain(a_new) == available_plain(a_old) - amount
    &&& pending_plain(a_new) == pending_plain(a_old)
    &&& a_new.pending_balance_credit_counter == a_old.pending_balance_credit_counter
    &&& a_new.owner == a_old.owner
    &&& a_new.public_key == a_old.public_key
    &&& a_new.allow_confidential_credits == a_old.allow_confidential_credits
    &&& a_new.decryptable_available_balance == a_old.decryptable_available_balance
    &&& l_new.total_deposited == l_old.total_deposited
    &&& l_new.total_withdrawn == l_old.total_withdrawn + amount
    &&& sum_totals(l_new.accounts@) == sum_totals(l_old.accounts@) - amount
}

/// Effect of a transfer on the ledger: the hidden amount moves from the
/// source's available balance to the destination's pending balance.
pub open spec fn spec_transfer_effect(
    l_old: EncryptedBalanceLedger,
    l_new: EncryptedBalanceLedger,
    source: int,
    destination: int,
    source_amount: ElGamalCiphertext,
    destination_amount: ElGamalCiphertext,
) -> bool {
    let moved = plain_of(l_old.accounts@[source].public_key.point as int, source_amount);
    let src_old = l_old.accounts@[source];
    let dst_old = l_old.accounts@[destination];
    let src_new = l_new.accounts@[source];
    let dst_new = l_new.accounts@[destination];
    &&& 0 <= source < l_old.accounts@.len()
    &&& 0 <= destination < l_old.accounts@.len()
    &&& 0 <= moved < amount_bound()
    &&& moved <= available_plain(src_old)
    &&& plain_of(dst_old.public_key.point as int, destination_amount) == moved
    &&& l_new.accounts@.len() == l_old.accounts@.len()
    &&& available_plain(src_new) == available_plain(src_old) - moved
    &&& pending_plain(dst_new) == pending_plain(dst_old) + moved
    &&& (source != destination ==> pending_plain(src_new) == pending_plain(src_old))
    &&& dst_new.pending_balance_credit_counter == dst_old.pending_balance_credit_counter + 1
    &&& (forall|j: int| 0 <= j < l_old.accounts@.len() && j != source && j != destination
        ==> l_new.accounts@[j] == l_old.accounts@[j])
    &&& l_new.total_deposited == l_old.total_deposited
    &&& l_new.total_withdrawn == l_old.total_withdrawn
    &&& sum_totals(l_new.accounts@) == sum_totals(l_old.accounts@)
}

/// Effect of opening an account on the ledger.
pub open spec fn spec_open_effect(
    l_old: EncryptedBalanceLedger,
    l_new: EncryptedBalanceLedger,
    owner: u64,
    public_key: ElGamalPublicKey,
    decryptable_zero: u128,
    allow_confidential_credits: bool,
) -> bool {
    let a = l_new.accounts@[l_old.accounts@.len() as int];
    &&& l_new.accounts@ == l_old.accounts@.push(a)
    &&& a.owner == owner
    &&& a.public_key == public_key
    &&& pending_plain(a) == 0
    &&& available_plain(a) == 0
    &&& a.decryptable_available_balance == decryptable_zero
    &&& a.pending_balance_credit_counter == 0
    &&& a.expected_pending_balance_credit_counter == 0
    &&& a.allow_confidential_credits == allow_confidential_credits
    &&& l_new.total_deposited == l_old.total_deposited
    &&& l_new.total_withdrawn == l_old.total_withdrawn
}

/// Effect of toggling confidential credits on the ledger.
pub open spec fn spec_toggle_effect(
    l_old: EncryptedBalanceLedger,
    l_new: EncryptedBalanceLedger,
    account: int,
    allow: bool,
) -> bool {
    let a_old = l_old.accounts@[account];
    let a_new = l_new.accounts@[account];
    &&& 0 <= account < l_old.accounts@.len()
    &&& l_new.accounts@ == l_old.accounts@.update(account, a_new)
    &&& a_new.allow_confidential_credits == allow
    &&& a_new.owner == a_old.owner
    &&& a_new.public_key == a_old.public_key
    &&& a_new.pending_balance == a_old.pending_balance
    &&& a_new.available_balance == a_old.available_balance
    &&& a_new.pending_balance_credit_counter == a_old.pending_balance_credit_counter
    &&& l_new.total_deposited == l_old.total_deposited
    &&& l_new.total_withdrawn == l_old.total_withdrawn
}

/// Some single ledger operation turned `before` into `after`: an account was
/// opened, a balance was credited, applied, withdrawn or transferred, or the
/// credit flag was toggled.
pub open spec fn spec_ledger_step(
    before: EncryptedBalanceLedger,
    after: EncryptedBalanceLedger,
) -> bool {
    ||| (exists|owner: u64, public_key: ElGamalPublicKey, decryptable_zero: u128, allow: bool|
        spec_open_effect(before, after, owner, public_key, decryptable_zero, allow))
    ||| (exists|account: int, amount: u64| spec_credit_effect(before, after, account, amount))
    ||| (exists|account: int, expected_counter: u64, new_decryptable: u128|
        spec_apply_effect(before, after, account, expected_counter, new_decryptable))
    ||| (exists|account: int, amount: u64| spec_withdraw_effect(before, after, account, amount))
    ||| (exists|source: int, destination: int, source_amount: ElGamalCiphertext,
        destination_amount: ElGamalCiphertext|
        spec_transfer_effect(before, after, source, destination, source_amount, destination_amount))
    ||| (exists|account: int, allow: bool| spec_toggle_effect(before, after, account, allow))
}

/// Every single operation keeps the books: a step away from a well-formed
/// ledger lands in a well-formed ledger, so the decrypted balances still sum
/// to total deposits minus total withdrawals.
pub proof fn lemma_step_preserves_conservation(
    before: EncryptedBalanceLedger,
    after: EncryptedBalanceLedger,
)
    requires
        before.wf(),
        spec_ledger_step(before, after),
    ensures
        after.wf(),
{
    if exists|owner: u64, public_key: ElGamalPublicKey, decryptable_zero: u128, allow: bool|
        spec_open_effect(before, after, owner, public_key, decryptable_zero, allow) {
        let opened = after.accounts@[before.accounts@.len() as int];
        lemma_sum_push(before.accounts@, opened);
    } else if exists|account: int, amount: u64| spec_credit_effect(before, after, account, amount) {
        // the effect itself carries the sum and totals bookkeeping
    } else if exists|account: int, expected_counter: u64, new_decryptable: u128|
        spec_apply_effect(before, after, account, expected_counter, new_decryptable) {
        // the effect itself carries the sum and totals bookkeeping
    } else if exists|account: int, amount: u64| spec_withdraw_effect(before, after, account, amount) {
        let (account, amount) = choose|account: int, amount: u64|
            spec_withdraw_effect(before, after, account, amount);
        let a_old = before.accounts@[account];
        lemma_plain_bound(a_old.public_key.point as int, a_old.pending_balance);
        lemma_plain_bound(a_old.public_key.point as int, a_old.available_balance);
        lemma_sum_bound_at(before.accounts@, account);
    } else if exists|source: int, destination: int, source_amount: ElGamalCiphertext,
        destination_amount: ElGamalCiphertext|
        spec_transfer_effect(before, after, source, destination, source_amount, destination_amount) {
        // the effect itself carries the sum and totals bookkeeping
    } else {
        let (account, allow) = choose|account: int, allow: bool|
            spec_toggle_effect(before, after, account, allow);
        let a_new = after.accounts@[account];
        assert(account_total(a_new) == account_total(before.accounts@[account]));
        lemma_sum_update(before.accounts@, account, a_new);
    }
}

/// Law: conservation — along any run of ledger operations that starts from
/// the empty ledger, every prefix leaves the decrypted pending and available
/// balances of all accounts summing to exactly total deposits minus total
/// withdrawals.
pub proof fn lemma_conservation_over_run(states: Seq<EncryptedBalanceLedger>)
    requires
        states.len() > 0,
        states[0].accounts@.len() == 0,
        states[0].total_deposited == 0,
        states[0].total_withdrawn == 0,
        forall|i: int| 0 <= i < states.len() - 1
            ==> spec_ledger_step(#[trigger] states[i], states[i + 1]),
    ensures
        forall|i: int| 0 <= i < states.len() ==> (#[trigger] states[i]).wf(),
        forall|i: int| 0 <= i < states.len()
            ==> sum_totals((#[trigger] states[i]).accounts@)
                == states[i].total_deposited - states[i].total_withdrawn,
    decreases states.len(),
{
    let n = states.len() - 1;
    if n == 0 {
        assert(states[0].wf());
    } else {
        let shorter = states.drop_last();
        assert forall|i: int| 0 <= i < shorter.len() - 1
            implies spec_ledger_step(#[trigger] shorter[i], shorter[i + 1]) by {
            assert(shorter[i] == states[i]);
            assert(shorter[i + 1] == states[i + 1]);
        }
        lemma_conservation_over_run(shorter);
        assert(shorter[n - 1] == states[n - 1]);
        lemma_step_preserves_conservation(states[n - 1], states[n]);
        assert forall|i: int| 0 <= i < states.len() implies (#[trigger] states[i]).wf() by {
            if i < n {
                assert(shorter[i] == states[i]);
            }
        }
    }
}

impl TokenState {
    /// Both persistent stores are well formed.
    pub open spec fn wf(self) -> bool {
        &&& self.ledger.wf()
        &&& self.contexts.wf()
    }

    /// A fresh state: no mint, no accounts, no contexts, slot zero.
    pub fn new() -> (s: Self)
        ensures
            s.wf(),
            s.mint is None,
            s.ledger.accounts@.len() == 0,
            s.ledger.total_deposited == 0,
            s.ledger.total_withdrawn == 0,
            s.contexts.contexts@.len() == 0,
            s.current_slot == 0,
    {
        TokenState {
            mint: None,
            ledger: EncryptedBalanceLedger::new(),
            contexts: ProofContextStore::new(),
            current_slot: 0,
        }
    }

    /// Advances the slot clock by one, saturating at the maximum; contexts
    /// whose expiry slot has passed can no longer be consumed.
    pub fn advance_slot(&mut self)
        requires
            old(self).wf(),
        ensures
            final(self).wf(),
            final(self).current_slot == if old(self).current_slot < u64::MAX {
                old(self).current_slot + 1
            } else {
                old(self).current_slot as int
            },
            final(self).mint == old(self).mint,
            final(self).ledger == old(self).ledger,
            final(self).contexts.contexts@ == old(self).contexts.contexts@,
    {
        if self.current_slot < u64::MAX {
            self.current_slot = self.current_slot + 1;
        }
    }
}

/// Whether `key` signed: a linear scan of the signer set.
pub fn is_signed_by(signers: &Vec<u64>, key: u64) -> (found: bool)
    ensures
        found == signers@.contains(key),
{
    let mut i: usize = 0;
    while i < signers.len()
        invariant
            i <= signers@.len(),
            forall|j: int| 0 <= j < i ==> signers@[j] != key,
        decreases signers@.len() - i,
    {
        if signers[i] == key {
            return true;
        }
        i = i + 1;
    }
    false
}

/// Applies one instruction to the state.  Authorization comes first —
/// configuration changes need the mint authority, balance mutations the
/// account owner, administrative mint and burn the mint authority — then the
/// instruction routes to the ledger and the proof-context store.  Either
/// every state change commits, or the state is left exactly as it was, with
/// one error kind surfaced.
#[verifier::rlimit(100)]
pub fn process(state: &mut TokenState, instruction: Instruction, signers: &Vec<u64>) -> (r: Result<
    (),
    ErrorKind,
>)
    requires
        old(state).wf(),
    ensures
        final(state).wf(),
        r is Ok <==> spec_process_outcome(*old(state), instruction, signers@) is Ok,
        r is Err ==> r == spec_process_outcome(*old(state), instruction, signers@),
        final(state).current_slot == old(state).current_slot,
        r is Err ==> final(state).mint == old(state).mint
            && final(state).ledger.accounts@ == old(state).ledger.accounts@
            && final(state).ledger.total_deposited == old(state).ledger.total_deposited
            && final(state).ledger.total_withdrawn == old(state).ledger.total_withdrawn
            && final(state).contexts.contexts@ == old(state).contexts.contexts@,
        r is Ok ==> final(state).ledger == old(state).ledger
            || spec_ledger_step(old(state).ledger, final(state).ledger),
        r is Ok ==> match instruction {
            Instruction::InitializeMint {
                decimals,
                mint_authority,
                auditor_public_key,
                auto_approve_new_accounts,
            } => {
                let c = final(state).mint->0;
                &&& final(state).mint is Some
                &&& c.decimals == decimals
                &&& c.mint_authority == mint_authority
                &&& c.auditor_public_key == auditor_public_key
                &&& c.auto_approve_new_accounts == auto_approve_new_accounts
                &&& final(state).ledger.accounts@ == old(state).ledger.accounts@
                &&& final(state).ledger.total_deposited == old(state).ledger.total_deposited
                &&& final(state).ledger.total_withdrawn == old(state).ledger.total_withdrawn
                &&& final(state).contexts.contexts@ == old(state).contexts.contexts@
            },
            Instruction::ConfigureAccount { owner, public_key, decryptable_zero } => {
                &&& spec_open_effect(
                    old(state).ledger,
                    final(state).ledger,
                    owner,
                    public_key,
                    decryptable_zero,
                    old(state).mint->0.auto_approve_new_accounts,
                )
                &&& final(state).mint == old(state).mint
                &&& final(state).contexts.contexts@ == old(state).contexts.contexts@
            },
            Instruction::Deposit { account, amount, .. } => {
                &&& spec_credit_effect(old(state).ledger, final(state).ledger, account as int, amount)
                &&& final(state).mint == old(state).mint
                &&& final(state).contexts.contexts@ == old(state).contexts.contexts@
            },
            Instruction::ApplyPendingBalance {
                account,
                expected_counter,
                new_decryptable_available_balance,
            } => {
                &&& spec_apply_effect(
                    old(state).ledger,
                    final(state).ledger,
                    account as int,
                    expected_counter,
                    new_decryptable_available_balance,
                )
                &&& final(state).mint == old(state).mint
                &&& final(state).contexts.contexts@ == old(state).contexts.contexts@
            },
            Instruction::Withdraw { account, amount, context_id } => {
                &&& spec_withdraw_effect(old(state).ledger, final(state).ledger, account as int, amount)
                &&& final(state).mint == old(state).mint
                &&& final(state).contexts.contexts@.len() == old(state).contexts.contexts@.len()
                &&& final(state).contexts.contexts@[context_id as int].state
                    == ProofContextState::Consumed
            },
            Instruction::Transfer {
                source,
                destination,
                source_amount,
                destination_amount,
                context_id,
            } => {
                &&& spec_transfer_effect(
                    old(state).ledger,
                    final(state).ledger,
                    source as int,
                    destination as int,
                    source_amount,
                    destination_amount,
                )
                &&& final(state).mint == old(state).mint
                &&& final(state).contexts.contexts@.len() == old(state).contexts.contexts@.len()
                &&& final(state).contexts.contexts@[context_id as int].state
                    == ProofContextState::Consumed
            },
            Instruction::EnableConfidentialCredits { account } => {
                &&& spec_toggle_effect(old(state).ledger, final(state).ledger, account as int, true)
                &&& final(state).mint == old(state).mint
                &&& final(state).contexts.contexts@ == old(state).contexts.contexts@
            },
            Instruction::DisableConfidentialCredits { account } => {
                &&& spec_toggle_effect(old(state).ledger, final(state).ledger, account as int, false)
                &&& final(state).mint == old(state).mint
                &&& final(state).contexts.contexts@ == old(state).contexts.contexts@
            },
            Instruction::MintTo { destination, amount, .. } => {
                &&& spec_credit_effect(
                    old(state).ledger,
                    final(state).ledger,
                    destination as int,
                    amount,
                )
                &&& final(state).mint == old(state).mint
                &&& final(state).contexts.contexts@ == old(state).contexts.contexts@
            },
            Instruction::Burn { account, amount, context_id, .. } => {
                &&& spec_withdraw_effect(old(state).ledger, final(state).ledger, account as int, amount)
                &&& final(state).mint == old(state).mint
                &&& final(state).contexts.contexts@.len() == old(state).contexts.contexts@.len()
                &&& final(state).contexts.contexts@[context_id as int].state
                    == ProofContextState::Consumed
            },
        },
{
    match instruction {
        Instruction::InitializeMint {
            decimals,
            mint_authority,
            auditor_public_key,
            auto_approve_new_accounts,
        } => {
            if state.mint.is_some() {
                return Err(ErrorKind::Unauthorized);
            }
            if !is_signed_by(signers, mint_authority) {
                return Err(ErrorKind::Unauthorized);
            }
            state.mint = Some(
                MintConfig {
                    decimals,
                    mint_authority,
                    auditor_public_key,
                    auto_approve_new_accounts,
                },
            );
            Ok(())
        },
        Instruction::ConfigureAccount { owner, public_key, decryptable_zero } => {
            let auto_approve = match &state.mint {
                Some(config) => config.auto_approve_new_accounts,
                None => {
                    return Err(ErrorKind::MintNotInitialized);
                },
            };
            if !is_signed_by(signers, owner) {
                return Err(ErrorKind::Unauthorized);
            }
            state.ledger.open_account(owner, public_key, decryptable_zero, auto_approve);
            proof {
                assert(spec_open_effect(
                    old(state).ledger,
                    state.ledger,
                    owner,
                    public_key,
                    decryptable_zero,
                    auto_approve,
                ));
            }
            Ok(())
        },
        Instruction::Deposit { account, amount, randomness } => {
            if account >= state.ledger.accounts.len() {
                return Err(ErrorKind::AccountNotFound);
            }
            if !is_signed_by(signers, state.ledger.accounts[account].owner) {
                return Err(ErrorKind::Unauthorized);
            }
            let r = state.ledger.deposit(account, amount, randomness);
            proof {
                if r is Ok {
                    assert(spec_credit_effect(old(state).ledger, state.ledger, account as int, amount));
                }
            }
            r
        },
        Instruction::ApplyPendingBalance {
            account,
            expected_counter,
            new_decryptable_available_balance,
        } => {
            if account >= state.ledger.accounts.len() {
                return Err(ErrorKind::AccountNotFound);
            }
            if !is_signed_by(signers, state.ledger.accounts[account].owner) {
                return Err(ErrorKind::Unauthorized);
            }
            let r = state.ledger.apply_pending_balance(
                account,
                expected_counter,
                new_decryptable_available_balance,
            );
            proof {
                if r is Ok {
                    assert(spec_apply_effect(
                        old(state).ledger,
                        state.ledger,
                        account as int,
                        expected_counter,
                        new_decryptable_available_balance,
                    ));
                }
            }
            r
        },
        Instruction::Withdraw { account, amount, context_id } => {
            if account >= state.ledger.accounts.len() {
                return Err(ErrorKind::AccountNotFound);
            }
            if !is_signed_by(signers, state.ledger.accounts[account].owner) {
                return Err(ErrorKind::Unauthorized);
            }
            let slot = state.current_slot;
            let r = state.ledger.withdraw(&mut state.contexts, account, amount, context_id, slot);
            proof {
                if r is Ok {
                    assert(spec_withdraw_effect(old(state).ledger, state.ledger, account as int, amount));
                }
            }
            r
        },
        Instruction::Transfer { source, destination, source_amount, destination_amount, context_id } => {
            if source >= state.ledger.accounts.len() || destination >= state.ledger.accounts.len() {
                return Err(ErrorKind::AccountNotFound);
            }
            if !is_signed_by(signers, state.ledger.accounts[source].owner) {
                return Err(ErrorKind::Unauthorized);
            }
            let slot = state.current_slot;
            let r = state.ledger.transfer(
                &mut state.contexts,
                source,
                destination,
                source_amount,
                destination_amount,
                context_id,
                slot,
            );
            proof {
                if r is Ok {
                    assert(spec_transfer_effect(
                        old(state).ledger,
                        state.ledger,
                        source as int,
                        destination as int,
                        source_amount,
                        destination_amount,
                    ));
                }
            }
            r
        },
        Instruction::EnableConfidentialCredits { account } => {
            if account >= state.ledger.accounts.len() {
                return Err(ErrorKind::AccountNotFound);
            }
            if !is_signed_by(signers, state.ledger.accounts[account].owner) {
                return Err(ErrorKind::Unauthorized);
            }
            let r = state.ledger.set_allow_confidential_credits(account, true);
            proof {
                if r is Ok {
                    assert(spec_toggle_effect(old(state).ledger, state.ledger, account as int, true));
                }
            }
            r
        },
        Instruction::DisableConfidentialCredits { account } => {
            if account >= state.ledger.accounts.len() {
                return Err(ErrorKind::AccountNotFound);
            }
            if !is_signed_by(signers, state.ledger.accounts[account].owner) {
                return Err(ErrorKind::Unauthorized);
            }
            let r = state.ledger.set_allow_confidential_credits(account, false);
            proof {
                if r is Ok {
                    assert(spec_toggle_effect(old(state).ledger, state.ledger, account as int, false));
                }
            }
            r
        },
        Instruction::MintTo { admin, destination, amount, randomness } => {
            let authority = match &state.mint {
                Some(config) => config.mint_authority,
                None => {
                    return Err(ErrorKind::MintNotInitialized);
                },
            };
            if admin != authority || !is_signed_by(signers, admin) {
                return Err(ErrorKind::Unauthorized);
            }
            let r = state.ledger.deposit(destination, amount, randomness);
            proof {
                if r is Ok {
                    assert(spec_credit_effect(old(state).ledger, state.ledger, destination as int, amount));
                }
            }
            r
        },
        Instruction::Burn { admin, account, amount, context_id } => {
            let authority = match &state.mint {
                Some(config) => config.mint_authority,
                None => {
                    return Err(ErrorKind::MintNotInitialized);
                },
            };
            if admin != authority || !is_signed_by(signers, admin) {
                return Err(ErrorKind::Unauthorized);
            }
            let slot = state.current_slot;
            let r = state.ledger.withdraw(&mut state.contexts, account, amount, context_id, slot);
            proof {
                if r is Ok {
                    assert(spec_withdraw_effect(old(state).ledger, state.ledger, account as int, amount));
                }
            }
            r
        },
    }
}

} // verus!
