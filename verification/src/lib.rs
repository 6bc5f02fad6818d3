//! Confidential-transfer core: an encrypted-balance ledger whose deposits,
//! withdrawals and transfers are authorized by zero-knowledge-style proofs
//! checked against the ciphertexts they bind, so that no operation can create
//! value or drive a balance negative.

pub mod crypto;
pub mod errors;
pub mod ledger;
pub mod processor;
pub mod zkp;
