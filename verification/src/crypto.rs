//! Key material and the additively homomorphic cipher the ledger stores
//! balances under.
//!
//! The protocol is independent of the concrete cryptosystem; this module
//! instantiates the ElGamal construction over the additive group of residues
//! modulo 2^128, which keeps every operation exact and lets the homomorphic
//! and round-trip laws be proved outright.  A ciphertext is a pair of group
//! elements (a decryption handle and a masked commitment); adding two
//! ciphertexts component-wise adds their plaintexts, and decryption under the
//! matching secret key recovers the plaintext exactly.

use vstd::prelude::*;

verus! {

use vstd::arithmetic::div_mod::{
    lemma_small_mod, lemma_mod_add_multiples_vanish, lemma_mod_sub_multiples_vanish,
    lemma_mod_multiples_vanish, lemma_mod_bound, lemma_mod_twice,
    lemma_mul_mod_noop_left, lemma_mul_mod_noop_right, lemma_sub_mod_noop,
    lemma_add_mod_noop,
};
use vstd::arithmetic::mul::{
    lemma_mul_is_associative, lemma_mul_is_commutative, lemma_mul_is_distributive_add,
    lemma_mul_is_distributive_sub,
};

/// Generator of the model group: odd, hence invertible modulo 2^128.
pub const GROUP_GEN: u128 = 0x1_0000_0000_0000_0001;

/// Multiplicative inverse of `GROUP_GEN` modulo 2^128.
pub const GROUP_GEN_INV: u128 = 0xFFFF_FFFF_FFFF_FFFF_0000_0000_0000_0001;

/// Order of the model group; every ciphertext component is a residue below it.
pub open spec fn group_order() -> int {
    0x1_0000_0000_0000_0000_0000_0000_0000_0000int
}

/// Strict upper bound of a token amount: amounts are 64-bit, and range
/// proofs certify that a plaintext lies below this bound.
pub open spec fn amount_bound() -> int {
    0x1_0000_0000_0000_0000int
}

/// Group addition.
pub open spec fn gadd(a: int, b: int) -> int {
    (a + b) % group_order()
}

/// Group subtraction.
pub open spec fn gsub(a: int, b: int) -> int {
    (a - b) % group_order()
}

/// Scalar multiplication in the group.
pub open spec fn gmul(a: int, b: int) -> int {
    (a * b) % group_order()
}

/// A ciphertext: two group elements, a decryption handle and a commitment
/// that masks the plaintext.
#[derive(Clone, Copy, PartialEq, Eq, Structural, Debug)]
pub struct ElGamalCiphertext {
    pub handle: u128,
    pub commitment: u128,
}

/// The public half of an account's ElGamal keypair; ciphertexts destined for
/// the account are formed against it.
#[derive(Clone, Copy, PartialEq, Eq, Structural, Debug)]
pub struct ElGamalPublicKey {
    pub point: u128,
}

/// The secret half of an account's ElGamal keypair; it never reaches the
/// ledger, only its owner decrypts with it.
#[derive(Clone, Copy, Debug)]
pub struct ElGamalSecretKey {
    pub scalar: u128,
}

/// An ElGamal keypair.
#[derive(Clone, Copy, Debug)]
pub struct ElGamalKeypair {
    pub public_key: ElGamalPublicKey,
    pub secret_key: ElGamalSecretKey,
}

/// The owner's symmetric key, used only for the fast local copy of the
/// available balance; on-ledger logic never consults it.
#[derive(Clone, Copy, Debug)]
pub struct AeKey {
    pub secret: u128,
}

/// Public key derived from a secret scalar.
pub open spec fn spec_public_of(secret: int) -> int {
    gmul(secret, GROUP_GEN as int)
}

/// Secret scalar recovered from a public key; well defined because the
/// generator is invertible.
pub open spec fn spec_secret_of(public: int) -> int {
    gmul(public, GROUP_GEN_INV as int)
}

/// Handle component of an encryption made with the given randomness.
pub open spec fn spec_enc_handle(randomness: int) -> int {
    gmul(randomness, GROUP_GEN as int)
}

/// Commitment component of an encryption of `message` under `public`.
pub open spec fn spec_enc_commitment(public: int, message: int, randomness: int) -> int {
    gadd(message, gmul(randomness, public))
}

/// Plaintext recovered by decrypting the pair `(handle, commitment)` with
/// secret scalar `secret`.
pub open spec fn spec_decrypt(secret: int, handle: int, commitment: int) -> int {
    gsub(commitment, gmul(secret, handle))
}

/// Whether `ct` is the encryption of `message` under `public` made with
/// `randomness`.
pub open spec fn spec_is_encryption(
    public: int,
    message: int,
    randomness: int,
    ct: ElGamalCiphertext,
) -> bool {
    &&& ct.handle as int == spec_enc_handle(randomness)
    &&& ct.commitment as int == spec_enc_commitment(public, message, randomness)
}

/// The plaintext a ciphertext holds for the account whose public key is
/// `public`: decryption under the unique matching secret scalar.
#[verifier::opaque]
pub open spec fn plain_of(public: int, ct: ElGamalCiphertext) -> int {
    spec_decrypt(spec_secret_of(public), ct.handle as int, ct.commitment as int)
}

/// Group addition on machine words.
pub fn group_add(a: u128, b: u128) -> (r: u128)
    ensures
        r as int == gadd(a as int, b as int),
{
    proof {
        let m = group_order();
        if a + b <= u128::MAX {
            lemma_small_mod((a + b) as nat, m as nat);
        } else {
            lemma_mod_sub_multiples_vanish(a as int + b as int, m);
            lemma_small_mod((a + b - m) as nat, m as nat);
        }
    }
    a.wrapping_add(b)
}

/// Group subtraction on machine words.
pub fn group_sub(a: u128, b: u128) -> (r: u128)
    ensures
        r as int == gsub(a as int, b as int),
{
    proof {
        let m = group_order();
        if a >= b {
            lemma_small_mod((a - b) as nat, m as nat);
        } else {
            lemma_mod_add_multiples_vanish(a as int - b as int, m);
            lemma_small_mod((a - b + m) as nat, m as nat);
        }
    }
    a.wrapping_sub(b)
}

/// Scalar multiplication on machine words.
pub fn group_mul(a: u128, b: u128) -> (r: u128)
    ensures
        r as int == gmul(a as int, b as int),
{
    proof {
        lemma_mod_bound(a as int * b as int, group_order());
    }
    a.wrapping_mul(b)
}

/// Derives the public key belonging to a secret key; a pure function of the
/// secret scalar.
pub fn derive_public_key(secret_key: &ElGamalSecretKey) -> (public_key: ElGamalPublicKey)
    ensures
        public_key.point as int == spec_public_of(secret_key.scalar as int),
{
    ElGamalPublicKey { point: group_mul(secret_key.scalar, GROUP_GEN) }
}

/// Builds a keypair from a seed scalar; the caller supplies the entropy.
pub fn keypair_from_seed(seed: u128) -> (keypair: ElGamalKeypair)
    ensures
        keypair.secret_key.scalar == seed,
        keypair.public_key.point as int == spec_public_of(seed as int),
{
    let secret_key = ElGamalSecretKey { scalar: seed };
    let public_key = derive_public_key(&secret_key);
    ElGamalKeypair { public_key, secret_key }
}

/// Builds the owner's symmetric key from a seed; the caller supplies the
/// entropy.
pub fn ae_key_from_seed(seed: u128) -> (key: AeKey)
    ensures
        key.secret == seed,
{
    AeKey { secret: seed }
}

/// Encrypts `amount` under `public_key` with the given randomness.
pub fn encrypt(public_key: &ElGamalPublicKey, amount: u64, randomness: u128) -> (ct: ElGamalCiphertext)
    ensures
        spec_is_encryption(public_key.point as int, amount as int, randomness as int, ct),
{
    ElGamalCiphertext {
        handle: group_mul(randomness, GROUP_GEN),
        commitment: group_add(amount as u128, group_mul(randomness, public_key.point)),
    }
}

/// Decrypts a ciphertext with the secret key; exact for every plaintext.
pub fn decrypt(secret_key: &ElGamalSecretKey, ct: &ElGamalCiphertext) -> (message: u128)
    ensures
        message as int == spec_decrypt(secret_key.scalar as int, ct.handle as int, ct.commitment as int),
{
    group_sub(ct.commitment, group_mul(secret_key.scalar, ct.handle))
}

/// The canonical encryption of zero; it decrypts to zero under every key.
pub fn zero_ciphertext() -> (ct: ElGamalCiphertext)
    ensures
        ct.handle == 0,
        ct.commitment == 0,
{
    ElGamalCiphertext { handle: 0, commitment: 0 }
}

/// Homomorphic addition: the sum ciphertext holds the sum of the plaintexts.
pub fn ciphertext_add(a: &ElGamalCiphertext, b: &ElGamalCiphertext) -> (c: ElGamalCiphertext)
    ensures
        c.handle as int == gadd(a.handle as int, b.handle as int),
        c.commitment as int == gadd(a.commitment as int, b.commitment as int),
{
    ElGamalCiphertext {
        handle: group_add(a.handle, b.handle),
        commitment: group_add(a.commitment, b.commitment),
    }
}

/// Homomorphic subtraction: the difference ciphertext holds the difference of
/// the plaintexts.
pub fn ciphertext_sub(a: &ElGamalCiphertext, b: &ElGamalCiphertext) -> (c: ElGamalCiphertext)
    ensures
        c.handle as int == gsub(a.handle as int, b.handle as int),
        c.commitment as int == gsub(a.commitment as int, b.commitment as int),
{
    ElGamalCiphertext {
        handle: group_sub(a.handle, b.handle),
        commitment: group_sub(a.commitment, b.commitment),
    }
}

/// Encrypts an amount under the owner's symmetric key, for the fast local
/// balance copy.
pub fn ae_encrypt(key: &AeKey, amount: u64) -> (c: u128)
    ensures
        c as int == gadd(amount as int, key.secret as int),
{
    group_add(amount as u128, key.secret)
}

/// Decrypts the fast local balance copy.
pub fn ae_decrypt(key: &AeKey, c: u128) -> (message: u128)
    ensures
        message as int == gsub(c as int, key.secret as int),
{
    group_sub(c, key.secret)
}

/// The generator and its recorded inverse do cancel modulo the group order.
proof fn lemma_gen_inverse()
    ensures
        (GROUP_GEN as int * GROUP_GEN_INV as int) % group_order() == 1,
{
    let m = group_order();
    assert(GROUP_GEN as int * GROUP_GEN_INV as int == m * 0x1_0000_0000_0000_0000 + 1);
    lemma_mod_multiples_vanish(0x1_0000_0000_0000_0000, 1, m);
    lemma_small_mod(1nat, m as nat);
}

/// Law: deriving a public key loses nothing — the secret scalar is recovered
/// from it exactly.
pub proof fn lemma_secret_of_public(secret: int)
    requires
        0 <= secret < group_order(),
    ensures
        spec_secret_of(spec_public_of(secret)) == secret,
{
    let m = group_order();
    let g = GROUP_GEN as int;
    let gi = GROUP_GEN_INV as int;
    lemma_mul_mod_noop_left(secret * g, gi, m);
    lemma_mul_is_associative(secret, g, gi);
    lemma_mul_mod_noop_right(secret, g * gi, m);
    lemma_gen_inverse();
    lemma_small_mod(secret as nat, m as nat);
}

/// Law: every group element is a public key — deriving the public key of its
/// recovered secret scalar gives it back.
pub proof fn lemma_public_of_secret(public: int)
    requires
        0 <= public < group_order(),
    ensures
        spec_public_of(spec_secret_of(public)) == public,
{
    let m = group_order();
    let g = GROUP_GEN as int;
    let gi = GROUP_GEN_INV as int;
    lemma_mul_mod_noop_left(public * gi, g, m);
    lemma_mul_is_associative(public, gi, g);
    lemma_mul_is_commutative(gi, g);
    lemma_mul_mod_noop_right(public, g * gi, m);
    lemma_gen_inverse();
    lemma_small_mod(public as nat, m as nat);
}

/// Law: decryption inverts encryption — for any plaintext in the group, any
/// secret key and any randomness, decrypting the encryption made under the
/// matching public key gives the plaintext back.
pub proof fn lemma_decrypt_encrypt(secret: int, message: int, randomness: int)
    requires
        0 <= message < group_order(),
    ensures
        spec_decrypt(
            secret,
            spec_enc_handle(randomness),
            spec_enc_commitment(spec_public_of(secret), message, randomness),
        ) == message,
{
    let m = group_order();
    let g = GROUP_GEN as int;
    let pk = spec_public_of(secret);
    let handle = spec_enc_handle(randomness);
    let mask = gmul(randomness, pk);
    assert(gmul(secret, handle) == mask) by {
        lemma_mul_mod_noop_right(secret, randomness * g, m);
        lemma_mul_mod_noop_right(randomness, secret * g, m);
        lemma_mul_is_associative(secret, randomness, g);
        lemma_mul_is_associative(randomness, secret, g);
        lemma_mul_is_commutative(secret, randomness);
    }
    lemma_mod_bound(message + mask, m);
    lemma_mod_twice(randomness * pk, m);
    lemma_sub_mod_noop(message + mask, mask, m);
    lemma_small_mod(message as nat, m as nat);
}

/// Law: homomorphic addition at the plaintext level — decrypting the
/// component-wise sum of two ciphertexts gives the group sum of their
/// plaintexts, under any secret key.
pub proof fn lemma_decrypt_sum(secret: int, a: ElGamalCiphertext, b: ElGamalCiphertext)
    ensures
        spec_decrypt(
            secret,
            gadd(a.handle as int, b.handle as int),
            gadd(a.commitment as int, b.commitment as int),
        ) == gadd(
            spec_decrypt(secret, a.handle as int, a.commitment as int),
            spec_decrypt(secret, b.handle as int, b.commitment as int),
        ),
{
    let m = group_order();
    let h1 = a.handle as int;
    let c1 = a.commitment as int;
    let h2 = b.handle as int;
    let c2 = b.commitment as int;
    assert(gmul(secret, gadd(h1, h2)) == (secret * h1 + secret * h2) % m) by {
        lemma_mul_mod_noop_right(secret, h1 + h2, m);
        lemma_mul_is_distributive_add(secret, h1, h2);
    }
    assert(gsub(gadd(c1, c2), (secret * h1 + secret * h2) % m)
        == (c1 + c2 - (secret * h1 + secret * h2)) % m) by {
        lemma_mod_bound(c1 + c2, m);
        lemma_mod_twice(secret * h1 + secret * h2, m);
        lemma_sub_mod_noop(c1 + c2, secret * h1 + secret * h2, m);
    }
    assert(spec_decrypt(secret, h1, c1) == (c1 - secret * h1) % m) by {
        lemma_small_mod(a.commitment as nat, m as nat);
        lemma_mod_twice(secret * h1, m);
        lemma_sub_mod_noop(c1, secret * h1, m);
    }
    assert(spec_decrypt(secret, h2, c2) == (c2 - secret * h2) % m) by {
        lemma_small_mod(b.commitment as nat, m as nat);
        lemma_mod_twice(secret * h2, m);
        lemma_sub_mod_noop(c2, secret * h2, m);
    }
    lemma_add_mod_noop(c1 - secret * h1, c2 - secret * h2, m);
}

/// Law: homomorphic subtraction at the plaintext level — decrypting the
/// component-wise difference of two ciphertexts gives the group difference of
/// their plaintexts, under any secret key.
pub proof fn lemma_decrypt_diff(secret: int, a: ElGamalCiphertext, b: ElGamalCiphertext)
    ensures
        spec_decrypt(
            secret,
            gsub(a.handle as int, b.handle as int),
            gsub(a.commitment as int, b.commitment as int),
        ) == gsub(
            spec_decrypt(secret, a.handle as int, a.commitment as int),
            spec_decrypt(secret, b.handle as int, b.commitment as int),
        ),
{
    let m = group_order();
    let h1 = a.handle as int;
    let c1 = a.commitment as int;
    let h2 = b.handle as int;
    let c2 = b.commitment as int;
    assert(gmul(secret, gsub(h1, h2)) == (secret * h1 - secret * h2) % m) by {
        lemma_mul_mod_noop_right(secret, h1 - h2, m);
        lemma_mul_is_distributive_sub(secret, h1, h2);
    }
    assert(gsub(gsub(c1, c2), (secret * h1 - secret * h2) % m)
        == (c1 - c2 - (secret * h1 - secret * h2)) % m) by {
        lemma_mod_bound(c1 - c2, m);
        lemma_mod_twice(secret * h1 - secret * h2, m);
        lemma_sub_mod_noop(c1 - c2, secret * h1 - secret * h2, m);
    }
    assert(spec_decrypt(secret, h1, c1) == (c1 - secret * h1) % m) by {
        lemma_small_mod(a.commitment as nat, m as nat);
        lemma_mod_twice(secret * h1, m);
        lemma_sub_mod_noop(c1, secret * h1, m);
    }
    assert(spec_decrypt(secret, h2, c2) == (c2 - secret * h2) % m) by {
        lemma_small_mod(b.commitment as nat, m as nat);
        lemma_mod_twice(secret * h2, m);
        lemma_sub_mod_noop(c2, secret * h2, m);
    }
    lemma_sub_mod_noop(c1 - secret * h1, c2 - secret * h2, m);
}

/// Every group operation yields a residue: nonnegative and below the group
/// order.
pub proof fn lemma_residue_bounds(a: int, b: int)
    ensures
        0 <= gadd(a, b) < group_order(),
        0 <= gsub(a, b) < group_order(),
        0 <= gmul(a, b) < group_order(),
{
    lemma_mod_bound(a + b, group_order());
    lemma_mod_bound(a - b, group_order());
    lemma_mod_bound(a * b, group_order());
}

/// The plaintext a ciphertext holds is a group residue.
pub proof fn lemma_plain_bound(public: int, ct: ElGamalCiphertext)
    ensures
        0 <= plain_of(public, ct) < group_order(),
{
    reveal(plain_of);
    lemma_mod_bound(
        ct.commitment as int - gmul(spec_secret_of(public), ct.handle as int),
        group_order(),
    );
}

/// The zero ciphertext decrypts to zero for every account.
pub proof fn lemma_plain_of_zero(public: int, ct: ElGamalCiphertext)
    requires
        ct.handle == 0,
        ct.commitment == 0,
    ensures
        plain_of(public, ct) == 0,
{
    reveal(plain_of);
    let m = group_order();
    let s = spec_secret_of(public);
    assert(s * 0 == 0);
    lemma_small_mod(0nat, m as nat);
}

/// A fresh encryption of `message` under `public` decrypts, for that
/// account, to `message`.
pub proof fn lemma_plain_of_encryption(public: int, message: int, randomness: int, ct: ElGamalCiphertext)
    requires
        0 <= public < group_order(),
        0 <= message < group_order(),
        spec_is_encryption(public, message, randomness, ct),
    ensures
        plain_of(public, ct) == message,
{
    reveal(plain_of);
    lemma_public_of_secret(public);
    lemma_decrypt_encrypt(spec_secret_of(public), message, randomness);
}

/// The component-wise sum of two ciphertexts holds, for any account, the
/// group sum of what the two held.
pub proof fn lemma_plain_of_sum(public: int, a: ElGamalCiphertext, b: ElGamalCiphertext, c: ElGamalCiphertext)
    requires
        c.handle as int == gadd(a.handle as int, b.handle as int),
        c.commitment as int == gadd(a.commitment as int, b.commitment as int),
    ensures
        plain_of(public, c) == gadd(plain_of(public, a), plain_of(public, b)),
{
    reveal(plain_of);
    lemma_decrypt_sum(spec_secret_of(public), a, b);
}

/// The component-wise difference of two ciphertexts holds, for any account,
/// the group difference of what the two held.
pub proof fn lemma_plain_of_diff(public: int, a: ElGamalCiphertext, b: ElGamalCiphertext, c: ElGamalCiphertext)
    requires
        c.handle as int == gsub(a.handle as int, b.handle as int),
        c.commitment as int == gsub(a.commitment as int, b.commitment as int),
    ensures
        plain_of(public, c) == gsub(plain_of(public, a), plain_of(public, b)),
{
    reveal(plain_of);
    lemma_decrypt_diff(spec_secret_of(public), a, b);
}

/// Law: the symmetric balance cache round-trips — decrypting an encryption
/// under the same key gives the amount back.
pub proof fn lemma_ae_roundtrip(key: int, message: int)
    requires
        0 <= key < group_order(),
        0 <= message < group_order(),
    ensures
        gsub(gadd(message, key), key) == message,
{
    let m = group_order();
    lemma_mod_bound(message + key, m);
    lemma_mod_twice(key, m);
    lemma_small_mod(key as nat, m as nat);
    lemma_sub_mod_noop(message + key, key, m);
    lemma_small_mod(message as nat, m as nat);
}

} // verus!
