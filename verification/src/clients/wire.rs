//! The calls into the ledger's own crates and into `serde_json`. Verus does not
//! read the bodies of the functions marked `external_body` here: what their
//! contracts say is taken on trust, and each doc comment says what that is.

use near_crypto::key_conversion::is_valid_staking_key;
use near_crypto::InMemorySigner;
use near_crypto::KeyType;
use near_crypto::SecretKey;
use near_primitives::borsh::BorshSerialize;
use near_primitives::hash::CryptoHash;
use near_primitives::transaction::Action;
use near_primitives::transaction::FunctionCallAction;
use near_primitives::transaction::Transaction;
use near_primitives::transaction::TransferAction;
use near_primitives::types::AccountId;
use serde_json::Value;
use std::str::FromStr;
use vstd::prelude::*;

verus! {

/// The longest text or byte string, in items, that an instruction may hold in one
/// field: the ledger's encoding writes a field's length in bytes as 32 bits, and a
/// character takes at most four bytes.
pub const MAX_FIELD_LEN: usize = 0x3fff_ffff;

/// A lowercase letter or a digit.
pub open spec fn is_id_symbol(c: char) -> bool {
    ('a' <= c && c <= 'z') || ('0' <= c && c <= '9')
}

/// One of the three separators of an account identifier.
pub open spec fn is_id_separator(c: char) -> bool {
    c == '-' || c == '_' || c == '.'
}

/// The ledger's rule for account identifiers: 2 to 64 characters, each a lowercase
/// letter, a digit or a separator, with no separator first, last, or next to another.
pub open spec fn is_account_id(text: Seq<char>) -> bool {
    &&& 2 <= text.len() <= 64
    &&& forall|i: int|
        0 <= i < text.len() ==> is_id_symbol(#[trigger] text[i]) || is_id_separator(text[i])
    &&& !is_id_separator(text[0])
    &&& !is_id_separator(text[text.len() - 1])
    &&& forall|i: int|
        0 < i < text.len() ==> !(is_id_separator(text[i - 1]) && is_id_separator(
            #[trigger] text[i],
        ))
}

/// Calls `AccountId::validate` of `near-account-id`, which accepts a text exactly
/// where it follows the ledger's rule for account identifiers.
#[verifier::external_body]
pub(crate) fn account_id_is_valid(text: &str) -> (valid: bool)
    ensures
        valid == is_account_id(text@),
{
    AccountId::validate(text).is_ok()
}

/// The signature scheme of a secret key.
#[derive(Clone, Copy, Debug, PartialEq, Eq, Structural)]
pub enum KeyKind {
    /// An Ed25519 key pair.
    Ed25519,
    /// A secp256k1 secret key.
    Secp256k1,
}

/// The scheme of the secret key that `SecretKey::from_str` of `near-crypto` reads from
/// a text, or `None` where it reads none.
pub uninterp spec fn secret_key_kind(text: Seq<char>) -> Option<KeyKind>;

/// Calls `SecretKey::from_str` of `near-crypto` and tells the scheme of the key it
/// read. The result depends on the text alone.
#[verifier::external_body]
pub(crate) fn parse_key_kind(text: &str) -> (kind: Option<KeyKind>)
    ensures
        kind == secret_key_kind(text@),
{
    match SecretKey::from_str(text) {
        Ok(key) => match key.key_type() {
            KeyType::ED25519 => Some(KeyKind::Ed25519),
            KeyType::SECP256K1 => Some(KeyKind::Secp256k1),
        },
        Err(_) => None,
    }
}

/// What `is_valid_staking_key` of `near-crypto` answers for the public key of the
/// secret key read from a text.
pub uninterp spec fn public_point_is_sound(text: Seq<char>) -> bool;

/// Calls `is_valid_staking_key` of `near-crypto` on the public key of the secret key
/// that the text holds. The text must hold a secret key. The result depends on the
/// text alone.
#[verifier::external_body]
pub(crate) fn check_public_point(text: &str) -> (sound: bool)
    requires
        secret_key_kind(text@) is Some,
    ensures
        sound == public_point_is_sound(text@),
{
    is_valid_staking_key(&SecretKey::from_str(text).unwrap().public_key())
}

/// Whether signing with the secret key that a text holds is safe: an Ed25519 key
/// signs only where its public half is a sound curve point, a secp256k1 key always.
pub open spec fn key_can_sign(text: Seq<char>) -> bool {
    match secret_key_kind(text) {
        Some(KeyKind::Ed25519) => public_point_is_sound(text),
        Some(KeyKind::Secp256k1) => true,
        None => false,
    }
}

/// The encoded signed transaction that the ledger's crates make of a transfer of the
/// native asset.
pub uninterp spec fn signed_native_transfer(
    signer_id: Seq<char>,
    secret_key: Seq<char>,
    nonce: u64,
    receiver_id: Seq<char>,
    block_hash: Seq<u8>,
    deposit: u128,
) -> Seq<u8>;

/// Builds a `Transaction` of `near-primitives` with one `Transfer` action, signs it
/// with `Transaction::sign` and encodes the result with Borsh. Both account
/// identifiers must be valid and the key safe to sign with, so that no step on the way
/// fails. The bytes depend on the arguments alone: both signature schemes are
/// deterministic.
#[verifier::external_body]
pub(crate) fn sign_native_transfer(
    signer_id: &str,
    secret_key: &str,
    nonce: u64,
    receiver_id: &str,
    block_hash: &[u8; 32],
    deposit: u128,
) -> (payload: Vec<u8>)
    requires
        is_account_id(signer_id@),
        key_can_sign(secret_key@),
        is_account_id(receiver_id@),
    ensures
        payload@ == signed_native_transfer(
            signer_id@,
            secret_key@,
            nonce,
            receiver_id@,
            block_hash@,
            deposit,
        ),
{
    let key = SecretKey::from_str(secret_key).unwrap();
    let signer = InMemorySigner::from_secret_key(signer_id.parse().unwrap(), key);
    let transaction = Transaction {
        signer_id: signer.account_id.clone(),
        public_key: signer.public_key.clone(),
        nonce,
        receiver_id: receiver_id.parse().unwrap(),
        block_hash: CryptoHash(*block_hash),
        actions: vec![Action::Transfer(TransferAction { deposit })],
    };
    transaction.sign(&signer).try_to_vec().unwrap()
}

/// The encoded signed transaction that the ledger's crates make of one call of a
/// contract's method.
pub uninterp spec fn signed_function_call(
    signer_id: Seq<char>,
    secret_key: Seq<char>,
    nonce: u64,
    receiver_id: Seq<char>,
    block_hash: Seq<u8>,
    method_name: Seq<char>,
    args: Seq<u8>,
    gas: u64,
    deposit: u128,
) -> Seq<u8>;

/// Builds a `Transaction` of `near-primitives` with one `FunctionCall` action, signs
/// it with `Transaction::sign` and encodes the result with Borsh. Both account
/// identifiers must be valid, the key safe to sign with, and the method's name and
/// arguments short enough for the encoding, so that no step on the way fails. The
/// bytes depend on the arguments alone.
#[verifier::external_body]
pub(crate) fn sign_function_call(
    signer_id: &str,
    secret_key: &str,
    nonce: u64,
    receiver_id: &str,
    block_hash: &[u8; 32],
    method_name: &str,
    args: &Vec<u8>,
    gas: u64,
    deposit: u128,
) -> (payload: Vec<u8>)
    requires
        is_account_id(signer_id@),
        key_can_sign(secret_key@),
        is_account_id(receiver_id@),
        method_name@.len() <= MAX_FIELD_LEN,
        args@.len() <= MAX_FIELD_LEN,
    ensures
        payload@ == signed_function_call(
            signer_id@,
            secret_key@,
            nonce,
            receiver_id@,
            block_hash@,
            method_name@,
            args@,
            gas,
            deposit,
        ),
{
    let key = SecretKey::from_str(secret_key).unwrap();
    let signer = InMemorySigner::from_secret_key(signer_id.parse().unwrap(), key);
    let (method_name, args) = (method_name.to_string(), args.clone());
    let call = FunctionCallAction { method_name, args, gas, deposit };
    let transaction = Transaction {
        signer_id: signer.account_id.clone(),
        public_key: signer.public_key.clone(),
        nonce,
        receiver_id: receiver_id.parse().unwrap(),
        block_hash: CryptoHash(*block_hash),
        actions: vec![Action::FunctionCall(call)],
    };
    transaction.sign(&signer).try_to_vec().unwrap()
}

/// The text that `serde_json` writes for an object of two members whose values are
/// strings.
pub uninterp spec fn json_object_of_two(
    first_name: Seq<char>,
    first_value: Seq<char>,
    second_name: Seq<char>,
    second_value: Seq<char>,
) -> Seq<u8>;

/// Makes a `serde_json::Value` that is an object of two members with string values,
/// and writes it out with its `to_string`. The bytes depend on the arguments alone.
#[verifier::external_body]
pub(crate) fn write_json_object_of_two(
    first_name: &str,
    first_value: &str,
    second_name: &str,
    second_value: &str,
) -> (bytes: Vec<u8>)
    ensures
        bytes@ == json_object_of_two(first_name@, first_value@, second_name@, second_value@),
{
    let mut members = serde_json::Map::new();
    members.insert(first_name.to_string(), Value::String(first_value.to_string()));
    members.insert(second_name.to_string(), Value::String(second_value.to_string()));
    Value::Object(members).to_string().into_bytes()
}

} // verus!
