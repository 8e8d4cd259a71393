use vstd::prelude::*;
use vstd::utf8::encode_utf8;

verus! {

/// The text that prefixes every Ethereum signed message.
pub const ETH_MESSAGE_PREFIX: &'static str = "\x19Ethereum Signed Message:\n";

/// A recoverable secp256k1 signature: 64 bytes and a recovery id.
#[derive(Clone, Debug)]
pub struct Secp256k1RawSignature {
    /// The signature bytes.
    pub signature: Vec<u8>,
    /// The recovery id.
    pub recovery_id: u8,
}

/// The Keccak-256 digest of `data`.
pub uninterp spec fn keccak256(data: Seq<u8>) -> Seq<u8>;

/// The uncompressed secp256k1 public key (64 bytes, without the tag byte) that signed
/// the 32-byte `hash` with the 64-byte `signature` and `recovery_id`, if there is one.
/// Only applied to a hash of 32 bytes and a signature of 64.
pub uninterp spec fn secp256k1_recovered(hash: Seq<u8>, recovery_id: u8, signature: Seq<u8>) -> Option<Seq<u8>>;

/// Relies on solana_program::keccak::hash: the Keccak-256 digest of the bytes, 32 bytes long.
#[verifier::external_body]
fn keccak_hash(data: &[u8]) -> (r: Vec<u8>)
    ensures
        r@ == keccak256(data@),
        r@.len() == 32,
{
    solana_program::keccak::hash(data).to_bytes().to_vec()
}

/// Relies on solana_program::secp256k1_recover::secp256k1_recover: the 64-byte public key
/// recovered from the hash, recovery id and signature, or none when any is invalid. Its
/// documentation asks the caller to check the lengths beforehand.
#[verifier::external_body]
fn recover_secp256k1(hash: &[u8], recovery_id: u8, signature: &[u8]) -> (r: Option<Vec<u8>>)
    requires
        hash@.len() == 32,
        signature@.len() == 64,
    ensures
        match r {
            Some(k) => secp256k1_recovered(hash@, recovery_id, signature@) == Some(k@) && k@.len() == 64,
            None => secp256k1_recovered(hash@, recovery_id, signature@) is None,
        },
{
    match solana_program::secp256k1_recover::secp256k1_recover(hash, recovery_id, signature) {
        Ok(key) => Some(key.to_bytes().to_vec()),
        Err(_) => None,
    }
}

/// The decimal digits of `n`, as ASCII bytes, most significant first.
pub open spec fn decimal_digits(n: nat) -> Seq<u8>
    decreases n,
{
    if n < 10 {
        seq![(48 + n) as u8]
    } else {
        decimal_digits(n / 10).push((48 + n % 10) as u8)
    }
}

/// The `k` low bytes of `n`, least significant first.
pub open spec fn le_bytes(n: nat, k: nat) -> Seq<u8>
    decreases k,
{
    if k == 0 {
        Seq::empty()
    } else {
        seq![(n % 256) as u8] + le_bytes(n / 256, (k - 1) as nat)
    }
}

/// The message with the nonce appended in little-endian order.
pub open spec fn message_with_nonce(message: Seq<u8>, nonce: u64) -> Seq<u8> {
    message + le_bytes(nonce as nat, 8)
}

/// What an Ethereum wallet signs for `message` under `nonce`: the standard prefix, the
/// decimal length of the message with the nonce, then the message with the nonce.
pub open spec fn eth_signed_input(message: Seq<u8>, nonce: u64) -> Seq<u8> {
    encode_utf8(ETH_MESSAGE_PREFIX@) + decimal_digits(message_with_nonce(message, nonce).len()) + message_with_nonce(
        message,
        nonce,
    )
}

/// The key that signed `message` under `nonce`; none for a signature that is not 64 bytes.
pub open spec fn eth_recovered_key(message: Seq<u8>, nonce: u64, signature: Seq<u8>, recovery_id: u8) -> Option<Seq<u8>> {
    if signature.len() != 64 {
        None
    } else {
        secp256k1_recovered(keccak256(eth_signed_input(message, nonce)), recovery_id, signature)
    }
}

/// The Ethereum address of a secp256k1 public key: the low 20 bytes of its digest.
pub open spec fn eth_address(pubkey: Seq<u8>) -> Seq<u8> {
    keccak256(pubkey).subrange(12, 32)
}

/// The decimal digits of `n`.
pub fn decimal(n: usize) -> (r: Vec<u8>)
    ensures
        r@ == decimal_digits(n as nat),
        r@.len() <= 20,
    decreases n,
{
    if n < 10 {
        let d: u8 = 48 + n as u8;
        vec![d]
    } else {
        let mut r = decimal(n / 10);
        let d: u8 = 48 + (n % 10) as u8;
        proof {
            lemma_decimal_len(n as nat);
        }
        r.push(d);
        r
    }
}

proof fn lemma_decimal_len(n: nat)
    requires
        n <= usize::MAX,
    ensures
        decimal_digits(n).len() <= 20,
        n >= 10 ==> decimal_digits(n / 10).len() <= 19,
{
    reveal_with_fuel(pow10, 21);
    assert(pow10(19) == 10000000000000000000nat);
    assert(pow10(20) == 100000000000000000000nat);
    lemma_decimal_len_bound(n, 20);
    if n >= 10 {
        lemma_decimal_len_bound(n / 10, 19);
    }
}

proof fn lemma_decimal_len_bound(n: nat, k: nat)
    requires
        k >= 1,
        n < pow10(k),
    ensures
        decimal_digits(n).len() <= k,
    decreases n,
{
    if n >= 10 {
        assert(n / 10 < pow10((k - 1) as nat)) by {
            if k == 1 {
                assert(pow10(1) == 10 * pow10(0));
            } else {
                assert(pow10(k) == 10 * pow10((k - 1) as nat));
            }
        }
        if k == 1 {
            assert(pow10(1) == 10 * pow10(0));
        } else {
            lemma_decimal_len_bound(n / 10, (k - 1) as nat);
        }
    }
}

/// Ten to the power `k`.
pub open spec fn pow10(k: nat) -> nat
    decreases k,
{
    if k == 0 {
        1
    } else {
        10 * pow10((k - 1) as nat)
    }
}

/// The eight little-endian bytes of `n`.
pub fn u64_le_bytes(n: u64) -> (r: Vec<u8>)
    ensures
        r@ == le_bytes(n as nat, 8),
{
    let mut r: Vec<u8> = Vec::new();
    let mut m: u64 = n;
    let mut i: usize = 0;
    while i < 8
        invariant
            i <= 8,
            r@ + le_bytes(m as nat, (8 - i) as nat) == le_bytes(n as nat, 8),
        decreases 8 - i,
    {
        let ghost old_r = r@;
        assert(le_bytes(m as nat, (8 - i) as nat) == seq![(m % 256) as u8] + le_bytes((m / 256) as nat, (8 - i - 1) as nat));
        r.push((m % 256) as u8);
        m = m / 256;
        i = i + 1;
        assert(r@ + le_bytes(m as nat, (8 - i) as nat) =~= old_r + (seq![(r@.last())] + le_bytes(m as nat, (8 - i) as nat)));
    }
    assert(r@ + le_bytes(m as nat, 0) =~= r@);
    r
}

/// The bytes a wallet signs for `message` under `nonce`.
pub fn eth_signed_message_input(message: &[u8], nonce: u64) -> (r: Vec<u8>)
    ensures
        r@ == eth_signed_input(message@, nonce),
{
    let mut with_nonce: Vec<u8> = Vec::new();
    let mut i: usize = 0;
    while i < message.len()
        invariant
            i <= message@.len(),
            with_nonce@ == message@.subrange(0, i as int),
        decreases message@.len() - i,
    {
        with_nonce.push(message[i]);
        i = i + 1;
        assert(with_nonce@ =~= message@.subrange(0, i as int));
    }
    assert(with_nonce@ =~= message@);
    let mut nonce_bytes = u64_le_bytes(nonce);
    with_nonce.append(&mut nonce_bytes);
    assert(with_nonce@ == message_with_nonce(message@, nonce));
    let mut r: Vec<u8> = Vec::new();
    let prefix = ETH_MESSAGE_PREFIX.as_bytes();
    let mut j: usize = 0;
    while j < prefix.len()
        invariant
            j <= prefix@.len(),
            prefix@ == encode_utf8(ETH_MESSAGE_PREFIX@),
            r@ == prefix@.subrange(0, j as int),
        decreases prefix@.len() - j,
    {
        r.push(prefix[j]);
        j = j + 1;
        assert(r@ =~= prefix@.subrange(0, j as int));
    }
    assert(r@ =~= prefix@);
    let mut digits = decimal(with_nonce.len());
    r.append(&mut digits);
    r.append(&mut with_nonce);
    assert(r@ =~= eth_signed_input(message@, nonce));
    r
}

/// The secp256k1 key that signed `message` under `nonce`, if the signature is valid;
/// none for a signature that is not 64 bytes.
pub fn eth_verify_message(message: &[u8], nonce: u64, signature: &[u8], recovery_id: u8) -> (r: Option<Vec<u8>>)
    ensures
        signature@.len() != 64 ==> r is None,
        match r {
            Some(k) => eth_recovered_key(message@, nonce, signature@, recovery_id) == Some(k@),
            None => eth_recovered_key(message@, nonce, signature@, recovery_id) is None,
        },
{
    if signature.len() != 64 {
        return None;
    }
    let input = eth_signed_message_input(message, nonce);
    let hash = keccak_hash(input.as_slice());
    recover_secp256k1(hash.as_slice(), recovery_id, signature)
}

/// The Ethereum address of a secp256k1 public key.
pub fn convert_secp256k1pub_key_to_address(pubkey: &[u8]) -> (r: Vec<u8>)
    ensures
        r@ == eth_address(pubkey@),
{
    let hash = keccak_hash(pubkey);
    let mut address: Vec<u8> = Vec::new();
    let mut i: usize = 12;
    while i < 32
        invariant
            12 <= i <= 32,
            hash@.len() == 32,
            hash@ == keccak256(pubkey@),
            address@ == hash@.subrange(12, i as int),
        decreases 32 - i,
    {
        address.push(hash[i]);
        i = i + 1;
        assert(address@ =~= hash@.subrange(12, i as int));
    }
    address
}

} // verus!
