use vstd::prelude::*;

use crate::authority::{
    chain_authorizes, first_resolution_error, resolution_error, info_controllers, info_key, lemma_default_authority,
    links_ok, DidAccountInfo,
};
use crate::dedup::bytes_view;
use crate::eth::{eth_recovered_key, eth_signed_input, le_bytes, message_with_nonce, Secp256k1RawSignature};
use crate::flags::{guarded, VerificationMethodType, CAPABILITY_INVOCATION, OWNERSHIP_PROOF, PROTECTED};
use crate::instructions::is_initialized_of;
use crate::seqs::has_key;
use crate::state::{
    authority_for, authorizes, incoming_error, lemma_first_authority, only, DidAccount,
    VerificationMethod,
};

verus! {

/// No method with a guarded flag (ownership proof or protected) passes the checks on
/// incoming methods: adding or bulk-updating never introduces one.
pub proof fn lemma_incoming_never_guarded(s: Seq<VerificationMethod>)
    ensures
        incoming_error(s) is None ==> forall|i: int| 0 <= i < s.len() ==> !guarded(#[trigger] s[i].flags),
    decreases s.len(),
{
    if s.len() > 0 {
        lemma_incoming_never_guarded(s.drop_first());
        if incoming_error(s) is None {
            assert forall|i: int| 0 <= i < s.len() implies !guarded(#[trigger] s[i].flags) by {
                if i > 0 {
                    assert(s[i] == s.drop_first()[i - 1]);
                }
            }
        }
    }
}

/// The implicit document of a key and the document `initialize` creates for it
/// authorize exactly the same keys.
pub proof fn lemma_generative_equals_initialized(
    generative: DidAccount,
    initialized: DidAccount,
    generative_bump: u8,
    initialized_bump: u8,
    authority: Seq<u8>,
    key: Seq<u8>,
    types: Option<Seq<VerificationMethodType>>,
)
    requires
        generative.is_generative_of(generative_bump, authority),
        is_initialized_of(initialized, initialized_bump, authority),
    ensures
        generative.has_authority(key, types, None) == initialized.has_authority(key, types, None),
{
    assert(8u16 & 8u16 == 8u16) by (bit_vector);
    assert(((8u16 | 64u16) | 128u16) & 8u16 == 8u16) by (bit_vector);
    lemma_default_authority(generative, CAPABILITY_INVOCATION, authority, key, types, None);
    lemma_default_authority(
        initialized,
        (CAPABILITY_INVOCATION | OWNERSHIP_PROOF | PROTECTED) as u16,
        authority,
        key,
        types,
        None,
    );
}

/// Authority passes down a chain of stored documents A controlled by B controlled by C:
/// C's key is an authority on A through `[B, C]`; the chain `[C, B]` is refused unless A
/// is directly controlled by C; and with no chain, A's own authority stands.
pub proof fn lemma_controller_chain(
    a: DidAccount,
    b: (DidAccountInfo, Vec<u8>),
    c: (DidAccountInfo, Vec<u8>),
    key: Seq<u8>,
    own_key: Seq<u8>,
    types: Option<Seq<VerificationMethodType>>,
)
    requires
        b.0.document is Some,
        c.0.document is Some,
        a.controlled_by(b.0.document.unwrap()),
        b.0.document.unwrap().controlled_by(c.0.document.unwrap()),
        c.0.document.unwrap().has_authority(key, types, None),
        a.has_authority(own_key, types, None),
        !a.controlled_by(c.0.document.unwrap()),
    ensures
        first_resolution_error(seq![b, c]) is None,
        links_ok(a, seq![b, c]),
        chain_authorizes(a, seq![b, c], key, types, None),
        first_resolution_error(seq![c, b]) is None,
        !links_ok(a, seq![c, b]),
        first_resolution_error(Seq::<(DidAccountInfo, Vec<u8>)>::empty()) is None,
        links_ok(a, Seq::empty()),
        chain_authorizes(a, Seq::empty(), own_key, types, None),
{
    let s = seq![b, c];
    assert(resolution_error(b) is None);
    assert(resolution_error(c) is None);
    let e = Seq::<(DidAccountInfo, Vec<u8>)>::empty();
    assert(first_resolution_error(e) is None);
    assert(seq![c].drop_first() =~= e);
    assert(seq![c][0] == c);
    assert(first_resolution_error(seq![c]) is None);
    assert(seq![b].drop_first() =~= e);
    assert(seq![b][0] == b);
    assert(first_resolution_error(seq![b]) is None);
    assert(s.drop_first() =~= seq![c]);
    assert(seq![c].drop_first() =~= Seq::<(DidAccountInfo, Vec<u8>)>::empty());
    let t = seq![c, b];
    assert(t.drop_first() =~= seq![b]);
    assert(seq![b].drop_first() =~= Seq::<(DidAccountInfo, Vec<u8>)>::empty());
    assert(info_key(s[0]) == b.0.document.unwrap().initial_verification_method.key_data@);
    assert(info_key(s[1]) == c.0.document.unwrap().initial_verification_method.key_data@);
    assert(info_controllers(s[0]) == b.0.document.unwrap().native_controllers@);
    assert(!has_key(a.native_controllers@, bytes_view(), info_key(t[0])));
}

/// The bytes a wallet signs differ for different nonces: a signature over one nonce
/// is over a different message than any signature over another.
pub proof fn lemma_nonce_binds_signed_input(message: Seq<u8>, n1: u64, n2: u64)
    requires
        n1 != n2,
    ensures
        eth_signed_input(message, n1) != eth_signed_input(message, n2),
{
    let i1 = eth_signed_input(message, n1);
    let i2 = eth_signed_input(message, n2);
    lemma_le_bytes_len(n1 as nat, 8);
    lemma_le_bytes_len(n2 as nat, 8);
    lemma_u64_bound(n1);
    lemma_u64_bound(n2);
    if i1 == i2 {
        let len = i1.len() as int;
        assert(message_with_nonce(message, n1).len() == message_with_nonce(message, n2).len());
        assert(i1.subrange(len - 8, len) =~= le_bytes(n1 as nat, 8));
        assert(i2.subrange(len - 8, len) =~= le_bytes(n2 as nat, 8));
        lemma_le_bytes_injective(n1 as nat, n2 as nat, 8);
    }
}

proof fn lemma_le_bytes_len(n: nat, k: nat)
    ensures
        le_bytes(n, k).len() == k,
    decreases k,
{
    if k > 0 {
        lemma_le_bytes_len(n / 256, (k - 1) as nat);
    }
}

/// The power of 256 that bounds `k` bytes.
pub open spec fn pow256(k: nat) -> nat
    decreases k,
{
    if k == 0 {
        1
    } else {
        256 * pow256((k - 1) as nat)
    }
}

proof fn lemma_le_bytes_injective(a: nat, b: nat, k: nat)
    requires
        a < pow256(k),
        b < pow256(k),
        le_bytes(a, k) == le_bytes(b, k),
    ensures
        a == b,
    decreases k,
{
    if k == 0 {
    } else {
        assert(le_bytes(a, k)[0] == (a % 256) as u8);
        assert(le_bytes(b, k)[0] == (b % 256) as u8);
        assert(a % 256 == b % 256);
        assert(le_bytes(a, k).drop_first() =~= le_bytes(a / 256, (k - 1) as nat));
        assert(le_bytes(b, k).drop_first() =~= le_bytes(b / 256, (k - 1) as nat));
        assert(a / 256 < pow256((k - 1) as nat)) by (nonlinear_arith)
            requires
                a < pow256(k),
                pow256(k) == 256 * pow256((k - 1) as nat),
        {
        }
        assert(b / 256 < pow256((k - 1) as nat)) by (nonlinear_arith)
            requires
                b < pow256(k),
                pow256(k) == 256 * pow256((k - 1) as nat),
        {
        }
        lemma_le_bytes_injective(a / 256, b / 256, (k - 1) as nat);
        assert(a == 256 * (a / 256) + a % 256) by (nonlinear_arith);
        assert(b == 256 * (b / 256) + b % 256) by (nonlinear_arith);
    }
}

proof fn lemma_u64_bound(n: u64)
    ensures
        (n as nat) < pow256(8),
{
    reveal_with_fuel(pow256, 9);
    assert(pow256(8) == 18446744073709551616nat);
}

/// A signature made over the document's current nonce by a key that the document
/// holds as a full secp256k1 method with capability invocation authorizes the message.
pub proof fn lemma_fresh_signature_authorizes(
    doc: DidAccount,
    sol: Seq<u8>,
    message: Seq<u8>,
    sig: Secp256k1RawSignature,
    key: Seq<u8>,
    i: int,
)
    requires
        eth_recovered_key(message, doc.nonce, sig.signature@, sig.recovery_id) == Some(key),
        0 <= i < doc.all_methods().len(),
        authorizes(doc.all_methods()[i], key, only(VerificationMethodType::EcdsaSecp256k1VerificationKey2019), None),
    ensures
        authority_for(doc.all_methods(), doc.nonce, sol, message, Some(sig), None) is Some,
{
    let all = doc.all_methods();
    let full = only(VerificationMethodType::EcdsaSecp256k1VerificationKey2019);
    lemma_first_authority(all, key, full, None);
    lemma_first_authority(all, sol, only(VerificationMethodType::Ed25519VerificationKey2018), None);
}

} // verus!
