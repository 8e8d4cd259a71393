use vstd::prelude::*;
use vstd::utf8::encode_utf8;

verus! {

/// The namespace seed of every document address.
pub const DID_ACCOUNT_SEED: &'static str = "did-account";
/// The prefix of every DID.
pub const DID_PREFIX: &'static str = "did:";
/// The prefix of the DIDs of this registry.
pub const DID_SOL_PREFIX: &'static str = "did:sol:";

/// True when `s` begins with `p`.
pub open spec fn starts_with(s: Seq<u8>, p: Seq<u8>) -> bool {
    p.len() <= s.len() && s.subrange(0, p.len() as int) == p
}

/// True when the text `did` (as characters) may stand as an other-controller:
/// a DID, but not one of this registry.
pub open spec fn valid_other_controller(did: Seq<char>) -> bool {
    starts_with(encode_utf8(did), encode_utf8(DID_PREFIX@))
        && !starts_with(encode_utf8(did), encode_utf8(DID_SOL_PREFIX@))
}

/// True when the bytes `s` begin with the bytes `p`.
pub fn bytes_start_with(s: &[u8], p: &[u8]) -> (r: bool)
    ensures
        r == starts_with(s@, p@),
{
    if p.len() > s.len() {
        return false;
    }
    let mut i: usize = 0;
    while i < p.len()
        invariant
            p@.len() <= s@.len(),
            i <= p@.len(),
            forall|j: int| 0 <= j < i ==> s@[j] == p@[j],
        decreases p@.len() - i,
    {
        if s[i] != p[i] {
            assert(s@.subrange(0, p@.len() as int)[i as int] != p@[i as int]);
            return false;
        }
        i = i + 1;
    }
    assert(s@.subrange(0, p@.len() as int) =~= p@);
    true
}

/// True when `did` begins with `did:sol:`.
pub fn is_did_sol_prefix(did: &str) -> (r: bool)
    ensures
        r == starts_with(encode_utf8(did@), encode_utf8(DID_SOL_PREFIX@)),
{
    bytes_start_with(did.as_bytes(), DID_SOL_PREFIX.as_bytes())
}

/// True when `did` begins with `did:`.
pub fn is_did_prefix(did: &str) -> (r: bool)
    ensures
        r == starts_with(encode_utf8(did@), encode_utf8(DID_PREFIX@)),
{
    bytes_start_with(did.as_bytes(), DID_PREFIX.as_bytes())
}

/// True when every other-controller is a DID and none is a did:sol DID.
pub fn check_other_controllers(controllers: &[String]) -> (r: bool)
    ensures
        r == forall|i: int| 0 <= i < controllers@.len() ==> valid_other_controller(#[trigger] controllers@[i]@),
{
    let mut i: usize = 0;
    while i < controllers.len()
        invariant
            i <= controllers@.len(),
            forall|j: int| 0 <= j < i ==> valid_other_controller(#[trigger] controllers@[j]@),
        decreases controllers@.len() - i,
    {
        let did = controllers[i].as_str();
        if !(is_did_prefix(did) && !is_did_sol_prefix(did)) {
            assert(!valid_other_controller(controllers@[i as int]@));
            return false;
        }
        i = i + 1;
    }
    true
}

} // verus!
