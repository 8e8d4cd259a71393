use vstd::prelude::*;

use crate::dedup::bytes_view;
use crate::derive::{canonical_did_address, derive_did_account, derive_did_account_with_bump, did_address};
use crate::errors::DidSolError;
use crate::flags::{VerificationMethodType, CAPABILITY_INVOCATION};
use crate::seqs::has_key;
use crate::state::{
    authorizes, bytes_eq, first_authority, fragment_view, is_default_method, types_view, type_passes,
    DidAccount, VM_DEFAULT_FRAGMENT_NAME,
};

verus! {

/// An account as the host hands it over: its address and, when the registry owns it,
/// the document stored in it. An account with no document is generative: its document
/// is implied by the key it was derived from.
pub struct DidAccountInfo {
    /// The address of the account.
    pub key: Vec<u8>,
    /// The stored document, or none for a generative account.
    pub document: Option<DidAccount>,
}

/// The address and bump a key derives, with the given bump or else the canonical one.
pub open spec fn generative_address(authority: Seq<u8>, bump: Option<u8>) -> Option<(Seq<u8>, u8)> {
    match bump {
        Some(b) => match did_address(authority, b) {
            Some(a) => Some((a, b)),
            None => None,
        },
        None => canonical_did_address(authority),
    }
}

/// True when the implicit document of `authority` authorizes `key` under the filters:
/// its one method is the default Ed25519 method over `authority`.
pub open spec fn generative_authorizes(
    authority: Seq<u8>,
    key: Seq<u8>,
    types: Option<Seq<VerificationMethodType>>,
    fragment: Option<Seq<char>>,
) -> bool {
    &&& key == authority
    &&& type_passes(0, types)
    &&& match fragment {
        Some(f) => f == VM_DEFAULT_FRAGMENT_NAME@,
        None => true,
    }
}

/// The error resolving a controller account meets: a generative account must sit at
/// the canonical address of its key.
pub open spec fn resolution_error(c: (DidAccountInfo, Vec<u8>)) -> Option<DidSolError> {
    match c.0.document {
        Some(_) => None,
        None => match canonical_did_address(c.1@) {
            None => Some(DidSolError::ConstraintSeeds),
            Some((a, _)) => if a == c.0.key@ {
                None
            } else {
                Some(DidSolError::WrongAuthorityForDid)
            },
        },
    }
}

/// The first error met resolving the controller accounts in order.
pub open spec fn first_resolution_error(s: Seq<(DidAccountInfo, Vec<u8>)>) -> Option<DidSolError>
    decreases s.len(),
{
    if s.len() == 0 {
        None
    } else if resolution_error(s[0]) is Some {
        resolution_error(s[0])
    } else {
        first_resolution_error(s.drop_first())
    }
}

/// The key that identifies a controller account's document.
pub open spec fn info_key(c: (DidAccountInfo, Vec<u8>)) -> Seq<u8> {
    match c.0.document {
        Some(d) => d.initial_verification_method.key_data@,
        None => c.1@,
    }
}

/// The native controllers of a controller account's document.
pub open spec fn info_controllers(c: (DidAccountInfo, Vec<u8>)) -> Seq<Vec<u8>> {
    match c.0.document {
        Some(d) => d.native_controllers@,
        None => Seq::empty(),
    }
}

/// True when a controller account's document authorizes `key` under the filters.
pub open spec fn info_authorizes(
    c: (DidAccountInfo, Vec<u8>),
    key: Seq<u8>,
    types: Option<Seq<VerificationMethodType>>,
    fragment: Option<Seq<char>>,
) -> bool {
    match c.0.document {
        Some(d) => d.has_authority(key, types, fragment),
        None => generative_authorizes(c.1@, key, types, fragment),
    }
}

/// True when `doc` is controlled by the first account, that one by the second, and so on.
pub open spec fn links_ok(doc: DidAccount, s: Seq<(DidAccountInfo, Vec<u8>)>) -> bool {
    forall|i: int|
        0 <= i < s.len() ==> has_key(
            if i == 0 {
                doc.native_controllers@
            } else {
                info_controllers(s[i - 1])
            },
            bytes_view(),
            info_key(#[trigger] s[i]),
        )
}

/// True when the last document of the chain (or `doc` for an empty chain) authorizes `key`.
pub open spec fn chain_authorizes(
    doc: DidAccount,
    s: Seq<(DidAccountInfo, Vec<u8>)>,
    key: Seq<u8>,
    types: Option<Seq<VerificationMethodType>>,
    fragment: Option<Seq<char>>,
) -> bool {
    if s.len() == 0 {
        doc.has_authority(key, types, fragment)
    } else {
        info_authorizes(s.last(), key, types, fragment)
    }
}

/// True when `d` is the document a controller account resolves to.
pub open spec fn resolves_to(d: DidAccount, c: (DidAccountInfo, Vec<u8>)) -> bool {
    match c.0.document {
        Some(x) => d == x,
        None => exists|b: u8| d.is_generative_of(b, c.1@),
    }
}

/// True when the `i`-th document of `chain` controls the one before it (`doc` before the first).
pub open spec fn hop_ok(doc: DidAccount, chain: Seq<DidAccount>, i: int) -> bool {
    (if i == 0 {
        doc
    } else {
        chain[i - 1]
    }).controlled_by(chain[i])
}

/// True when each document of `chain` is controlled by the next one, `doc` by the first.
pub open spec fn chain_valid(doc: DidAccount, chain: Seq<DidAccount>) -> bool {
    forall|i: int| 0 <= i < chain.len() ==> #[trigger] hop_ok(doc, chain, i)
}

/// The implicit document of a key authorizes exactly that key, as its default method.
pub proof fn lemma_generative_authority(
    d: DidAccount,
    bump: u8,
    authority: Seq<u8>,
    key: Seq<u8>,
    types: Option<Seq<VerificationMethodType>>,
    fragment: Option<Seq<char>>,
)
    requires
        d.is_generative_of(bump, authority),
    ensures
        d.has_authority(key, types, fragment) == generative_authorizes(authority, key, types, fragment),
{
    assert(8u16 & 8u16 == 8u16) by (bit_vector);
    lemma_default_authority(d, CAPABILITY_INVOCATION, authority, key, types, fragment);
}

/// A document whose only method is the default method with capability invocation over
/// `authority` authorizes exactly `authority`.
pub proof fn lemma_default_authority(
    d: DidAccount,
    flags: u16,
    authority: Seq<u8>,
    key: Seq<u8>,
    types: Option<Seq<VerificationMethodType>>,
    fragment: Option<Seq<char>>,
)
    requires
        is_default_method(d.initial_verification_method, flags, authority),
        flags & CAPABILITY_INVOCATION == CAPABILITY_INVOCATION,
        d.verification_methods@.len() == 0,
    ensures
        d.has_authority(key, types, fragment) == generative_authorizes(authority, key, types, fragment),
{
    let all = d.all_methods();
    assert(all.len() == 1);
    assert(all[0] == d.initial_verification_method);
    assert(all.drop_first().len() == 0);
    assert(first_authority(all.drop_first(), key, types, fragment) is None);
}

impl DidAccount {
    /// True when `other`'s key is among this document's native controllers.
    pub open spec fn controlled_by(self, other: DidAccount) -> bool {
        has_key(self.native_controllers@, bytes_view(), other.initial_verification_method.key_data@)
    }

    /// True when `other` controls this document: its key is a native controller of this one.
    pub fn is_directly_controlled_by(&self, other: &DidAccount) -> (r: bool)
        ensures
            r == self.controlled_by(*other),
    {
        let own = other.initial_verification_method.key_data.as_slice();
        let mut i: usize = 0;
        while i < self.native_controllers.len()
            invariant
                own@ == other.initial_verification_method.key_data@,
                i <= self.native_controllers@.len(),
                forall|j: int| 0 <= j < i ==> bytes_view()(#[trigger] self.native_controllers@[j]) != own@,
            decreases self.native_controllers@.len() - i,
        {
            if bytes_eq(self.native_controllers[i].as_slice(), own) {
                assert(bytes_view()(self.native_controllers@[i as int]) == own@);
                return true;
            }
            i = i + 1;
        }
        false
    }

    /// True when the chain is valid: this document is controlled by `chain[0]`, that one
    /// by `chain[1]`, and so on. An empty chain is valid.
    pub fn is_controlled_by(&self, chain: &[DidAccount]) -> (r: bool)
        ensures
            r == chain_valid(*self, chain@),
    {
        let mut i: usize = 0;
        while i < chain.len()
            invariant
                i <= chain@.len(),
                forall|j: int| 0 <= j < i ==> #[trigger] hop_ok(*self, chain@, j),
            decreases chain@.len() - i,
        {
            let ok = if i == 0 {
                self.is_directly_controlled_by(&chain[i])
            } else {
                chain[i - 1].is_directly_controlled_by(&chain[i])
            };
            assert(ok == hop_ok(*self, chain@, i as int));
            if !ok {
                return false;
            }
            i = i + 1;
        }
        true
    }

    /// The document of an account: the stored one, or, for a generative account, the
    /// implicit document of `initial_authority`, which must derive the account's address.
    pub fn try_from(did_account: DidAccountInfo, initial_authority: &[u8], did_account_seed_bump: Option<u8>) -> (r: Result<DidAccount, DidSolError>)
        ensures
            match did_account.document {
                Some(d) => r == Ok::<DidAccount, DidSolError>(d),
                None => match generative_address(initial_authority@, did_account_seed_bump) {
                    None => r == Err::<DidAccount, DidSolError>(DidSolError::ConstraintSeeds),
                    Some((a, b)) => if a == did_account.key@ {
                        r matches Ok(d) && d.is_generative_of(b, initial_authority@)
                    } else {
                        r == Err::<DidAccount, DidSolError>(DidSolError::WrongAuthorityForDid)
                    },
                },
            },
    {
        match did_account.document {
            Some(d) => Ok(d),
            None => {
                let (address, bump) = match did_account_seed_bump {
                    Some(b) => match derive_did_account_with_bump(initial_authority, b) {
                        Ok(a) => (a, b),
                        Err(e) => {
                            return Err(e);
                        },
                    },
                    None => match derive_did_account(initial_authority) {
                        Some(found) => found,
                        None => {
                            return Err(DidSolError::ConstraintSeeds);
                        },
                    },
                };
                if !bytes_eq(address.as_slice(), did_account.key.as_slice()) {
                    return Err(DidSolError::WrongAuthorityForDid);
                }
                Ok(DidAccount::new(bump, initial_authority))
            },
        }
    }
}

/// Resolved documents stand for their accounts: the same keys, the same controllers,
/// the same answer on authority.
proof fn lemma_resolved(
    d: DidAccount,
    c: (DidAccountInfo, Vec<u8>),
    key: Seq<u8>,
    types: Option<Seq<VerificationMethodType>>,
    fragment: Option<Seq<char>>,
)
    requires
        resolves_to(d, c),
    ensures
        d.initial_verification_method.key_data@ == info_key(c),
        d.native_controllers@ == info_controllers(c),
        d.has_authority(key, types, fragment) == info_authorizes(c, key, types, fragment),
{
    if c.0.document is None {
        let b = choose|b: u8| d.is_generative_of(b, c.1@);
        lemma_generative_authority(d, b, c.1@, key, types, fragment);
        assert(d.native_controllers@ =~= Seq::<Vec<u8>>::empty());
    }
}

/// True when `key` is an authority of the account `did_account`, directly or through the
/// chain `controlling_did_accounts`: `did_account` is controlled by the first of them,
/// that one by the second, and so on; the key is then looked up on the last one. Each
/// controlling account comes with the key its document was made for, which for a
/// generative account must derive its address. For a generative `did_account` the only
/// authority is the key that derives its address, as its implicit default method: the
/// filters apply to that method as to any other.
#[verifier::loop_isolation(false)]
pub fn is_authority(
    did_account: DidAccountInfo,
    did_account_seed_bump: Option<u8>,
    controlling_did_accounts: Vec<(DidAccountInfo, Vec<u8>)>,
    key: &[u8],
    filter_types: Option<&[VerificationMethodType]>,
    filter_fragment: Option<&String>,
) -> (r: Result<bool, DidSolError>)
    ensures
        ({
            let s = controlling_did_accounts@;
            let types = types_view(filter_types);
            let frag = fragment_view(filter_fragment);
            match did_account.document {
                None => match generative_address(key@, did_account_seed_bump) {
                    None => r == Err::<bool, DidSolError>(DidSolError::ConstraintSeeds),
                    Some((a, _)) => r == Ok::<bool, DidSolError>(
                        a == did_account.key@ && generative_authorizes(key@, key@, types, frag),
                    ),
                },
                Some(doc) => match first_resolution_error(s) {
                    Some(e) => r == Err::<bool, DidSolError>(e),
                    None => if links_ok(doc, s) {
                        r == Ok::<bool, DidSolError>(chain_authorizes(doc, s, key@, types, frag))
                    } else {
                        r == Err::<bool, DidSolError>(DidSolError::InvalidControllerChain)
                    },
                },
            }
        }),
{
    let ghost s = controlling_did_accounts@;
    let ghost types = types_view(filter_types);
    let ghost frag = fragment_view(filter_fragment);
    match did_account.document {
        None => {
            let address = match did_account_seed_bump {
                Some(b) => match derive_did_account_with_bump(key, b) {
                    Ok(a) => a,
                    Err(e) => {
                        return Err(e);
                    },
                },
                None => match derive_did_account(key) {
                    Some((a, _)) => a,
                    None => {
                        return Err(DidSolError::ConstraintSeeds);
                    },
                },
            };
            if !bytes_eq(address.as_slice(), did_account.key.as_slice()) {
                return Ok(false);
            }
            let fragment_ok = match filter_fragment {
                Some(f) => *f == VM_DEFAULT_FRAGMENT_NAME.to_owned(),
                None => true,
            };
            Ok(crate::state::type_allowed(0, filter_types) && fragment_ok)
        },
        Some(doc) => {
            let mut chain: Vec<DidAccount> = Vec::new();
            let total = controlling_did_accounts.len();
            let mut rest = controlling_did_accounts;
            let mut i: usize = 0;
            assert(s.subrange(0, s.len() as int) =~= s);
            while rest.len() > 0
                invariant
                    i <= s.len(),
                    s.len() == total,
                    rest@ == s.subrange(i as int, s.len() as int),
                    rest@.len() == s.len() - i,
                    chain@.len() == i,
                    forall|j: int| 0 <= j < i ==> resolves_to(#[trigger] chain@[j], s[j]),
                    forall|j: int| 0 <= j < i ==> resolution_error(#[trigger] s[j]) is None,
                    first_resolution_error(s) == first_resolution_error(s.subrange(i as int, s.len() as int)),
                decreases rest@.len(),
            {
                assert(i < s.len());
                let ghost tail = s.subrange(i as int, s.len() as int);
                assert(tail.drop_first() =~= s.subrange(i + 1, s.len() as int));
                let (info, authority) = rest.remove(0);
                assert(s[i as int] == (info, authority));
                let d = match DidAccount::try_from(info, authority.as_slice(), None) {
                    Ok(d) => d,
                    Err(e) => {
                        assert(tail[0] == s[i as int]);
                        assert(resolution_error(s[i as int]) == Some(e));
                        return Err(e);
                    },
                };
                assert(tail[0] == s[i as int]);
                assert(resolution_error(s[i as int]) is None);
                chain.push(d);
                i = i + 1;
            }
            assert(i == s.len());
            proof {
                assert forall|j: int| 0 <= j < s.len() implies
                    (#[trigger] hop_ok(doc, chain@, j)) == has_key(
                        if j == 0 { doc.native_controllers@ } else { info_controllers(s[j - 1]) },
                        bytes_view(),
                        info_key(s[j]),
                    ) by {
                    lemma_resolved(chain@[j], s[j], key@, types, frag);
                    if j > 0 {
                        lemma_resolved(chain@[j - 1], s[j - 1], key@, types, frag);
                    }
                }
            }
            if !doc.is_controlled_by(chain.as_slice()) {
                assert(!links_ok(doc, s)) by {
                    let j = choose|j: int| 0 <= j < chain@.len() && !#[trigger] hop_ok(doc, chain@, j);
                    assert(!has_key(
                        if j == 0 { doc.native_controllers@ } else { info_controllers(s[j - 1]) },
                        bytes_view(),
                        info_key(s[j]),
                    ));
                }
                return Err(DidSolError::InvalidControllerChain);
            }
            assert(links_ok(doc, s)) by {
                assert forall|j: int| 0 <= j < s.len() implies has_key(
                    if j == 0 { doc.native_controllers@ } else { info_controllers(s[j - 1]) },
                    bytes_view(),
                    info_key(#[trigger] s[j]),
                ) by {
                    assert(hop_ok(doc, chain@, j));
                }
            }
            let n = chain.len();
            if n > 0 {
                proof {
                    lemma_resolved(chain@[n - 1], s[n - 1], key@, types, frag);
                }
                Ok(chain[n - 1].find_authority(key, filter_types, filter_fragment).is_some())
            } else {
                Ok(doc.find_authority(key, filter_types, filter_fragment).is_some())
            }
        },
    }
}

} // verus!
