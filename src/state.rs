use vstd::prelude::*;

use crate::dedup::{bytes_view, string_view, unique_keys, unique_methods, unique_services, unique_strings};
use crate::errors::DidSolError;
use vstd::utf8::encode_utf8;
use crate::eth::{
    convert_secp256k1pub_key_to_address, eth_address, eth_recovered_key, eth_verify_message,
    Secp256k1RawSignature,
};
use crate::flags::{
    guarded, has_flag, is_authority_type, known_bits, known_type, type_code, VerificationMethodType,
    ALL_FLAGS, CAPABILITY_INVOCATION, OWNERSHIP_PROOF, PROTECTED,
};
use crate::seqs::{first_by, has_key, keys_unique, lemma_first_by};
use crate::utils::{check_other_controllers, valid_other_controller};

verus! {

/// The fragment of the verification method that every document starts with.
pub const VM_DEFAULT_FRAGMENT_NAME: &'static str = "default";

/// A named, flagged key of a document.
#[derive(Clone, Debug)]
pub struct VerificationMethod {
    /// The name of the method, unique within its document.
    pub fragment: String,
    /// The flags (see the flags module) the method carries.
    pub flags: u16,
    /// The storage code of the key type.
    pub method_type: u8,
    /// The key: 32 bytes for an Ed25519 key, 64 for a secp256k1 key, 20 for an Ethereum address.
    pub key_data: Vec<u8>,
}

/// A service entry of a document.
#[derive(Clone, Debug)]
pub struct Service {
    /// The name of the service, unique within its document.
    pub fragment: String,
    /// The kind of service.
    pub service_type: String,
    /// Where the service is reached.
    pub service_endpoint: String,
}

impl Service {
    /// The serialized size of this service.
    pub fn size(&self) -> (r: usize)
        requires
            service_size(*self) <= usize::MAX,
        ensures
            r == service_size(*self),
    {
        4 + self.fragment.as_str().len() + 4 + self.service_type.as_str().len() + 4 + self.service_endpoint.as_str().len()
    }
}

/// A DID document: its keys, services and controllers.
#[derive(Clone, Debug)]
pub struct DidAccount {
    /// Version of the layout.
    pub version: u8,
    /// Bump of the canonical address derivation.
    pub bump: u8,
    /// Counter that binds each secp256k1 signature to one use.
    pub nonce: u64,
    /// The method of the key the document was made for; never removed.
    pub initial_verification_method: VerificationMethod,
    /// The further methods, in storage order.
    pub verification_methods: Vec<VerificationMethod>,
    /// The services, in storage order.
    pub services: Vec<Service>,
    /// Keys of the native documents that control this one.
    pub native_controllers: Vec<Vec<u8>>,
    /// Other DIDs that control this one.
    pub other_controllers: Vec<String>,
}

/// The key by which methods are told apart.
pub open spec fn vm_fragment() -> spec_fn(VerificationMethod) -> Seq<char> {
    |vm: VerificationMethod| vm.fragment@
}

/// The key by which services are told apart.
pub open spec fn service_fragment() -> spec_fn(Service) -> Seq<char> {
    |s: Service| s.fragment@
}

/// The view of an optional type filter.
pub open spec fn types_view(t: Option<&[VerificationMethodType]>) -> Option<Seq<VerificationMethodType>> {
    match t {
        Some(ts) => Some(ts@),
        None => None,
    }
}

/// The view of an optional fragment filter.
pub open spec fn fragment_view(f: Option<&String>) -> Option<Seq<char>> {
    match f {
        Some(s) => Some(s@),
        None => None,
    }
}

/// The method a lookup returned, as a value.
pub open spec fn found(r: Option<&VerificationMethod>) -> Option<VerificationMethod> {
    match r {
        Some(vm) => Some(*vm),
        None => None,
    }
}

/// True when `code` passes the type filter.
pub open spec fn type_passes(code: u8, types: Option<Seq<VerificationMethodType>>) -> bool {
    types.is_none() || exists|i: int|
        0 <= i < types.unwrap().len() && type_code(#[trigger] types.unwrap()[i]) == code
}

/// True when `vm` is an authority for `key` under the filters: same key bytes,
/// capability invocation set, type and fragment as the filters ask.
pub open spec fn authorizes(
    vm: VerificationMethod,
    key: Seq<u8>,
    types: Option<Seq<VerificationMethodType>>,
    fragment: Option<Seq<char>>,
) -> bool {
    &&& vm.key_data@ == key
    &&& has_flag(vm.flags, CAPABILITY_INVOCATION)
    &&& type_passes(vm.method_type, types)
    &&& match fragment {
        Some(f) => vm.fragment@ == f,
        None => true,
    }
}

/// The first method of `s` that is an authority for `key` under the filters.
pub open spec fn first_authority(
    s: Seq<VerificationMethod>,
    key: Seq<u8>,
    types: Option<Seq<VerificationMethodType>>,
    fragment: Option<Seq<char>>,
) -> Option<VerificationMethod>
    decreases s.len(),
{
    if s.len() == 0 {
        None
    } else if authorizes(s[0], key, types, fragment) {
        Some(s[0])
    } else {
        first_authority(s.drop_first(), key, types, fragment)
    }
}

/// True when `vm` keeps the document reachable: an authority type with capability invocation.
pub open spec fn is_authority_method(vm: VerificationMethod) -> bool {
    is_authority_type(vm.method_type) && has_flag(vm.flags, CAPABILITY_INVOCATION)
}

/// True when `vm` carries the protected flag and passes the fragment filter.
pub open spec fn is_protected_method(vm: VerificationMethod, fragment: Option<Seq<char>>) -> bool {
    &&& has_flag(vm.flags, PROTECTED)
    &&& match fragment {
        Some(f) => vm.fragment@ == f,
        None => true,
    }
}

/// `vm` with its flags replaced.
pub open spec fn with_flags(vm: VerificationMethod, flags: u16) -> VerificationMethod {
    VerificationMethod { flags, ..vm }
}

/// True when `i` is the first position of `s` whose method has fragment `f`.
pub open spec fn first_fragment(s: Seq<VerificationMethod>, f: Seq<char>, i: int) -> bool {
    &&& 0 <= i < s.len()
    &&& s[i].fragment@ == f
    &&& forall|j: int| 0 <= j < i ==> (#[trigger] s[j]).fragment@ != f
}

/// True when some method of `s` has fragment `f`.
pub open spec fn has_fragment(s: Seq<VerificationMethod>, f: Seq<char>) -> bool {
    exists|i: int| 0 <= i < s.len() && (#[trigger] s[i]).fragment@ == f
}

/// True when some method of `s`, the one at `i` taking the flags `flags`, keeps the
/// document reachable.
pub open spec fn authority_with_flags(s: Seq<VerificationMethod>, i: int, flags: u16) -> bool {
    exists|j: int| 0 <= j < s.len() && is_authority_method(#[trigger] s.update(i, with_flags(s[i], flags))[j])
}

/// A copy of the bytes of `b`.
pub fn copy_bytes(b: &[u8]) -> (r: Vec<u8>)
    ensures
        r@ == b@,
{
    let mut r: Vec<u8> = Vec::new();
    let mut i: usize = 0;
    while i < b.len()
        invariant
            i <= b@.len(),
            r@ == b@.subrange(0, i as int),
        decreases b@.len() - i,
    {
        r.push(b[i]);
        i = i + 1;
        assert(r@ =~= b@.subrange(0, i as int));
    }
    assert(r@ =~= b@);
    r
}

/// The error a list of incoming methods is rejected with: the first method with an
/// unknown flag or key type gives `ConversionError`, the first with a guarded flag
/// `VmGuardedFlagOnAdd`.
pub open spec fn incoming_error(s: Seq<VerificationMethod>) -> Option<DidSolError>
    decreases s.len(),
{
    if s.len() == 0 {
        None
    } else if !known_bits(s[0].flags) || !known_type(s[0].method_type) {
        Some(DidSolError::ConversionError)
    } else if guarded(s[0].flags) {
        Some(DidSolError::VmGuardedFlagOnAdd)
    } else {
        incoming_error(s.drop_first())
    }
}

/// Checks each incoming method, in order, for unknown flags or key type and for guarded flags.
pub fn check_incoming(methods: &Vec<VerificationMethod>) -> (r: Result<(), DidSolError>)
    ensures
        r == match incoming_error(methods@) {
            Some(e) => Err(e),
            None => Ok::<(), DidSolError>(()),
        },
{
    let mut i: usize = 0;
    assert(methods@.subrange(0, methods@.len() as int) =~= methods@);
    while i < methods.len()
        invariant
            i <= methods@.len(),
            incoming_error(methods@) == incoming_error(methods@.subrange(i as int, methods@.len() as int)),
        decreases methods@.len() - i,
    {
        let ghost rest = methods@.subrange(i as int, methods@.len() as int);
        assert(rest.drop_first() =~= methods@.subrange(i + 1, methods@.len() as int));
        let vm = &methods[i];
        if vm.flags & !ALL_FLAGS != 0 || vm.method_type >= 3 {
            return Err(DidSolError::ConversionError);
        }
        if vm.flags & (OWNERSHIP_PROOF | PROTECTED) != 0 {
            return Err(DidSolError::VmGuardedFlagOnAdd);
        }
        i = i + 1;
    }
    Ok(())
}

/// True when no controller key of `s` equals `own`.
pub open spec fn excludes_key(s: Seq<Vec<u8>>, own: Seq<u8>) -> bool {
    !has_key(s, bytes_view(), own)
}

/// True when `vm` is the default method with `flags` over the native key `key`.
pub open spec fn is_default_method(vm: VerificationMethod, flags: u16, key: Seq<u8>) -> bool {
    &&& vm.fragment@ == VM_DEFAULT_FRAGMENT_NAME@
    &&& vm.flags == flags
    &&& vm.method_type == 0
    &&& vm.key_data@ == key
}

impl VerificationMethod {
    /// The default method: fragment `default`, a native Ed25519 key.
    pub fn default(flags: u16, key_data: Vec<u8>) -> (r: VerificationMethod)
        ensures
            is_default_method(r, flags, key_data@),
    {
        VerificationMethod {
            fragment: VM_DEFAULT_FRAGMENT_NAME.to_owned(),
            flags,
            method_type: VerificationMethodType::default_type().to_u8(),
            key_data,
        }
    }

    /// The serialized size of this method.
    pub fn size(&self) -> (r: usize)
        requires
            vm_size(*self) <= usize::MAX,
        ensures
            r == vm_size(*self),
    {
        4 + self.fragment.as_str().len() + 2 + 1 + 4 + self.key_data.len()
    }

    /// The serialized size of the default method over a native key.
    pub fn default_size() -> (r: usize)
        ensures
            r == 50,
    {
        4 + 7 + 2 + 1 + 4 + 32
    }
}

/// The view of an optional signature.
pub open spec fn signature_view(s: Option<&Secp256k1RawSignature>) -> Option<Secp256k1RawSignature> {
    match s {
        Some(sig) => Some(*sig),
        None => None,
    }
}

/// The filter that admits the key type `t` alone.
pub open spec fn only(t: VerificationMethodType) -> Option<Seq<VerificationMethodType>> {
    Some(seq![t])
}

/// The method that authorizes a request: first a native key `sol` among the Ed25519
/// methods; else, with a signature, the key recovered from it over `message` and
/// `nonce` among the full secp256k1 keys, then its Ethereum address among the
/// recovery methods.
pub open spec fn authority_for(
    all: Seq<VerificationMethod>,
    nonce: u64,
    sol: Seq<u8>,
    message: Seq<u8>,
    sig: Option<Secp256k1RawSignature>,
    fragment: Option<Seq<char>>,
) -> Option<VerificationMethod> {
    let native = first_authority(all, sol, only(VerificationMethodType::Ed25519VerificationKey2018), fragment);
    if native is Some {
        native
    } else {
        match sig {
            None => None,
            Some(s) => match eth_recovered_key(message, nonce, s.signature@, s.recovery_id) {
                None => None,
                Some(k) => {
                    let full = first_authority(all, k, only(VerificationMethodType::EcdsaSecp256k1VerificationKey2019), fragment);
                    if full is Some {
                        full
                    } else {
                        first_authority(all, eth_address(k), only(VerificationMethodType::EcdsaSecp256k1RecoveryMethod2020), fragment)
                    }
                },
            },
        }
    }
}

/// The sum of `f` over the elements of `s`.
pub open spec fn sum_of<T>(s: Seq<T>, f: spec_fn(T) -> nat) -> nat
    decreases s.len(),
{
    if s.len() == 0 {
        0
    } else {
        sum_of(s.drop_last(), f) + f(s.last())
    }
}

/// A partial sum never exceeds the whole.
pub proof fn lemma_sum_prefix<T>(s: Seq<T>, f: spec_fn(T) -> nat, i: int)
    requires
        0 <= i <= s.len(),
    ensures
        sum_of(s.subrange(0, i), f) <= sum_of(s, f),
    decreases s.len() - i,
{
    if i < s.len() {
        lemma_sum_prefix(s, f, i + 1);
        assert(s.subrange(0, i + 1).drop_last() =~= s.subrange(0, i));
    } else {
        assert(s.subrange(0, i) =~= s);
    }
}

/// The serialized size of a method.
pub open spec fn vm_size(vm: VerificationMethod) -> nat {
    4 + encode_utf8(vm.fragment@).len() + 2 + 1 + 4 + vm.key_data@.len()
}

/// The serialized size of a service.
pub open spec fn service_size(s: Service) -> nat {
    4 + encode_utf8(s.fragment@).len() + 4 + encode_utf8(s.service_type@).len() + 4 + encode_utf8(
        s.service_endpoint@,
    ).len()
}

/// The serialized size of an other-controller.
pub open spec fn controller_size(s: String) -> nat {
    4 + encode_utf8(s@).len()
}

/// The serialized size of a document whose initial method is the default one over a
/// native key.
pub open spec fn account_size(d: DidAccount) -> nat {
    1 + 1 + 8 + 50 + 4 + sum_of(d.verification_methods@, |vm: VerificationMethod| vm_size(vm)) + 4 + sum_of(
        d.services@,
        |s: Service| service_size(s),
    ) + 4 + d.native_controllers@.len() * 32 + 4 + sum_of(d.other_controllers@, |s: String| controller_size(s))
}

/// The first authority is the earliest match; there is none only when nothing matches.
pub proof fn lemma_first_authority(
    s: Seq<VerificationMethod>,
    key: Seq<u8>,
    types: Option<Seq<VerificationMethodType>>,
    fragment: Option<Seq<char>>,
)
    ensures
        first_authority(s, key, types, fragment).is_none() <==> (forall|i: int|
            0 <= i < s.len() ==> !authorizes(#[trigger] s[i], key, types, fragment)),
        forall|i: int|
            0 <= i < s.len() && authorizes(s[i], key, types, fragment) && (forall|j: int|
                0 <= j < i ==> !authorizes(#[trigger] s[j], key, types, fragment))
                ==> first_authority(s, key, types, fragment) == Some(s[i]),
        first_authority(s, key, types, fragment) matches Some(v) ==> authorizes(v, key, types, fragment)
            && s.contains(v),
    decreases s.len(),
{
    if s.len() > 0 {
        let t = s.drop_first();
        lemma_first_authority(t, key, types, fragment);
        assert(forall|i: int| 0 <= i < t.len() ==> t[i] == s[i + 1]);
        assert forall|i: int|
            0 <= i < s.len() && authorizes(s[i], key, types, fragment) && (forall|j: int|
                0 <= j < i ==> !authorizes(#[trigger] s[j], key, types, fragment))
                implies first_authority(s, key, types, fragment) == Some(s[i]) by {
            if i > 0 {
                assert(!authorizes(s[0], key, types, fragment));
                assert(t[i - 1] == s[i]);
                assert forall|j: int| 0 <= j < i - 1 implies !authorizes(#[trigger] t[j], key, types, fragment) by {
                    assert(t[j] == s[j + 1]);
                }
            }
        }
        if first_authority(s, key, types, fragment).is_none() {
            assert forall|i: int| 0 <= i < s.len() implies !authorizes(#[trigger] s[i], key, types, fragment) by {
                if i > 0 {
                    assert(t[i - 1] == s[i]);
                }
            }
        }
        if first_authority(s, key, types, fragment).is_some() {
            let v = first_authority(s, key, types, fragment).unwrap();
            if !authorizes(s[0], key, types, fragment) {
                let k = choose|k: int| 0 <= k < t.len() && t[k] == v;
                assert(s[k + 1] == v);
            } else {
                assert(s[0] == v);
            }
        }
    }
}

/// Byte-wise equality of two slices.
pub fn bytes_eq(a: &[u8], b: &[u8]) -> (r: bool)
    ensures
        r == (a@ == b@),
{
    if a.len() != b.len() {
        return false;
    }
    let mut i: usize = 0;
    while i < a.len()
        invariant
            a@.len() == b@.len(),
            i <= a@.len(),
            forall|j: int| 0 <= j < i ==> a@[j] == b@[j],
        decreases a@.len() - i,
    {
        if a[i] != b[i] {
            return false;
        }
        i = i + 1;
    }
    assert(a@ =~= b@);
    true
}

/// True when the key type `code` passes the type filter.
pub(crate) fn type_allowed(code: u8, filter_types: Option<&[VerificationMethodType]>) -> (r: bool)
    ensures
        r == type_passes(code, types_view(filter_types)),
{
    match filter_types {
        None => true,
        Some(ts) => {
            let mut i: usize = 0;
            while i < ts.len()
                invariant
                    types_view(filter_types) == Some(ts@),
                    i <= ts@.len(),
                    forall|j: int| 0 <= j < i ==> type_code(ts@[j]) != code,
                decreases ts@.len() - i,
            {
                if ts[i].to_u8() == code {
                    assert(type_code(types_view(filter_types).unwrap()[i as int]) == code);
                    return true;
                }
                i = i + 1;
            }
            false
        },
    }
}

impl VerificationMethod {
    /// True when this method is an authority for `key` under the filters.
    pub fn authorizes_key(
        &self,
        key: &[u8],
        filter_types: Option<&[VerificationMethodType]>,
        filter_fragment: Option<&String>,
    ) -> (r: bool)
        ensures
            r == authorizes(*self, key@, types_view(filter_types), fragment_view(filter_fragment)),
    {
        if !bytes_eq(self.key_data.as_slice(), key) {
            return false;
        }
        if self.flags & CAPABILITY_INVOCATION != CAPABILITY_INVOCATION {
            return false;
        }
        if !type_allowed(self.method_type, filter_types) {
            return false;
        }
        match filter_fragment {
            Some(f) => self.fragment == *f,
            None => true,
        }
    }
}

impl DidAccount {
    /// Every method of the document: the initial one first, then the others in storage order.
    pub open spec fn all_methods(self) -> Seq<VerificationMethod> {
        seq![self.initial_verification_method].add(self.verification_methods@)
    }

    /// True when some method is an authority for `key` under the filters.
    pub open spec fn has_authority(
        self,
        key: Seq<u8>,
        types: Option<Seq<VerificationMethodType>>,
        fragment: Option<Seq<char>>,
    ) -> bool {
        first_authority(self.all_methods(), key, types, fragment).is_some()
    }

    /// True when some method keeps the document reachable.
    pub open spec fn has_authority_methods(self) -> bool {
        exists|i: int| 0 <= i < self.all_methods().len() && is_authority_method(#[trigger] self.all_methods()[i])
    }

    /// True when some method passing the fragment filter is protected.
    pub open spec fn has_protected(self, fragment: Option<Seq<char>>) -> bool {
        exists|i: int| 0 <= i < self.all_methods().len() && is_protected_method(#[trigger] self.all_methods()[i], fragment)
    }

    /// True when `self` and `other` hold the same document.
    pub open spec fn same_document(self, other: DidAccount) -> bool {
        &&& self.version == other.version
        &&& self.bump == other.bump
        &&& self.nonce == other.nonce
        &&& self.initial_verification_method == other.initial_verification_method
        &&& self.verification_methods@ == other.verification_methods@
        &&& self.services@ == other.services@
        &&& self.native_controllers@ == other.native_controllers@
        &&& self.other_controllers@ == other.other_controllers@
    }

    /// True when `self` and `other` agree on everything but the verification methods.
    pub open spec fn same_but_methods(self, other: DidAccount) -> bool {
        &&& self.version == other.version
        &&& self.bump == other.bump
        &&& self.nonce == other.nonce
        &&& self.services@ == other.services@
        &&& self.native_controllers@ == other.native_controllers@
        &&& self.other_controllers@ == other.other_controllers@
    }

    /// The position, among all methods (the initial one at 0), of the first method
    /// with fragment `fragment`.
    pub fn position_of(&self, fragment: &String) -> (r: Option<usize>)
        ensures
            r matches Some(i) ==> first_fragment(self.all_methods(), fragment@, i as int),
            r.is_none() ==> !has_fragment(self.all_methods(), fragment@),
    {
        let ghost all = self.all_methods();
        if self.initial_verification_method.fragment == *fragment {
            return Some(0);
        }
        let mut i: usize = 0;
        while i < self.verification_methods.len()
            invariant
                all == self.all_methods(),
                i <= self.verification_methods@.len(),
                forall|j: int| 0 <= j <= i ==> (#[trigger] all[j]).fragment@ != fragment@,
            decreases self.verification_methods@.len() - i,
        {
            assert(all[i + 1] == self.verification_methods@[i as int]);
            if self.verification_methods[i].fragment == *fragment {
                return Some(i + 1);
            }
            i = i + 1;
        }
        None
    }

    /// The first method with fragment `fragment`, the initial one first.
    pub fn find_verification_method(&self, fragment: &String) -> (r: Option<&VerificationMethod>)
        ensures
            r matches Some(vm) ==> exists|i: int| first_fragment(self.all_methods(), fragment@, i)
                && self.all_methods()[i] == *vm,
            r.is_none() ==> !has_fragment(self.all_methods(), fragment@),
    {
        match self.position_of(fragment) {
            Some(i) => {
                if i == 0 {
                    Some(&self.initial_verification_method)
                } else {
                    assert(self.all_methods()[i as int] == self.verification_methods@[i - 1]);
                    Some(&self.verification_methods[i - 1])
                }
            },
            None => None,
        }
    }

    /// True when, the method at position `i` taking the flags `flags`, some method
    /// would still keep the document reachable.
    pub fn authority_survives(&self, i: usize, flags: u16) -> (r: bool)
        requires
            i < self.all_methods().len(),
        ensures
            r == authority_with_flags(self.all_methods(), i as int, flags),
    {
        let ghost all = self.all_methods();
        let ghost after = all.update(i as int, with_flags(all[i as int], flags));
        let vm = &self.initial_verification_method;
        let f = if i == 0 { flags } else { vm.flags };
        if vm.method_type < 3 && f & CAPABILITY_INVOCATION == CAPABILITY_INVOCATION {
            assert(is_authority_method(after[0]));
            return true;
        }
        let mut k: usize = 0;
        while k < self.verification_methods.len()
            invariant
                all == self.all_methods(),
                after == all.update(i as int, with_flags(all[i as int], flags)),
                i < all.len(),
                all.len() == self.verification_methods@.len() + 1,
                k <= self.verification_methods@.len(),
                forall|m: int| 0 <= m <= k ==> !is_authority_method(#[trigger] after[m]),
            decreases self.verification_methods@.len() - k,
        {
            let vm = &self.verification_methods[k];
            assert(all[k + 1] == *vm);
            let f = if k + 1 == i { flags } else { vm.flags };
            if vm.method_type < 3 && f & CAPABILITY_INVOCATION == CAPABILITY_INVOCATION {
                assert(is_authority_method(after[k + 1]));
                return true;
            }
            k = k + 1;
        }
        false
    }

    /// Gives the method at position `i` (the initial one at 0) the flags `flags`.
    pub fn set_flags_at(&mut self, i: usize, flags: u16)
        requires
            i < old(self).all_methods().len(),
        ensures
            final(self).all_methods() == old(self).all_methods().update(i as int, with_flags(old(self).all_methods()[i as int], flags)),
            final(self).same_but_methods(*old(self)),
            i == 0 ==> final(self).verification_methods@ == old(self).verification_methods@,
    {
        let ghost all = self.all_methods();
        if i == 0 {
            self.initial_verification_method.flags = flags;
        } else {
            let mut vm = self.verification_methods.remove(i - 1);
            vm.flags = flags;
            self.verification_methods.insert(i - 1, vm);
        }
        assert(self.all_methods() =~= all.update(i as int, with_flags(all[i as int], flags)));
    }

    /// Removes the method with fragment `fragment`. The initial method is never removed:
    /// its flags are cleared instead.
    pub fn remove_verification_method(&mut self, fragment: &String) -> (r: Result<(), DidSolError>)
        ensures
            fragment@ == old(self).initial_verification_method.fragment@ ==> {
                &&& r is Ok
                &&& final(self).initial_verification_method == with_flags(old(self).initial_verification_method, 0)
                &&& final(self).verification_methods@ == old(self).verification_methods@
                &&& final(self).same_but_methods(*old(self))
            },
            fragment@ != old(self).initial_verification_method.fragment@ ==> {
                &&& r is Ok == has_fragment(old(self).verification_methods@, fragment@)
                &&& r is Err ==> r == Err::<(), DidSolError>(DidSolError::VmFragmentNotFound) && final(self).same_document(*old(self))
                &&& r is Ok ==> exists|i: int| first_fragment(old(self).verification_methods@, fragment@, i)
                    && final(self).verification_methods@ == old(self).verification_methods@.remove(i)
                &&& final(self).initial_verification_method == old(self).initial_verification_method
                &&& final(self).same_but_methods(*old(self))
            },
    {
        if self.initial_verification_method.fragment == *fragment {
            self.initial_verification_method.flags = 0;
            assert(self.initial_verification_method == with_flags(old(self).initial_verification_method, 0));
            return Ok(());
        }
        let mut i: usize = 0;
        while i < self.verification_methods.len()
            invariant
                *self == *old(self),
                fragment@ != old(self).initial_verification_method.fragment@,
                i <= self.verification_methods@.len(),
                forall|j: int| 0 <= j < i ==> (#[trigger] self.verification_methods@[j]).fragment@ != fragment@,
            decreases self.verification_methods@.len() - i,
        {
            if self.verification_methods[i].fragment == *fragment {
                self.verification_methods.remove(i);
                assert(first_fragment(old(self).verification_methods@, fragment@, i as int));
                return Ok(());
            }
            i = i + 1;
        }
        Err(DidSolError::VmFragmentNotFound)
    }

    /// Replaces the services by the first service of each fragment of `services`.
    /// Unless `allow_duplicates`, a repeated fragment is refused.
    pub fn set_services(&mut self, services: Vec<Service>, allow_duplicates: bool) -> (r: Result<(), DidSolError>)
        ensures
            r is Err <==> !allow_duplicates && !keys_unique(services@, service_fragment()),
            r is Err ==> r == Err::<(), DidSolError>(DidSolError::ServiceFragmentAlreadyInUse)
                && final(self).same_document(*old(self)),
            r is Ok ==> final(self).services@ == first_by(services@, service_fragment())
                && final(self).initial_verification_method == old(self).initial_verification_method
                && final(self).verification_methods@ == old(self).verification_methods@
                && final(self).native_controllers@ == old(self).native_controllers@
                && final(self).other_controllers@ == old(self).other_controllers@
                && final(self).version == old(self).version
                && final(self).bump == old(self).bump
                && final(self).nonce == old(self).nonce,
    {
        proof {
            lemma_first_by(services@, service_fragment());
        }
        let count = services.len();
        let unique = unique_services(services);
        if !allow_duplicates && unique.len() != count {
            return Err(DidSolError::ServiceFragmentAlreadyInUse);
        }
        self.services = unique;
        Ok(())
    }

    /// Replaces the methods by `existing` followed by `incoming`. Each incoming method is
    /// checked first; all fragments, with the initial one, must then differ. A method
    /// with the initial fragment gives its flags to the initial method and is not kept.
    #[verifier::loop_isolation(false)]
    pub fn set_verification_methods(
        &mut self,
        existing: Vec<VerificationMethod>,
        incoming: Vec<VerificationMethod>,
    ) -> (r: Result<(), DidSolError>)
        ensures
            ({
                let ms = existing@ + incoming@;
                let init = old(self).initial_verification_method;
                &&& incoming_error(incoming@) matches Some(e) ==> r == Err::<(), DidSolError>(e)
                &&& incoming_error(incoming@) is None && !keys_unique(ms, vm_fragment())
                    ==> r == Err::<(), DidSolError>(DidSolError::VmFragmentAlreadyInUse)
                &&& r is Ok == (incoming_error(incoming@) is None && keys_unique(ms, vm_fragment()))
                &&& r is Err ==> final(self).same_document(*old(self))
                &&& r is Ok ==> final(self).same_but_methods(*old(self))
                &&& r is Ok && has_fragment(ms, init.fragment@) ==> exists|i: int|
                    first_fragment(ms, init.fragment@, i)
                    && final(self).initial_verification_method == with_flags(init, ms[i].flags)
                    && final(self).verification_methods@ == ms.remove(i)
                &&& r is Ok && !has_fragment(ms, init.fragment@) ==>
                    final(self).initial_verification_method == init
                    && final(self).verification_methods@ == ms
            }),
    {
        match check_incoming(&incoming) {
            Err(e) => {
                return Err(e);
            },
            Ok(()) => {},
        }
        let mut methods = existing;
        let mut incoming = incoming;
        let ghost ms = methods@ + incoming@;
        methods.append(&mut incoming);
        assert(methods@ == ms);
        proof {
            lemma_first_by(ms, vm_fragment());
        }
        let count = methods.len();
        let mut unique = unique_methods(methods);
        if unique.len() != count {
            return Err(DidSolError::VmFragmentAlreadyInUse);
        }
        assert(unique@ == ms);
        let mut i: usize = 0;
        while i < unique.len()
            invariant
                unique@ == ms,
                i <= ms.len(),
                forall|j: int| 0 <= j < i ==> (#[trigger] ms[j]).fragment@ != self.initial_verification_method.fragment@,
                *self == *old(self),
            decreases ms.len() - i,
        {
            if unique[i].fragment == self.initial_verification_method.fragment {
                let vm = unique.remove(i);
                assert(first_fragment(ms, old(self).initial_verification_method.fragment@, i as int));
                self.initial_verification_method.flags = vm.flags;
                self.verification_methods = unique;
                return Ok(());
            }
            i = i + 1;
        }
        self.verification_methods = unique;
        Ok(())
    }

    /// Replaces the native controllers by the first occurrence of each key of
    /// `native_controllers`; the document's own key is refused.
    #[verifier::loop_isolation(false)]
    pub fn set_native_controllers(&mut self, native_controllers: Vec<Vec<u8>>) -> (r: Result<(), DidSolError>)
        ensures
            r is Err <==> !excludes_key(native_controllers@, old(self).initial_verification_method.key_data@),
            r is Err ==> r == Err::<(), DidSolError>(DidSolError::InvalidNativeControllers)
                && final(self).same_document(*old(self)),
            r is Ok ==> final(self).native_controllers@.map_values(bytes_view())
                == first_by(native_controllers@, bytes_view()).map_values(bytes_view())
                && final(self).initial_verification_method == old(self).initial_verification_method
                && final(self).verification_methods@ == old(self).verification_methods@
                && final(self).services@ == old(self).services@
                && final(self).other_controllers@ == old(self).other_controllers@
                && final(self).version == old(self).version
                && final(self).bump == old(self).bump
                && final(self).nonce == old(self).nonce,
    {
        let ghost input = native_controllers@;
        let ghost own = self.initial_verification_method.key_data@;
        proof {
            lemma_first_by(input, bytes_view());
        }
        let unique = unique_keys(native_controllers);
        let ghost kept = first_by(input, bytes_view());
        assert(unique@.map_values(bytes_view()).len() == unique@.len());
        assert(kept.map_values(bytes_view()).len() == kept.len());
        let mut i: usize = 0;
        while i < unique.len()
            invariant
                unique@.map_values(bytes_view()) == kept.map_values(bytes_view()),
                kept.len() == unique@.len(),
                own == self.initial_verification_method.key_data@,
                i <= unique@.len(),
                forall|j: int| 0 <= j < i ==> (#[trigger] unique@[j])@ != own,
                *self == *old(self),
            decreases unique@.len() - i,
        {
            assert(unique@.map_values(bytes_view())[i as int] == unique@[i as int]@);
            if crate::state::bytes_eq(unique[i].as_slice(), self.initial_verification_method.key_data.as_slice()) {
                assert(kept.map_values(bytes_view())[i as int] == kept[i as int]@);
                assert(has_key(kept, bytes_view(), own));
                assert(has_key(input, bytes_view(), own));
                return Err(DidSolError::InvalidNativeControllers);
            }
            i = i + 1;
        }
        assert(!has_key(kept, bytes_view(), own)) by {
            if has_key(kept, bytes_view(), own) {
                let j = choose|j: int| 0 <= j < kept.len() && bytes_view()(kept[j]) == own;
                assert(kept.map_values(bytes_view())[j] == unique@.map_values(bytes_view())[j]);
            }
        }
        self.native_controllers = unique;
        Ok(())
    }

    /// Replaces the other controllers by the first occurrence of each DID of
    /// `other_controllers`; each must be a DID and none a did:sol DID.
    pub fn set_other_controllers(&mut self, other_controllers: Vec<String>) -> (r: Result<(), DidSolError>)
        ensures
            r is Err <==> exists|i: int| 0 <= i < other_controllers@.len()
                && !valid_other_controller(#[trigger] other_controllers@[i]@),
            r is Err ==> r == Err::<(), DidSolError>(DidSolError::InvalidOtherControllers)
                && final(self).same_document(*old(self)),
            r is Ok ==> final(self).other_controllers@ == first_by(other_controllers@, string_view())
                && final(self).initial_verification_method == old(self).initial_verification_method
                && final(self).verification_methods@ == old(self).verification_methods@
                && final(self).services@ == old(self).services@
                && final(self).native_controllers@ == old(self).native_controllers@
                && final(self).version == old(self).version
                && final(self).bump == old(self).bump
                && final(self).nonce == old(self).nonce,
    {
        let ghost input = other_controllers@;
        proof {
            lemma_first_by(input, string_view());
        }
        let unique = unique_strings(other_controllers);
        let ghost kept = first_by(input, string_view());
        if !check_other_controllers(unique.as_slice()) {
            proof {
                let i = choose|i: int| 0 <= i < kept.len() && !valid_other_controller(#[trigger] kept[i]@);
                assert(kept.contains(kept[i]));
                assert(input.contains(kept[i]));
            }
            return Err(DidSolError::InvalidOtherControllers);
        }
        assert(forall|i: int| 0 <= i < input.len() ==> valid_other_controller(#[trigger] input[i]@)) by {
            assert forall|i: int| 0 <= i < input.len() implies valid_other_controller(#[trigger] input[i]@) by {
                assert(has_key(input, string_view(), input[i]@));
                assert(has_key(kept, string_view(), input[i]@));
                let j = choose|j: int| 0 <= j < kept.len() && string_view()(kept[j]) == input[i]@;
                assert(valid_other_controller(kept[j]@));
            }
        }
        self.other_controllers = unique;
        Ok(())
    }

    /// The document a key has before anything is stored for it: a single default
    /// method over the key, with capability invocation, and nothing else.
    pub open spec fn is_generative_of(self, bump: u8, key: Seq<u8>) -> bool {
        &&& self.version == 0
        &&& self.bump == bump
        &&& self.nonce == 0
        &&& is_default_method(self.initial_verification_method, CAPABILITY_INVOCATION, key)
        &&& self.verification_methods@.len() == 0
        &&& self.services@.len() == 0
        &&& self.native_controllers@.len() == 0
        &&& self.other_controllers@.len() == 0
    }

    /// The implicit document of `authority_key`.
    pub fn new(bump: u8, authority_key: &[u8]) -> (r: DidAccount)
        ensures
            r.is_generative_of(bump, authority_key@),
    {
        DidAccount {
            version: 0,
            bump,
            nonce: 0,
            initial_verification_method: VerificationMethod::default(CAPABILITY_INVOCATION, copy_bytes(authority_key)),
            verification_methods: Vec::new(),
            services: Vec::new(),
            native_controllers: Vec::new(),
            other_controllers: Vec::new(),
        }
    }

    /// Resets the header and makes the default method over `authority_key` with `flags`
    /// the initial method.
    pub fn init(&mut self, bump: u8, authority_key: &[u8], flags: u16)
        ensures
            final(self).version == 0,
            final(self).bump == bump,
            final(self).nonce == 0,
            is_default_method(final(self).initial_verification_method, flags, authority_key@),
            final(self).verification_methods@ == old(self).verification_methods@,
            final(self).services@ == old(self).services@,
            final(self).native_controllers@ == old(self).native_controllers@,
            final(self).other_controllers@ == old(self).other_controllers@,
    {
        self.version = 0;
        self.bump = bump;
        self.nonce = 0;
        self.initial_verification_method = VerificationMethod::default(flags, copy_bytes(authority_key));
    }

    /// The serialized size of the document, counting the initial method at the size of
    /// the default method over a native key.
    pub fn size(&self) -> (r: usize)
        requires
            account_size(*self) <= usize::MAX,
        ensures
            r == account_size(*self),
    {
        let ghost fv = |vm: VerificationMethod| vm_size(vm);
        let ghost fs = |s: Service| service_size(s);
        let ghost fc = |s: String| controller_size(s);
        let ghost total = account_size(*self);
        let mut size: usize = 1 + 1 + 8 + VerificationMethod::default_size() + 4;
        let mut i: usize = 0;
        proof {
            lemma_sum_prefix(self.verification_methods@, fv, 0);
            assert(self.verification_methods@.subrange(0, 0) =~= Seq::<VerificationMethod>::empty());
        }
        while i < self.verification_methods.len()
            invariant
                i <= self.verification_methods@.len(),
                total == account_size(*self),
                total <= usize::MAX,
                fv == (|vm: VerificationMethod| vm_size(vm)),
                size == 64 + sum_of(self.verification_methods@.subrange(0, i as int), fv),
            decreases self.verification_methods@.len() - i,
        {
            proof {
                lemma_sum_prefix(self.verification_methods@, fv, i + 1);
                assert(self.verification_methods@.subrange(0, i + 1).drop_last() =~= self.verification_methods@.subrange(0, i as int));
            }
            size = size + self.verification_methods[i].size();
            i = i + 1;
        }
        assert(self.verification_methods@.subrange(0, i as int) =~= self.verification_methods@);
        size = size + 4;
        let ghost base = size as nat;
        let mut j: usize = 0;
        assert(self.services@.subrange(0, 0) =~= Seq::<Service>::empty());
        while j < self.services.len()
            invariant
                j <= self.services@.len(),
                total == account_size(*self),
                total <= usize::MAX,
                fs == (|s: Service| service_size(s)),
                base == 68 + sum_of(self.verification_methods@, fv),
                fv == (|vm: VerificationMethod| vm_size(vm)),
                size == base + sum_of(self.services@.subrange(0, j as int), fs),
            decreases self.services@.len() - j,
        {
            proof {
                lemma_sum_prefix(self.services@, fs, j + 1);
                assert(self.services@.subrange(0, j + 1).drop_last() =~= self.services@.subrange(0, j as int));
            }
            size = size + self.services[j].size();
            j = j + 1;
        }
        assert(self.services@.subrange(0, j as int) =~= self.services@);
        size = size + 4 + self.native_controllers.len() * 32 + 4;
        let ghost base2 = size as nat;
        let mut k: usize = 0;
        assert(self.other_controllers@.subrange(0, 0) =~= Seq::<String>::empty());
        while k < self.other_controllers.len()
            invariant
                k <= self.other_controllers@.len(),
                total == account_size(*self),
                total <= usize::MAX,
                fc == (|s: String| controller_size(s)),
                fs == (|s: Service| service_size(s)),
                fv == (|vm: VerificationMethod| vm_size(vm)),
                base2 == 76 + sum_of(self.verification_methods@, fv) + sum_of(self.services@, fs)
                    + self.native_controllers@.len() * 32,
                size == base2 + sum_of(self.other_controllers@.subrange(0, k as int), fc),
            decreases self.other_controllers@.len() - k,
        {
            proof {
                lemma_sum_prefix(self.other_controllers@, fc, k + 1);
                assert(self.other_controllers@.subrange(0, k + 1).drop_last() =~= self.other_controllers@.subrange(0, k as int));
            }
            size = size + 4 + self.other_controllers[k].as_str().len();
            k = k + 1;
        }
        assert(self.other_controllers@.subrange(0, k as int) =~= self.other_controllers@);
        size
    }

    /// The serialized size of a fresh document, without the account discriminator.
    pub fn initial_size() -> (r: usize)
        ensures
            r == 76,
    {
        1 + 1 + 8 + VerificationMethod::default_size() + 4 + 4 + 4 + 4
    }

    /// The first method that is an authority for `key` under the filters: the initial
    /// method first, then the others in storage order.
    pub fn find_authority(
        &self,
        key: &[u8],
        filter_types: Option<&[VerificationMethodType]>,
        filter_fragment: Option<&String>,
    ) -> (r: Option<&VerificationMethod>)
        ensures
            found(r) == first_authority(self.all_methods(), key@, types_view(filter_types), fragment_view(filter_fragment)),
    {
        let ghost all = self.all_methods();
        let ghost types = types_view(filter_types);
        let ghost frag = fragment_view(filter_fragment);
        proof {
            lemma_first_authority(all, key@, types, frag);
        }
        if self.initial_verification_method.authorizes_key(key, filter_types, filter_fragment) {
            return Some(&self.initial_verification_method);
        }
        let mut i: usize = 0;
        while i < self.verification_methods.len()
            invariant
                all == self.all_methods(),
                types == types_view(filter_types),
                frag == fragment_view(filter_fragment),
                i <= self.verification_methods@.len(),
                forall|j: int| 0 <= j <= i ==> !authorizes(#[trigger] all[j], key@, types, frag),
                forall|k: int|
                    0 <= k < all.len() && authorizes(all[k], key@, types, frag) && (forall|j: int|
                        0 <= j < k ==> !authorizes(#[trigger] all[j], key@, types, frag))
                        ==> first_authority(all, key@, types, frag) == Some(all[k]),
                first_authority(all, key@, types, frag).is_none() <==> (forall|k: int|
                    0 <= k < all.len() ==> !authorizes(#[trigger] all[k], key@, types, frag)),
            decreases self.verification_methods@.len() - i,
        {
            let vm = &self.verification_methods[i];
            assert(all[i + 1] == self.verification_methods@[i as int]);
            if vm.authorizes_key(key, filter_types, filter_fragment) {
                return Some(vm);
            }
            i = i + 1;
        }
        None
    }

    /// The method that authorizes a request made by the native key `sol_authority`, or
    /// by whoever signed `eth_message` under the current nonce.
    pub fn find_authority_constraint(
        &self,
        sol_authority: &[u8],
        eth_message: &[u8],
        eth_raw_signature: Option<&Secp256k1RawSignature>,
        filter_fragment: Option<&String>,
    ) -> (r: Option<&VerificationMethod>)
        ensures
            found(r) == authority_for(self.all_methods(), self.nonce, sol_authority@, eth_message@,
                signature_view(eth_raw_signature), fragment_view(filter_fragment)),
    {
        let native = vec![VerificationMethodType::Ed25519VerificationKey2018];
        assert(native@ =~= seq![VerificationMethodType::Ed25519VerificationKey2018]);
        let vm = self.find_authority(sol_authority, Some(native.as_slice()), filter_fragment);
        if vm.is_some() {
            return vm;
        }
        match eth_raw_signature {
            None => None,
            Some(sig) => {
                let key = match eth_verify_message(eth_message, self.nonce, sig.signature.as_slice(), sig.recovery_id) {
                    Some(k) => k,
                    None => {
                        return None;
                    },
                };
                let full = vec![VerificationMethodType::EcdsaSecp256k1VerificationKey2019];
                assert(full@ =~= seq![VerificationMethodType::EcdsaSecp256k1VerificationKey2019]);
                let vm = self.find_authority(key.as_slice(), Some(full.as_slice()), filter_fragment);
                if vm.is_some() {
                    return vm;
                }
                let address = convert_secp256k1pub_key_to_address(key.as_slice());
                let recovery = vec![VerificationMethodType::EcdsaSecp256k1RecoveryMethod2020];
                assert(recovery@ =~= seq![VerificationMethodType::EcdsaSecp256k1RecoveryMethod2020]);
                self.find_authority(address.as_slice(), Some(recovery.as_slice()), filter_fragment)
            },
        }
    }

    /// True when some method keeps the document reachable (an authority type with
    /// capability invocation): the document is not locked out.
    pub fn has_authority_verification_methods(&self) -> (r: bool)
        ensures
            r == self.has_authority_methods(),
    {
        let ghost all = self.all_methods();
        let vm = &self.initial_verification_method;
        if vm.method_type < 3 && vm.flags & CAPABILITY_INVOCATION == CAPABILITY_INVOCATION {
            assert(is_authority_method(all[0]));
            return true;
        }
        let mut i: usize = 0;
        while i < self.verification_methods.len()
            invariant
                all == self.all_methods(),
                i <= self.verification_methods@.len(),
                forall|j: int| 0 <= j <= i ==> !is_authority_method(#[trigger] all[j]),
            decreases self.verification_methods@.len() - i,
        {
            let vm = &self.verification_methods[i];
            assert(all[i + 1] == self.verification_methods@[i as int]);
            if vm.method_type < 3 && vm.flags & CAPABILITY_INVOCATION == CAPABILITY_INVOCATION {
                assert(is_authority_method(all[i + 1]));
                return true;
            }
            i = i + 1;
        }
        false
    }

    /// True when some method passing the fragment filter carries the protected flag.
    pub fn has_protected_verification_method(&self, filter_fragment: Option<&String>) -> (r: bool)
        ensures
            r == self.has_protected(fragment_view(filter_fragment)),
    {
        let ghost all = self.all_methods();
        let ghost frag = fragment_view(filter_fragment);
        let vm = &self.initial_verification_method;
        if vm.flags & PROTECTED == PROTECTED && match filter_fragment {
            Some(f) => vm.fragment == *f,
            None => true,
        } {
            assert(is_protected_method(all[0], frag));
            return true;
        }
        let mut i: usize = 0;
        while i < self.verification_methods.len()
            invariant
                all == self.all_methods(),
                frag == fragment_view(filter_fragment),
                i <= self.verification_methods@.len(),
                forall|j: int| 0 <= j <= i ==> !is_protected_method(#[trigger] all[j], frag),
            decreases self.verification_methods@.len() - i,
        {
            let vm = &self.verification_methods[i];
            assert(all[i + 1] == self.verification_methods@[i as int]);
            if vm.flags & PROTECTED == PROTECTED && match filter_fragment {
                Some(f) => vm.fragment == *f,
                None => true,
            } {
                assert(is_protected_method(all[i + 1], frag));
                return true;
            }
            i = i + 1;
        }
        false
    }
}

} // verus!
