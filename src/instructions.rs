use vstd::prelude::*;

use crate::codec::{
    enc_list, enc_service, enc_string, enc_u32, enc_vm, encode_string, encode_verification_method,
    key_enc, put_key_list, put_service_list, put_string_list, put_u16, put_u32, put_vm_list,
    service_enc, service_fits, signed_message, string_enc, string_fits, vm_enc, vm_fits,
};
use crate::dedup::{bytes_view, string_view, unique_strings};
use crate::errors::DidSolError;
use crate::eth::{le_bytes, Secp256k1RawSignature};
use crate::flags::{
    guarded, known_bits, ALL_FLAGS, CAPABILITY_INVOCATION, OWNERSHIP_PROOF, PROTECTED,
};
use crate::seqs::{first_by, has_key, keys_unique, lemma_first_by, lemma_keys_unique_pointwise};
use crate::state::{
    authority_for, authority_with_flags, first_fragment, fragment_view, has_fragment, incoming_error,
    is_authority_method, service_fragment, signature_view, vm_fragment, with_flags, DidAccount, Service,
    VerificationMethod,
};
use crate::utils::valid_other_controller;

verus! {

/// True when the request by `authority`, or by the signer of `message` under the
/// document's nonce, is authorized on `doc`.
pub open spec fn authorized(
    doc: DidAccount,
    authority: Seq<u8>,
    message: Seq<u8>,
    sig: Option<Secp256k1RawSignature>,
    fragment: Option<Seq<char>>,
) -> bool {
    authority_for(doc.all_methods(), doc.nonce, authority, message, sig, fragment) is Some
}

/// The nonce after a successful request: one more when a signature was consumed.
pub open spec fn next_nonce(nonce: u64, sig: Option<Secp256k1RawSignature>) -> u64 {
    if sig is Some {
        (nonce + 1) as u64
    } else {
        nonce
    }
}

/// True when `b` is `a` with new verification methods and the nonce `nonce`.
pub open spec fn methods_changed(a: DidAccount, b: DidAccount, nonce: u64) -> bool {
    &&& b.version == a.version
    &&& b.bump == a.bump
    &&& b.nonce == nonce
    &&& b.services@ == a.services@
    &&& b.native_controllers@ == a.native_controllers@
    &&& b.other_controllers@ == a.other_controllers@
}

/// True when `b` is `a` with new services and the nonce `nonce`.
pub open spec fn services_changed(a: DidAccount, b: DidAccount, nonce: u64) -> bool {
    &&& b.version == a.version
    &&& b.bump == a.bump
    &&& b.nonce == nonce
    &&& b.initial_verification_method == a.initial_verification_method
    &&& b.verification_methods@ == a.verification_methods@
    &&& b.native_controllers@ == a.native_controllers@
    &&& b.other_controllers@ == a.other_controllers@
}

/// True when `b` is `a` with the nonce `nonce` and nothing else changed.
pub open spec fn only_nonce_changed(a: DidAccount, b: DidAccount, nonce: u64) -> bool {
    &&& services_changed(a, b, nonce)
    &&& b.services@ == a.services@
}

/// The flags update of a single method.
#[derive(Clone, Debug)]
pub struct UpdateFlagsVerificationMethod {
    /// The fragment of the method.
    pub fragment: String,
    /// Its new flags.
    pub flags: u16,
}

impl UpdateFlagsVerificationMethod {
    /// The fragment an authority must hold when the update grants a guarded flag: only
    /// the method itself may claim ownership proof or protection.
    pub fn get_filter_fragment(&self) -> (r: Option<&String>)
        ensures
            guarded(self.flags) ==> r == Some(&self.fragment),
            !guarded(self.flags) ==> r is None,
    {
        if self.flags & (OWNERSHIP_PROOF | PROTECTED) != 0 {
            Some(&self.fragment)
        } else {
            None
        }
    }
}

/// The controllers to set on a document.
#[derive(Clone, Debug)]
pub struct SetControllersArg {
    /// Keys of native controller documents.
    pub native_controllers: Vec<Vec<u8>>,
    /// Other controller DIDs.
    pub other_controllers: Vec<String>,
}

/// A full replacement of a document's methods, services and controllers.
#[derive(Clone, Debug)]
pub struct UpdateArg {
    /// All verification methods but the initial one (an entry with the initial
    /// fragment sets the initial method's flags).
    pub verification_methods: Vec<VerificationMethod>,
    /// Services.
    pub services: Vec<Service>,
    /// Keys of native controller documents.
    pub native_controllers: Vec<Vec<u8>>,
    /// Other controller DIDs.
    pub other_controllers: Vec<String>,
}

fn sig_ref(eth_signature: &Option<Secp256k1RawSignature>) -> (r: Option<&Secp256k1RawSignature>)
    ensures
        signature_view(r) == *eth_signature,
{
    match eth_signature {
        Some(s) => Some(s),
        None => None,
    }
}

/// True when the request is authorized on `data`.
fn check_authority(
    data: &DidAccount,
    authority: &[u8],
    message: &[u8],
    eth_signature: &Option<Secp256k1RawSignature>,
    filter_fragment: Option<&String>,
) -> (r: bool)
    ensures
        r == authorized(*data, authority@, message@, *eth_signature, fragment_view(filter_fragment)),
{
    data.find_authority_constraint(authority, message, sig_ref(eth_signature), filter_fragment).is_some()
}

/// Consumes the nonce when a signature was used.
fn consume_nonce(data: &mut DidAccount, eth_signature: &Option<Secp256k1RawSignature>)
    requires
        eth_signature is Some ==> old(data).nonce < u64::MAX,
    ensures
        final(data).nonce == next_nonce(old(data).nonce, *eth_signature),
        only_nonce_changed(*old(data), *final(data), final(data).nonce),
{
    if eth_signature.is_some() {
        data.nonce = data.nonce + 1;
    }
}

/// Adds a verification method, on the authority of a capability-invocation key. The
/// method may carry no unknown flag or key type and no guarded flag (ownership proof,
/// protected), and its fragment must be new.
pub fn add_verification_method(
    data: &mut DidAccount,
    authority: &[u8],
    verification_method: VerificationMethod,
    eth_signature: Option<Secp256k1RawSignature>,
) -> (r: Result<(), DidSolError>)
    requires
        vm_fits(verification_method),
        eth_signature is Some ==> old(data).nonce < u64::MAX,
    ensures
        !authorized(*old(data), authority@, enc_vm(verification_method), eth_signature, None)
            ==> r == Err::<(), DidSolError>(DidSolError::NotAuthorized),
        authorized(*old(data), authority@, enc_vm(verification_method), eth_signature, None) ==> match incoming_error(
            seq![verification_method],
        ) {
            Some(e) => r == Err::<(), DidSolError>(e),
            None => if has_fragment(old(data).all_methods(), verification_method.fragment@) {
                r == Err::<(), DidSolError>(DidSolError::VmFragmentAlreadyInUse)
            } else {
                r is Ok
            },
        },
        r is Err ==> final(data).same_document(*old(data)),
        r is Ok ==> !guarded(verification_method.flags),
        r is Ok ==> final(data).initial_verification_method == old(data).initial_verification_method
            && final(data).verification_methods@ == old(data).verification_methods@.push(verification_method)
            && methods_changed(*old(data), *final(data), next_nonce(old(data).nonce, eth_signature)),
{
    let message = encode_verification_method(&verification_method);
    if !check_authority(data, authority, message.as_slice(), &eth_signature, None) {
        return Err(DidSolError::NotAuthorized);
    }
    let vm = &verification_method;
    let ghost single = seq![verification_method];
    assert(single[0] == verification_method);
    assert(single.drop_first() =~= Seq::<VerificationMethod>::empty());
    assert(incoming_error(single.drop_first()) is None);
    if vm.flags & !ALL_FLAGS != 0 || vm.method_type >= 3 {
        return Err(DidSolError::ConversionError);
    }
    if vm.flags & (OWNERSHIP_PROOF | PROTECTED) != 0 {
        return Err(DidSolError::VmGuardedFlagOnAdd);
    }
    assert(incoming_error(single) is None);
    if data.position_of(&verification_method.fragment).is_some() {
        return Err(DidSolError::VmFragmentAlreadyInUse);
    }
    consume_nonce(data, &eth_signature);
    data.verification_methods.push(verification_method);
    Ok(())
}

/// Removing a method keeps the document reachable exactly when clearing its flags would.
proof fn lemma_remove_keeps_authority(all: Seq<VerificationMethod>, i: int)
    requires
        0 <= i < all.len(),
    ensures
        (exists|j: int| 0 <= j < all.remove(i).len() && is_authority_method(#[trigger] all.remove(i)[j]))
            == authority_with_flags(all, i, 0),
{
    let after = all.update(i, with_flags(all[i], 0));
    assert(!is_authority_method(after[i])) by {
        assert(0u16 & 8u16 != 8u16) by (bit_vector);
    }
    if exists|j: int| 0 <= j < all.remove(i).len() && is_authority_method(#[trigger] all.remove(i)[j]) {
        let j = choose|j: int| 0 <= j < all.remove(i).len() && is_authority_method(#[trigger] all.remove(i)[j]);
        if j < i {
            assert(after[j] == all.remove(i)[j]);
        } else {
            assert(after[j + 1] == all.remove(i)[j]);
        }
    }
    if authority_with_flags(all, i, 0) {
        let j = choose|j: int| 0 <= j < all.len() && is_authority_method(#[trigger] after[j]);
        if j < i {
            assert(after[j] == all.remove(i)[j]);
        } else {
            assert(j != i);
            assert(after[j] == all.remove(i)[j - 1]);
        }
    }
}

/// Removes the verification method with fragment `fragment`, on the authority of a
/// capability-invocation key. The initial method is not removed but has its flags
/// cleared. A protected method cannot be removed, and the removal must leave a method
/// that can still authorize changes.
pub fn remove_verification_method(
    data: &mut DidAccount,
    authority: &[u8],
    fragment: String,
    eth_signature: Option<Secp256k1RawSignature>,
) -> (r: Result<(), DidSolError>)
    requires
        string_fits(fragment@),
        eth_signature is Some ==> old(data).nonce < u64::MAX,
    ensures
        ({
            let all = old(data).all_methods();
            let f = fragment@;
            &&& !authorized(*old(data), authority@, enc_string(f), eth_signature, None)
                ==> r == Err::<(), DidSolError>(DidSolError::NotAuthorized)
            &&& authorized(*old(data), authority@, enc_string(f), eth_signature, None) ==> {
                &&& old(data).has_protected(Some(f)) ==> r == Err::<(), DidSolError>(DidSolError::VmCannotRemoveProtected)
                &&& !old(data).has_protected(Some(f)) && !has_fragment(all, f)
                    ==> r == Err::<(), DidSolError>(DidSolError::VmFragmentNotFound)
                &&& !old(data).has_protected(Some(f)) ==> forall|i: int| #[trigger] first_fragment(all, f, i) ==>
                    if authority_with_flags(all, i, 0) {
                        r is Ok
                    } else {
                        r == Err::<(), DidSolError>(DidSolError::VmCannotRemoveLastAuthority)
                    }
            }
            &&& r is Err ==> final(data).same_document(*old(data))
            &&& r is Ok ==> final(data).has_authority_methods()
                && methods_changed(*old(data), *final(data), next_nonce(old(data).nonce, eth_signature))
                && exists|i: int| #[trigger] first_fragment(all, f, i) && if i == 0 {
                    final(data).initial_verification_method == with_flags(all[0], 0)
                        && final(data).verification_methods@ == old(data).verification_methods@
                } else {
                    final(data).initial_verification_method == old(data).initial_verification_method
                        && final(data).verification_methods@ == old(data).verification_methods@.remove(i - 1)
                }
        }),
{
    let message = encode_string(&fragment);
    if !check_authority(data, authority, message.as_slice(), &eth_signature, None) {
        return Err(DidSolError::NotAuthorized);
    }
    if data.has_protected_verification_method(Some(&fragment)) {
        return Err(DidSolError::VmCannotRemoveProtected);
    }
    let ghost all = data.all_methods();
    let i = match data.position_of(&fragment) {
        Some(i) => i,
        None => {
            return Err(DidSolError::VmFragmentNotFound);
        },
    };
    assert forall|k: int| #[trigger] first_fragment(all, fragment@, k) implies k == i by {
        if k < i {
            assert(all[k].fragment@ != fragment@);
        } else if k > i {
            assert(all[i as int].fragment@ != fragment@);
        }
    }
    if !data.authority_survives(i, 0) {
        return Err(DidSolError::VmCannotRemoveLastAuthority);
    }
    consume_nonce(data, &eth_signature);
    if i == 0 {
        data.set_flags_at(0, 0);
        assert(data.all_methods() == all.update(0, with_flags(all[0], 0)));
        assert(data.all_methods()[0] == data.initial_verification_method);
        assert(data.verification_methods@ =~= old(data).verification_methods@);
    } else {
        data.verification_methods.remove(i - 1);
        assert(data.all_methods() =~= all.remove(i as int));
        proof {
            lemma_remove_keeps_authority(all, i as int);
        }
    }
    Ok(())
}

/// Sets the flags of the verification method with fragment `fragment`, on the authority
/// of a capability-invocation key; granting a guarded flag takes the method's own key.
/// The flags must be known, and the change must leave a method that can still
/// authorize changes.
pub fn set_vm_flags(
    data: &mut DidAccount,
    authority: &[u8],
    flags_vm: UpdateFlagsVerificationMethod,
    eth_signature: Option<Secp256k1RawSignature>,
) -> (r: Result<(), DidSolError>)
    requires
        string_fits(flags_vm.fragment@),
        eth_signature is Some ==> old(data).nonce < u64::MAX,
    ensures
        ({
            let all = old(data).all_methods();
            let f = flags_vm.fragment@;
            let message = enc_string(f) + le_bytes(flags_vm.flags as nat, 2);
            let filter = if guarded(flags_vm.flags) { Some(f) } else { None };
            &&& !known_bits(flags_vm.flags) ==> r == Err::<(), DidSolError>(DidSolError::ConversionError)
            &&& known_bits(flags_vm.flags) && !authorized(*old(data), authority@, message, eth_signature, filter)
                ==> r == Err::<(), DidSolError>(DidSolError::NotAuthorized)
            &&& known_bits(flags_vm.flags) && authorized(*old(data), authority@, message, eth_signature, filter) ==> {
                &&& !has_fragment(all, f) ==> r == Err::<(), DidSolError>(DidSolError::VmFragmentNotFound)
                &&& forall|i: int| #[trigger] first_fragment(all, f, i) ==>
                    if authority_with_flags(all, i, flags_vm.flags) {
                        r is Ok
                    } else {
                        r == Err::<(), DidSolError>(DidSolError::VmCannotRemoveLastAuthority)
                    }
            }
            &&& r is Err ==> final(data).same_document(*old(data))
            &&& r is Ok ==> final(data).has_authority_methods()
                && methods_changed(*old(data), *final(data), next_nonce(old(data).nonce, eth_signature))
                && exists|i: int| #[trigger] first_fragment(all, f, i)
                    && final(data).all_methods() == all.update(i, with_flags(all[i], flags_vm.flags))
        }),
{
    if flags_vm.flags & !ALL_FLAGS != 0 {
        return Err(DidSolError::ConversionError);
    }
    let mut message = encode_string(&flags_vm.fragment);
    put_u16(&mut message, flags_vm.flags);
    if !check_authority(data, authority, message.as_slice(), &eth_signature, flags_vm.get_filter_fragment()) {
        return Err(DidSolError::NotAuthorized);
    }
    let ghost all = data.all_methods();
    let i = match data.position_of(&flags_vm.fragment) {
        Some(i) => i,
        None => {
            return Err(DidSolError::VmFragmentNotFound);
        },
    };
    assert forall|k: int| #[trigger] first_fragment(all, flags_vm.fragment@, k) implies k == i by {
        if k < i {
            assert(all[k].fragment@ != flags_vm.fragment@);
        } else if k > i {
            assert(all[i as int].fragment@ != flags_vm.fragment@);
        }
    }
    if !data.authority_survives(i, flags_vm.flags) {
        return Err(DidSolError::VmCannotRemoveLastAuthority);
    }
    consume_nonce(data, &eth_signature);
    data.set_flags_at(i, flags_vm.flags);
    Ok(())
}

/// True when `i` is the first position of `s` whose service has fragment `f`.
pub open spec fn first_service(s: Seq<Service>, f: Seq<char>, i: int) -> bool {
    &&& 0 <= i < s.len()
    &&& s[i].fragment@ == f
    &&& forall|j: int| 0 <= j < i ==> (#[trigger] s[j]).fragment@ != f
}

/// The fragments of `s`, in order.
fn service_fragments(first: &Service, s: &Vec<Service>) -> (r: Vec<String>)
    ensures
        r@.len() == s@.len() + 1,
        forall|k: int| 0 <= k < r@.len() ==> (#[trigger] r@[k])@ == (seq![*first] + s@)[k].fragment@,
{
    let mut r: Vec<String> = Vec::new();
    r.push(first.fragment.clone());
    let mut i: usize = 0;
    while i < s.len()
        invariant
            i <= s@.len(),
            r@.len() == i + 1,
            forall|k: int| 0 <= k < r@.len() ==> (#[trigger] r@[k])@ == (seq![*first] + s@)[k].fragment@,
        decreases s@.len() - i,
    {
        r.push(s[i].fragment.clone());
        i = i + 1;
    }
    r
}

/// Adds a service, on the authority of a capability-invocation key. Its fragment must
/// be new unless `allow_overwrite`, in which case it replaces the service of that
/// fragment. The new service comes first.
pub fn add_service(
    data: &mut DidAccount,
    authority: &[u8],
    service: Service,
    allow_overwrite: bool,
    eth_signature: Option<Secp256k1RawSignature>,
) -> (r: Result<(), DidSolError>)
    requires
        service_fits(service),
        eth_signature is Some ==> old(data).nonce < u64::MAX,
    ensures
        ({
            let message = enc_service(service) + seq![if allow_overwrite { 1u8 } else { 0u8 }];
            let joint = seq![service] + old(data).services@;
            &&& !authorized(*old(data), authority@, message, eth_signature, None)
                ==> r == Err::<(), DidSolError>(DidSolError::NotAuthorized)
            &&& authorized(*old(data), authority@, message, eth_signature, None) ==> if !allow_overwrite
                && !keys_unique(joint, service_fragment()) {
                r == Err::<(), DidSolError>(DidSolError::ServiceFragmentAlreadyInUse)
            } else {
                r is Ok
            }
            &&& r is Err ==> final(data).same_document(*old(data))
            &&& r is Ok ==> final(data).services@ == first_by(joint, service_fragment())
                && services_changed(*old(data), *final(data), next_nonce(old(data).nonce, eth_signature))
        }),
{
    let message = signed_message(&service, allow_overwrite);
    if !check_authority(data, authority, message.as_slice(), &eth_signature, None) {
        return Err(DidSolError::NotAuthorized);
    }
    let ghost joint = seq![service] + data.services@;
    if !allow_overwrite {
        let frags = service_fragments(&service, &data.services);
        let n = frags.len();
        let ghost fv = frags@;
        proof {
            lemma_first_by(fv, string_view());
            lemma_keys_unique_pointwise(fv, string_view(), joint, service_fragment());
        }
        let unique = unique_strings(frags);
        if unique.len() != n {
            return Err(DidSolError::ServiceFragmentAlreadyInUse);
        }
    }
    consume_nonce(data, &eth_signature);
    let mut existing: Vec<Service> = Vec::new();
    std::mem::swap(&mut existing, &mut data.services);
    let mut services = vec![service];
    services.append(&mut existing);
    assert(services@ == joint);
    match data.set_services(services, allow_overwrite) {
        Ok(()) => Ok(()),
        Err(e) => Err(e),
    }
}

/// Removes the service with fragment `fragment`, on the authority of a
/// capability-invocation key.
#[verifier::loop_isolation(false)]
pub fn remove_service(
    data: &mut DidAccount,
    authority: &[u8],
    fragment: String,
    eth_signature: Option<Secp256k1RawSignature>,
) -> (r: Result<(), DidSolError>)
    requires
        string_fits(fragment@),
        eth_signature is Some ==> old(data).nonce < u64::MAX,
    ensures
        !authorized(*old(data), authority@, enc_string(fragment@), eth_signature, None)
            ==> r == Err::<(), DidSolError>(DidSolError::NotAuthorized),
        authorized(*old(data), authority@, enc_string(fragment@), eth_signature, None) ==> (r is Ok <==> exists|i: int|
            0 <= i < old(data).services@.len() && (#[trigger] old(data).services@[i]).fragment@ == fragment@),
        r is Err ==> final(data).same_document(*old(data)),
        r is Err && authorized(*old(data), authority@, enc_string(fragment@), eth_signature, None)
            ==> r == Err::<(), DidSolError>(DidSolError::ServiceFragmentNotFound),
        r is Ok ==> services_changed(*old(data), *final(data), next_nonce(old(data).nonce, eth_signature))
            && exists|i: int| #[trigger] first_service(old(data).services@, fragment@, i)
                && final(data).services@ == old(data).services@.remove(i),
{
    let message = encode_string(&fragment);
    if !check_authority(data, authority, message.as_slice(), &eth_signature, None) {
        return Err(DidSolError::NotAuthorized);
    }
    let mut i: usize = 0;
    while i < data.services.len()
        invariant
            *data == *old(data),
            i <= data.services@.len(),
            forall|j: int| 0 <= j < i ==> (#[trigger] data.services@[j]).fragment@ != fragment@,
        decreases data.services@.len() - i,
    {
        if data.services[i].fragment == fragment {
            assert(first_service(old(data).services@, fragment@, i as int));
            consume_nonce(data, &eth_signature);
            data.services.remove(i);
            return Ok(());
        }
        i = i + 1;
    }
    Err(DidSolError::ServiceFragmentNotFound)
}

/// True when some key of `keys` equals `key`.
fn keys_contain(keys: &Vec<Vec<u8>>, key: &[u8]) -> (r: bool)
    ensures
        r == has_key(keys@, bytes_view(), key@),
{
    let mut i: usize = 0;
    while i < keys.len()
        invariant
            i <= keys@.len(),
            forall|j: int| 0 <= j < i ==> bytes_view()(#[trigger] keys@[j]) != key@,
        decreases keys@.len() - i,
    {
        if crate::state::bytes_eq(keys[i].as_slice(), key) {
            assert(bytes_view()(keys@[i as int]) == key@);
            return true;
        }
        i = i + 1;
    }
    false
}

/// The message signed to set the controllers.
pub open spec fn enc_controllers(native: Seq<Vec<u8>>, other: Seq<String>) -> Seq<u8> {
    enc_list(native, key_enc()) + enc_list(other, string_enc())
}

/// True when a list of texts fits the encoding.
pub open spec fn strings_fit(s: Seq<String>) -> bool {
    s.len() <= u32::MAX && forall|i: int| 0 <= i < s.len() ==> string_fits(#[trigger] s[i]@)
}

/// Replaces the controllers, on the authority of a capability-invocation key. The
/// document's own key cannot be a native controller; each other controller must be a
/// DID and not a did:sol DID. Repeated entries are kept once.
pub fn set_controllers(
    data: &mut DidAccount,
    authority: &[u8],
    set_controllers_arg: SetControllersArg,
    eth_signature: Option<Secp256k1RawSignature>,
) -> (r: Result<(), DidSolError>)
    requires
        set_controllers_arg.native_controllers@.len() <= u32::MAX,
        strings_fit(set_controllers_arg.other_controllers@),
        eth_signature is Some ==> old(data).nonce < u64::MAX,
    ensures
        ({
            let native = set_controllers_arg.native_controllers@;
            let other = set_controllers_arg.other_controllers@;
            let message = enc_controllers(native, other);
            let own = old(data).initial_verification_method.key_data@;
            &&& !authorized(*old(data), authority@, message, eth_signature, None)
                ==> r == Err::<(), DidSolError>(DidSolError::NotAuthorized)
            &&& authorized(*old(data), authority@, message, eth_signature, None) ==> if has_key(native, bytes_view(), own) {
                r == Err::<(), DidSolError>(DidSolError::InvalidNativeControllers)
            } else if exists|i: int| 0 <= i < other.len() && !valid_other_controller(#[trigger] other[i]@) {
                r == Err::<(), DidSolError>(DidSolError::InvalidOtherControllers)
            } else {
                r is Ok
            }
            &&& r is Err ==> final(data).same_document(*old(data))
            &&& r is Ok ==> {
                &&& final(data).native_controllers@.map_values(bytes_view()) == first_by(native, bytes_view()).map_values(bytes_view())
                &&& final(data).other_controllers@ == first_by(other, string_view())
                &&& final(data).version == old(data).version
                &&& final(data).bump == old(data).bump
                &&& final(data).nonce == next_nonce(old(data).nonce, eth_signature)
                &&& final(data).initial_verification_method == old(data).initial_verification_method
                &&& final(data).verification_methods@ == old(data).verification_methods@
                &&& final(data).services@ == old(data).services@
            }
        }),
{
    let mut message: Vec<u8> = Vec::new();
    put_key_list(&mut message, &set_controllers_arg.native_controllers);
    put_string_list(&mut message, &set_controllers_arg.other_controllers);
    assert(message@ =~= enc_controllers(set_controllers_arg.native_controllers@, set_controllers_arg.other_controllers@));
    if !check_authority(data, authority, message.as_slice(), &eth_signature, None) {
        return Err(DidSolError::NotAuthorized);
    }
    if keys_contain(&set_controllers_arg.native_controllers, data.initial_verification_method.key_data.as_slice()) {
        return Err(DidSolError::InvalidNativeControllers);
    }
    if !crate::utils::check_other_controllers(set_controllers_arg.other_controllers.as_slice()) {
        return Err(DidSolError::InvalidOtherControllers);
    }
    consume_nonce(data, &eth_signature);
    let SetControllersArg { native_controllers, other_controllers } = set_controllers_arg;
    match data.set_native_controllers(native_controllers) {
        Ok(()) => {},
        Err(e) => {
            return Err(e);
        },
    }
    match data.set_other_controllers(other_controllers) {
        Ok(()) => Ok(()),
        Err(e) => Err(e),
    }
}

/// True when `d` is a freshly initialized document of `authority`: its initial method is
/// the default method with capability invocation, ownership proof and protection.
pub open spec fn is_initialized_of(d: DidAccount, bump: u8, authority: Seq<u8>) -> bool {
    &&& d.version == 0
    &&& d.bump == bump
    &&& d.nonce == 0
    &&& crate::state::is_default_method(d.initial_verification_method, (CAPABILITY_INVOCATION | OWNERSHIP_PROOF | PROTECTED) as u16, authority)
    &&& d.verification_methods@.len() == 0
    &&& d.services@.len() == 0
    &&& d.native_controllers@.len() == 0
    &&& d.other_controllers@.len() == 0
}

/// Creates the document of `authority` in an account of `size` bytes, which must hold
/// at least a fresh document and the account discriminator.
pub fn initialize(size: u32, bump: u8, authority: &[u8]) -> (r: Result<DidAccount, DidSolError>)
    ensures
        size < 84 ==> r == Err::<DidAccount, DidSolError>(DidSolError::InsufficientInitialSize),
        size >= 84 ==> (r matches Ok(d) && is_initialized_of(d, bump, authority@)),
{
    if (size as usize) < DidAccount::initial_size() + 8 {
        return Err(DidSolError::InsufficientInitialSize);
    }
    let mut d = DidAccount::new(bump, authority);
    d.init(bump, authority, CAPABILITY_INVOCATION | OWNERSHIP_PROOF | PROTECTED);
    Ok(d)
}

/// Authorizes a resize of the account to `size` bytes; the host reallocates it.
pub fn resize(
    data: &mut DidAccount,
    authority: &[u8],
    size: u32,
    eth_signature: Option<Secp256k1RawSignature>,
) -> (r: Result<(), DidSolError>)
    requires
        eth_signature is Some ==> old(data).nonce < u64::MAX,
    ensures
        r is Ok == authorized(*old(data), authority@, enc_u32(size as nat), eth_signature, None),
        r is Err ==> r == Err::<(), DidSolError>(DidSolError::NotAuthorized) && final(data).same_document(*old(data)),
        r is Ok ==> only_nonce_changed(*old(data), *final(data), next_nonce(old(data).nonce, eth_signature)),
{
    let mut message: Vec<u8> = Vec::new();
    put_u32(&mut message, size);
    assert(message@ =~= enc_u32(size as nat));
    if !check_authority(data, authority, message.as_slice(), &eth_signature, None) {
        return Err(DidSolError::NotAuthorized);
    }
    consume_nonce(data, &eth_signature);
    Ok(())
}

/// Authorizes closing the document; the host then clears the account.
pub fn close(
    data: &mut DidAccount,
    authority: &[u8],
    eth_signature: Option<Secp256k1RawSignature>,
) -> (r: Result<(), DidSolError>)
    requires
        eth_signature is Some ==> old(data).nonce < u64::MAX,
    ensures
        r is Ok == authorized(*old(data), authority@, Seq::empty(), eth_signature, None),
        r is Err ==> r == Err::<(), DidSolError>(DidSolError::NotAuthorized) && final(data).same_document(*old(data)),
        r is Ok ==> only_nonce_changed(*old(data), *final(data), next_nonce(old(data).nonce, eth_signature)),
{
    let message: Vec<u8> = Vec::new();
    assert(message@ =~= Seq::<u8>::empty());
    if !check_authority(data, authority, message.as_slice(), &eth_signature, None) {
        return Err(DidSolError::NotAuthorized);
    }
    consume_nonce(data, &eth_signature);
    Ok(())
}

/// The methods a bulk update leaves: an incoming method with the initial fragment gives
/// its flags to the initial method and is dropped; the others follow in order.
pub open spec fn methods_after(init: VerificationMethod, ms: Seq<VerificationMethod>) -> Seq<VerificationMethod> {
    if exists|i: int| first_fragment(ms, init.fragment@, i) {
        let i = choose|i: int| first_fragment(ms, init.fragment@, i);
        seq![with_flags(init, ms[i].flags)] + ms.remove(i)
    } else {
        seq![init] + ms
    }
}

/// True when some method of `s` keeps a document reachable.
pub open spec fn has_authority_in(s: Seq<VerificationMethod>) -> bool {
    exists|j: int| 0 <= j < s.len() && is_authority_method(#[trigger] s[j])
}

/// The message signed for a bulk update.
pub open spec fn enc_update(arg: UpdateArg) -> Seq<u8> {
    enc_list(arg.verification_methods@, vm_enc()) + enc_list(arg.services@, service_enc()) + enc_list(
        arg.native_controllers@,
        key_enc(),
    ) + enc_list(arg.other_controllers@, string_enc())
}

/// True when every length of a bulk update fits the encoding.
pub open spec fn update_fits(arg: UpdateArg) -> bool {
    &&& arg.verification_methods@.len() <= u32::MAX
    &&& forall|i: int| 0 <= i < arg.verification_methods@.len() ==> vm_fits(#[trigger] arg.verification_methods@[i])
    &&& arg.services@.len() <= u32::MAX
    &&& forall|i: int| 0 <= i < arg.services@.len() ==> service_fits(#[trigger] arg.services@[i])
    &&& arg.native_controllers@.len() <= u32::MAX
    &&& strings_fit(arg.other_controllers@)
}

/// The error a bulk update meets, in the order the checks run; none when it goes through.
pub open spec fn update_error(doc: DidAccount, arg: UpdateArg) -> Option<DidSolError> {
    let vms = arg.verification_methods@;
    let other = arg.other_controllers@;
    if doc.has_protected(None) {
        Some(DidSolError::VmCannotRemoveProtected)
    } else if !keys_unique(arg.services@, service_fragment()) {
        Some(DidSolError::ServiceFragmentAlreadyInUse)
    } else if incoming_error(vms) is Some {
        incoming_error(vms)
    } else if !keys_unique(vms, vm_fragment()) {
        Some(DidSolError::VmFragmentAlreadyInUse)
    } else if has_key(arg.native_controllers@, bytes_view(), doc.initial_verification_method.key_data@) {
        Some(DidSolError::InvalidNativeControllers)
    } else if exists|i: int| 0 <= i < other.len() && !valid_other_controller(#[trigger] other[i]@) {
        Some(DidSolError::InvalidOtherControllers)
    } else if !has_authority_in(methods_after(doc.initial_verification_method, vms)) {
        Some(DidSolError::VmCannotRemoveLastAuthority)
    } else {
        None
    }
}

proof fn lemma_first_fragment_unique(s: Seq<VerificationMethod>, f: Seq<char>, i: int, k: int)
    requires
        first_fragment(s, f, i),
        first_fragment(s, f, k),
    ensures
        i == k,
{
    if i < k {
        assert(s[i].fragment@ != f);
    } else if k < i {
        assert(s[k].fragment@ != f);
    }
}

/// Replaces all methods, services and controllers at once, on the authority of a
/// capability-invocation key. Refused while any method is protected; otherwise each
/// part is checked as its own operation checks it, and the result must leave a method
/// that can still authorize changes.
pub fn update(
    data: &mut DidAccount,
    authority: &[u8],
    update_arg: UpdateArg,
    eth_signature: Option<Secp256k1RawSignature>,
) -> (r: Result<(), DidSolError>)
    requires
        update_fits(update_arg),
        eth_signature is Some ==> old(data).nonce < u64::MAX,
    ensures
        !authorized(*old(data), authority@, enc_update(update_arg), eth_signature, None)
            ==> r == Err::<(), DidSolError>(DidSolError::NotAuthorized),
        authorized(*old(data), authority@, enc_update(update_arg), eth_signature, None) ==> match update_error(
            *old(data),
            update_arg,
        ) {
            Some(e) => r == Err::<(), DidSolError>(e),
            None => r is Ok,
        },
        r is Err ==> final(data).same_document(*old(data)),
        r is Ok ==> {
            &&& final(data).all_methods() == methods_after(old(data).initial_verification_method, update_arg.verification_methods@)
            &&& forall|j: int| 0 <= j < final(data).all_methods().len() && guarded(
                (#[trigger] final(data).all_methods()[j]).flags,
            ) ==> j == 0 && final(data).all_methods()[0] == old(data).initial_verification_method
            &&& final(data).has_authority_methods()
            &&& final(data).services@ == update_arg.services@
            &&& final(data).native_controllers@.map_values(bytes_view())
                == first_by(update_arg.native_controllers@, bytes_view()).map_values(bytes_view())
            &&& final(data).other_controllers@ == first_by(update_arg.other_controllers@, string_view())
            &&& final(data).version == old(data).version
            &&& final(data).bump == old(data).bump
            &&& final(data).nonce == next_nonce(old(data).nonce, eth_signature)
        },
{
    let mut message: Vec<u8> = Vec::new();
    put_vm_list(&mut message, &update_arg.verification_methods);
    put_service_list(&mut message, &update_arg.services);
    put_key_list(&mut message, &update_arg.native_controllers);
    put_string_list(&mut message, &update_arg.other_controllers);
    assert(message@ =~= enc_update(update_arg));
    if !check_authority(data, authority, message.as_slice(), &eth_signature, None) {
        return Err(DidSolError::NotAuthorized);
    }
    if data.has_protected_verification_method(None) {
        return Err(DidSolError::VmCannotRemoveProtected);
    }
    let ghost arg = update_arg;
    let ghost init = data.initial_verification_method;
    let UpdateArg { verification_methods, services, native_controllers, other_controllers } = update_arg;
    let mut saved_services: Vec<Service> = Vec::new();
    std::mem::swap(&mut saved_services, &mut data.services);
    match data.set_services(services, false) {
        Ok(()) => {},
        Err(e) => {
            data.services = saved_services;
            return Err(e);
        },
    }
    proof {
        lemma_first_by(arg.services@, service_fragment());
    }
    let saved_flags = data.initial_verification_method.flags;
    let mut saved_methods: Vec<VerificationMethod> = Vec::new();
    std::mem::swap(&mut saved_methods, &mut data.verification_methods);
    let ghost ms = Seq::<VerificationMethod>::empty() + arg.verification_methods@;
    assert(ms =~= arg.verification_methods@);
    match data.set_verification_methods(Vec::new(), verification_methods) {
        Ok(()) => {},
        Err(e) => {
            data.services = saved_services;
            data.verification_methods = saved_methods;
            return Err(e);
        },
    }
    assert(data.all_methods() == methods_after(init, arg.verification_methods@)) by {
        if exists|i: int| first_fragment(ms, init.fragment@, i) {
            let k = choose|i: int| first_fragment(ms, init.fragment@, i);
            assert(has_fragment(ms, init.fragment@));
            let i = choose|i: int| first_fragment(ms, init.fragment@, i)
                && data.initial_verification_method == with_flags(init, ms[i].flags)
                && data.verification_methods@ == ms.remove(i);
            lemma_first_fragment_unique(ms, init.fragment@, i, k);
            assert(data.all_methods() =~= seq![with_flags(init, ms[k].flags)] + ms.remove(k));
        } else {
            if has_fragment(ms, init.fragment@) {
                let i = choose|i: int| first_fragment(ms, init.fragment@, i)
                    && data.initial_verification_method == with_flags(init, ms[i].flags)
                    && data.verification_methods@ == ms.remove(i);
            }
            assert(data.all_methods() =~= seq![init] + ms);
        }
    }
    let mut saved_native: Vec<Vec<u8>> = Vec::new();
    std::mem::swap(&mut saved_native, &mut data.native_controllers);
    match data.set_native_controllers(native_controllers) {
        Ok(()) => {},
        Err(e) => {
            data.services = saved_services;
            data.verification_methods = saved_methods;
            data.initial_verification_method.flags = saved_flags;
            data.native_controllers = saved_native;
            return Err(e);
        },
    }
    let mut saved_other: Vec<String> = Vec::new();
    std::mem::swap(&mut saved_other, &mut data.other_controllers);
    match data.set_other_controllers(other_controllers) {
        Ok(()) => {},
        Err(e) => {
            data.services = saved_services;
            data.verification_methods = saved_methods;
            data.initial_verification_method.flags = saved_flags;
            data.native_controllers = saved_native;
            data.other_controllers = saved_other;
            return Err(e);
        },
    }
    let ghost after = methods_after(init, arg.verification_methods@);
    assert(data.all_methods() == after);
    assert(data.has_authority_methods() == has_authority_in(after)) by {
        if has_authority_in(after) {
            let j = choose|j: int| 0 <= j < after.len() && is_authority_method(#[trigger] after[j]);
            assert(is_authority_method(data.all_methods()[j]));
        }
    }
    if !data.has_authority_verification_methods() {
        data.services = saved_services;
        data.verification_methods = saved_methods;
        data.initial_verification_method.flags = saved_flags;
        data.native_controllers = saved_native;
        data.other_controllers = saved_other;
        return Err(DidSolError::VmCannotRemoveLastAuthority);
    }
    let ghost before = *data;
    consume_nonce(data, &eth_signature);
    assert(data.all_methods() =~= before.all_methods());
    proof {
        let vms = arg.verification_methods@;
        crate::laws::lemma_incoming_never_guarded(vms);
        assert forall|j: int| 0 <= j < data.all_methods().len() && guarded(#[trigger] data.all_methods()[j].flags)
            implies j == 0 && data.all_methods()[0] == init by {
            if exists|i: int| first_fragment(vms, init.fragment@, i) {
                let i = choose|i: int| first_fragment(vms, init.fragment@, i);
                assert(after =~= seq![with_flags(init, vms[i].flags)] + vms.remove(i));
                if j == 0 {
                    assert(!guarded(vms[i].flags));
                } else if j - 1 < i {
                    assert(after[j] == vms[j - 1]);
                } else {
                    assert(after[j] == vms[j]);
                }
            } else {
                assert(after =~= seq![init] + vms);
                if j > 0 {
                    assert(after[j] == vms[j - 1]);
                }
            }
        }
    }
    Ok(())
}

} // verus!
