use vstd::prelude::*;
use vstd::std_specs::cmp::PartialEqSpec;
use vstd::utf8::encode_utf8;

use crate::dedup::bytes_view;
use crate::derive::{get_sol_address_with_seed, legacy_address};
use crate::errors::{DidSolError, SolError};
use crate::seqs::{first_by, has_key, keys_unique, lemma_first_by_pointwise, lemma_has_key_pointwise, lemma_keys_unique_pointwise};
use crate::flags::{
    guarded, known_bits, known_type, ASSERTION, AUTHENTICATION, CAPABILITY_DELEGATION, CAPABILITY_INVOCATION, KEY_AGREEMENT, OWNERSHIP_PROOF,
    PROTECTED,
};
use crate::state::{copy_bytes, incoming_error, service_fragment, vm_fragment, lemma_sum_prefix, sum_of, DidAccount, Service, VerificationMethod, VM_DEFAULT_FRAGMENT_NAME};

verus! {

/// The clusters a first-generation DID can name.
#[derive(Clone, Copy, Debug, PartialEq, Eq, Structural)]
pub enum ClusterType {
    /// Testnet, running the newest code.
    Testnet,
    /// Mainnet, the part with real money.
    MainnetBeta,
    /// Devnet, running the same code as mainnet.
    Devnet,
    /// A local network for development.
    Development,
}

/// The identifier of a cluster, written after `did:sol:`.
pub open spec fn cluster_identifier(c: ClusterType) -> Seq<char> {
    match c {
        ClusterType::Testnet => "testnet"@,
        ClusterType::MainnetBeta => ""@,
        ClusterType::Devnet => "devnet"@,
        ClusterType::Development => "localnet"@,
    }
}

impl ClusterType {
    /// The identifier of the cluster, written after `did:sol:`; mainnet has none.
    pub fn did_identifier(&self) -> (r: &'static str)
        ensures
            r@ == cluster_identifier(*self),
    {
        match self {
            ClusterType::Testnet => "testnet",
            ClusterType::MainnetBeta => "",
            ClusterType::Devnet => "devnet",
            ClusterType::Development => "localnet",
        }
    }

    /// The cluster named by `s`, or `InvalidString`.
    pub fn from_identifier(s: &str) -> (r: Result<ClusterType, SolError>)
        ensures
            match r {
                Ok(c) => encode_utf8(s@) == encode_utf8(cluster_identifier(c)),
                Err(e) => e == SolError::InvalidString && forall|c: ClusterType|
                    encode_utf8(s@) != encode_utf8(#[trigger] cluster_identifier(c)),
            },
    {
        let b = s.as_bytes();
        if crate::state::bytes_eq(b, "testnet".as_bytes()) {
            Ok(ClusterType::Testnet)
        } else if crate::state::bytes_eq(b, "".as_bytes()) {
            Ok(ClusterType::MainnetBeta)
        } else if crate::state::bytes_eq(b, "devnet".as_bytes()) {
            Ok(ClusterType::Devnet)
        } else if crate::state::bytes_eq(b, "localnet".as_bytes()) {
            Ok(ClusterType::Development)
        } else {
            Err(SolError::InvalidString)
        }
    }
}

/// A service entry of a first-generation document.
#[derive(Clone, Debug)]
pub struct ServiceEndpoint {
    /// The id of the service within its document.
    pub id: String,
    /// The kind of service.
    pub endpoint_type: String,
    /// Where the service is reached.
    pub endpoint: String,
    /// A description; not carried over by migration.
    pub description: String,
}

/// A key of a first-generation document: always a native Ed25519 key.
#[derive(Clone, Debug)]
pub struct LegacyVerificationMethod {
    /// The id of the key within its document.
    pub id: String,
    /// The kind of key.
    pub verification_type: String,
    /// The key.
    pub pubkey: Vec<u8>,
}

impl PartialEq for ServiceEndpoint {
    fn eq(&self, o: &ServiceEndpoint) -> (r: bool) {
        self.id == o.id && self.endpoint_type == o.endpoint_type && self.endpoint == o.endpoint
            && self.description == o.description
    }
}

impl vstd::std_specs::cmp::PartialEqSpecImpl for ServiceEndpoint {
    open spec fn obeys_eq_spec() -> bool {
        true
    }

    open spec fn eq_spec(&self, o: &ServiceEndpoint) -> bool {
        self.id@ == o.id@ && self.endpoint_type@ == o.endpoint_type@ && self.endpoint@ == o.endpoint@
            && self.description@ == o.description@
    }
}

impl PartialEq for LegacyVerificationMethod {
    fn eq(&self, o: &LegacyVerificationMethod) -> (r: bool) {
        self.id == o.id && self.verification_type == o.verification_type && crate::state::bytes_eq(
            self.pubkey.as_slice(),
            o.pubkey.as_slice(),
        )
    }
}

impl vstd::std_specs::cmp::PartialEqSpecImpl for LegacyVerificationMethod {
    open spec fn obeys_eq_spec() -> bool {
        true
    }

    open spec fn eq_spec(&self, o: &LegacyVerificationMethod) -> bool {
        self.id@ == o.id@ && self.verification_type@ == o.verification_type@ && self.pubkey@ == o.pubkey@
    }
}

/// `lhs` followed by the texts of `rhs` that are not yet in it, in order.
pub open spec fn merged_texts(lhs: Seq<String>, rhs: Seq<String>) -> Seq<String>
    decreases rhs.len(),
{
    if rhs.len() == 0 {
        lhs
    } else {
        let m = merged_texts(lhs, rhs.drop_last());
        if lists(m, rhs.last()@) {
            m
        } else {
            m.push(rhs.last())
        }
    }
}

/// Appends to `lhs` each text of `rhs` that `lhs` does not yet hold.
pub fn merge_strings(lhs: &mut Vec<String>, rhs: Vec<String>)
    ensures
        final(lhs)@ == merged_texts(old(lhs)@, rhs@),
{
    let ghost r0 = rhs@;
    let mut rest = rhs;
    let mut i: usize = 0;
    let total = rest.len();
    assert(r0.subrange(0, 0) =~= Seq::<String>::empty());
    while rest.len() > 0
        invariant
            i <= total,
            r0.len() == total,
            rest@ == r0.subrange(i as int, total as int),
            lhs@ == merged_texts(old(lhs)@, r0.subrange(0, i as int)),
        decreases rest@.len(),
    {
        let v = rest.remove(0);
        assert(v == r0[i as int]);
        let found = strings_contain(lhs, &v);
        assert(r0.subrange(0, i + 1).drop_last() =~= r0.subrange(0, i as int));
        if !found {
            lhs.push(v);
        }
        i = i + 1;
    }
    assert(r0.subrange(0, total as int) =~= r0);
}

/// A first-generation document: keys and the lists of ids that grant each capability.
#[derive(Clone, Debug)]
pub struct LegacyDidAccount {
    /// Version of the layout.
    pub account_version: u8,
    /// The key the document was made for.
    pub authority: Vec<u8>,
    /// Version of the DID method.
    pub version: String,
    /// Keys of the documents that control this one.
    pub controller: Vec<Vec<u8>>,
    /// The keys besides the authority.
    pub verification_method: Vec<LegacyVerificationMethod>,
    /// Ids of the keys that authenticate.
    pub authentication: Vec<String>,
    /// Ids of the keys that may change the document; empty means the authority alone.
    pub capability_invocation: Vec<String>,
    /// Ids of the keys that delegate capabilities.
    pub capability_delegation: Vec<String>,
    /// Ids of the keys used for encryption.
    pub key_agreement: Vec<String>,
    /// Ids of the keys that prove assertions.
    pub assertion_method: Vec<String>,
    /// Services.
    pub service: Vec<ServiceEndpoint>,
}

/// The size a first-generation key takes once migrated.
pub open spec fn legacy_vm_size(vm: LegacyVerificationMethod) -> nat {
    4 + encode_utf8(vm.id@).len() + 2 + 1 + 4 + 32
}

/// The size a first-generation service takes once migrated.
pub open spec fn legacy_service_size(s: ServiceEndpoint) -> nat {
    4 + encode_utf8(s.id@).len() + 4 + encode_utf8(s.endpoint_type@).len() + 4 + encode_utf8(s.endpoint@).len()
}

impl ServiceEndpoint {
    /// The size this service takes once migrated; its description is dropped.
    pub fn post_migration_size(&self) -> (r: usize)
        requires
            legacy_service_size(*self) <= usize::MAX,
        ensures
            r == legacy_service_size(*self),
    {
        4 + self.id.as_str().len() + 4 + self.endpoint_type.as_str().len() + 4 + self.endpoint.as_str().len()
    }
}

impl LegacyVerificationMethod {
    /// The size this key takes once migrated.
    pub fn post_migration_size(&self) -> (r: usize)
        requires
            legacy_vm_size(*self) <= usize::MAX,
        ensures
            r == legacy_vm_size(*self),
    {
        4 + self.id.as_str().len() + 2 + 1 + 4 + 32
    }
}

/// True when some text of `v` is `s`.
pub open spec fn lists(v: Seq<String>, s: Seq<char>) -> bool {
    exists|i: int| 0 <= i < v.len() && (#[trigger] v[i])@ == s
}

/// The flag `flag` when `cond` holds, else none.
pub open spec fn flag_if(cond: bool, flag: u16) -> u16 {
    if cond {
        flag
    } else {
        0
    }
}

fn strings_contain(v: &Vec<String>, s: &String) -> (r: bool)
    ensures
        r == lists(v@, s@),
{
    let mut i: usize = 0;
    while i < v.len()
        invariant
            i <= v@.len(),
            forall|j: int| 0 <= j < i ==> (#[trigger] v@[j])@ != s@,
        decreases v@.len() - i,
    {
        if v[i] == *s {
            return true;
        }
        i = i + 1;
    }
    false
}

impl LegacyDidAccount {
    /// The flags the lists of a first-generation document grant the key with id `f`;
    /// with no capability-invocation list, the default key may invoke capabilities.
    pub open spec fn legacy_flags(self, f: Seq<char>) -> u16 {
        flag_if(lists(self.authentication@, f), AUTHENTICATION)
            | flag_if(lists(self.assertion_method@, f), ASSERTION)
            | flag_if(lists(self.capability_invocation@, f), CAPABILITY_INVOCATION)
            | flag_if(lists(self.capability_delegation@, f), CAPABILITY_DELEGATION)
            | flag_if(lists(self.key_agreement@, f), KEY_AGREEMENT)
            | flag_if(self.capability_invocation@.len() == 0 && f == VM_DEFAULT_FRAGMENT_NAME@, CAPABILITY_INVOCATION)
    }

    /// The flags the lists of this document grant the key with id `vm_fragment`.
    pub fn get_flags(&self, vm_fragment: &String) -> (r: u16)
        ensures
            r == self.legacy_flags(vm_fragment@),
    {
        let a = if strings_contain(&self.authentication, vm_fragment) { AUTHENTICATION } else { 0 };
        let b = if strings_contain(&self.assertion_method, vm_fragment) { ASSERTION } else { 0 };
        let c = if strings_contain(&self.capability_invocation, vm_fragment) { CAPABILITY_INVOCATION } else { 0 };
        let d = if strings_contain(&self.capability_delegation, vm_fragment) { CAPABILITY_DELEGATION } else { 0 };
        let e = if strings_contain(&self.key_agreement, vm_fragment) { KEY_AGREEMENT } else { 0 };
        let default_name = VM_DEFAULT_FRAGMENT_NAME.to_owned();
        let g = if self.capability_invocation.len() == 0 && *vm_fragment == default_name {
            CAPABILITY_INVOCATION
        } else {
            0
        };
        let flags = a | b | c | d | e | g;
        flags
    }

    /// The size of the migrated document, with the account discriminator.
    pub open spec fn migrated_size(self) -> nat {
        76 + sum_of(self.verification_method@, |vm: LegacyVerificationMethod| legacy_vm_size(vm)) + sum_of(
            self.service@,
            |s: ServiceEndpoint| legacy_service_size(s),
        ) + self.controller@.len() * 32 + 8
    }

    /// The size of the migrated document, with the account discriminator.
    pub fn post_migration_size(&self) -> (r: usize)
        requires
            self.migrated_size() <= usize::MAX,
        ensures
            r == self.migrated_size(),
    {
        let ghost fv = |vm: LegacyVerificationMethod| legacy_vm_size(vm);
        let ghost fs = |s: ServiceEndpoint| legacy_service_size(s);
        let mut size: usize = DidAccount::initial_size();
        let mut i: usize = 0;
        assert(self.verification_method@.subrange(0, 0) =~= Seq::<LegacyVerificationMethod>::empty());
        while i < self.verification_method.len()
            invariant
                i <= self.verification_method@.len(),
                self.migrated_size() <= usize::MAX,
                fv == (|vm: LegacyVerificationMethod| legacy_vm_size(vm)),
                fs == (|s: ServiceEndpoint| legacy_service_size(s)),
                size == 76 + sum_of(self.verification_method@.subrange(0, i as int), fv),
            decreases self.verification_method@.len() - i,
        {
            proof {
                lemma_sum_prefix(self.verification_method@, fv, i + 1);
                assert(self.verification_method@.subrange(0, i + 1).drop_last() =~= self.verification_method@.subrange(0, i as int));
            }
            size = size + self.verification_method[i].post_migration_size();
            i = i + 1;
        }
        assert(self.verification_method@.subrange(0, i as int) =~= self.verification_method@);
        let ghost base = size as nat;
        let mut j: usize = 0;
        assert(self.service@.subrange(0, 0) =~= Seq::<ServiceEndpoint>::empty());
        while j < self.service.len()
            invariant
                j <= self.service@.len(),
                self.migrated_size() <= usize::MAX,
                fv == (|vm: LegacyVerificationMethod| legacy_vm_size(vm)),
                fs == (|s: ServiceEndpoint| legacy_service_size(s)),
                base == 76 + sum_of(self.verification_method@, fv),
                size == base + sum_of(self.service@.subrange(0, j as int), fs),
            decreases self.service@.len() - j,
        {
            proof {
                lemma_sum_prefix(self.service@, fs, j + 1);
                assert(self.service@.subrange(0, j + 1).drop_last() =~= self.service@.subrange(0, j as int));
            }
            size = size + self.service[j].post_migration_size();
            j = j + 1;
        }
        assert(self.service@.subrange(0, j as int) =~= self.service@);
        size = size + self.controller.len() * 32;
        size = size + 8;
        size
    }

    /// Merges `other` into this document: its version when it has one, and each entry of
    /// its lists that this document does not hold yet. The authority does not change.
    pub fn merge(&mut self, other: LegacyDidAccount)
        ensures
            final(self).authority == old(self).authority,
            final(self).account_version == old(self).account_version,
            other.version@.len() == 0 ==> final(self).version == old(self).version,
            other.version@.len() != 0 ==> final(self).version == other.version,
            final(self).controller@ == merged(old(self).controller@, other.controller@),
            final(self).verification_method@ == merged(old(self).verification_method@, other.verification_method@),
            final(self).service@ == merged(old(self).service@, other.service@),
            final(self).authentication@ == merged_texts(old(self).authentication@, other.authentication@),
            final(self).capability_invocation@ == merged_texts(old(self).capability_invocation@, other.capability_invocation@),
            final(self).capability_delegation@ == merged_texts(old(self).capability_delegation@, other.capability_delegation@),
            final(self).key_agreement@ == merged_texts(old(self).key_agreement@, other.key_agreement@),
            final(self).assertion_method@ == merged_texts(old(self).assertion_method@, other.assertion_method@),
    {
        let LegacyDidAccount {
            account_version: _,
            authority: _,
            version,
            controller,
            verification_method,
            authentication,
            capability_invocation,
            capability_delegation,
            key_agreement,
            assertion_method,
            service,
        } = other;
        if version.as_str().as_bytes().len() != 0 {
            self.version = version;
        }
        proof {
            broadcast use vstd::std_specs::vec::lemma_vec_obeys_eq_spec;
        }
        merge_vecs(&mut self.controller, controller);
        merge_vecs(&mut self.verification_method, verification_method);
        merge_strings(&mut self.authentication, authentication);
        merge_strings(&mut self.capability_invocation, capability_invocation);
        merge_strings(&mut self.capability_delegation, capability_delegation);
        merge_strings(&mut self.key_agreement, key_agreement);
        merge_strings(&mut self.assertion_method, assertion_method);
        merge_vecs(&mut self.service, service);
    }

    /// True when the id `id` may invoke capabilities: listed in the capability-invocation
    /// list or, when that list is empty, the default key.
    pub open spec fn invokes(self, id: Seq<char>) -> bool {
        if self.capability_invocation@.len() > 0 {
            lists(self.capability_invocation@, id)
        } else {
            id == VM_DEFAULT_FRAGMENT_NAME@
        }
    }

    /// True when `key` may change this document: the authority as the default key, or a
    /// listed key, when its id may invoke capabilities.
    pub open spec fn write_authorized(self, key: Seq<u8>) -> bool {
        (self.invokes(VM_DEFAULT_FRAGMENT_NAME@) && self.authority@ == key) || self.listed_authorized(
            key,
            self.verification_method@.len() as int,
        )
    }

    /// True when one of the first `n` listed keys is `key` and its id may invoke capabilities.
    pub open spec fn listed_authorized(self, key: Seq<u8>, n: int) -> bool {
        exists|i: int|
            0 <= i < n && self.invokes((#[trigger] self.verification_method@[i]).id@)
                && self.verification_method@[i].pubkey@ == key
    }

    /// The ids that may invoke capabilities: the list, or the default key when it is empty.
    pub fn inferred_capability_invocation(&self) -> (r: Vec<String>)
        ensures
            forall|id: Seq<char>| lists(r@, id) == self.invokes(id),
    {
        let mut r: Vec<String> = Vec::new();
        if self.capability_invocation.len() == 0 {
            r.push(VM_DEFAULT_FRAGMENT_NAME.to_owned());
            assert forall|id: Seq<char>| lists(r@, id) == self.invokes(id) by {
                if id == VM_DEFAULT_FRAGMENT_NAME@ {
                    assert(r@[0]@ == id);
                }
            }
            return r;
        }
        let mut i: usize = 0;
        while i < self.capability_invocation.len()
            invariant
                i <= self.capability_invocation@.len(),
                r@.len() == i,
                forall|k: int| 0 <= k < i ==> (#[trigger] r@[k])@ == self.capability_invocation@[k]@,
            decreases self.capability_invocation@.len() - i,
        {
            r.push(self.capability_invocation[i].clone());
            i = i + 1;
        }
        assert forall|id: Seq<char>| lists(r@, id) == self.invokes(id) by {
            if lists(r@, id) {
                let k = choose|k: int| 0 <= k < r@.len() && (#[trigger] r@[k])@ == id;
                assert(self.capability_invocation@[k]@ == id);
            }
            if lists(self.capability_invocation@, id) {
                let k = choose|k: int| 0 <= k < self.capability_invocation@.len()
                    && (#[trigger] self.capability_invocation@[k])@ == id;
                assert(r@[k]@ == id);
            }
        }
        r
    }

    /// The keys that may change this document.
    pub fn write_authorized_pubkeys(&self) -> (r: Vec<Vec<u8>>)
        ensures
            forall|key: Seq<u8>| #[trigger] holds_key(r@, key) == self.write_authorized(key),
    {
        let invocation = self.inferred_capability_invocation();
        let default_name = VM_DEFAULT_FRAGMENT_NAME.to_owned();
        let mut r: Vec<Vec<u8>> = Vec::new();
        let default_invokes = strings_contain(&invocation, &default_name);
        if default_invokes {
            r.push(copy_bytes(self.authority.as_slice()));
        }
        let mut i: usize = 0;
        while i < self.verification_method.len()
            invariant
                i <= self.verification_method@.len(),
                forall|id: Seq<char>| lists(invocation@, id) == self.invokes(id),
                default_invokes == self.invokes(VM_DEFAULT_FRAGMENT_NAME@),
                default_invokes ==> r@.len() >= 1 && r@[0]@ == self.authority@,
                forall|key: Seq<u8>| #[trigger] holds_key(r@, key) == (
                    (default_invokes && self.authority@ == key) || self.listed_authorized(key, i as int)),
            decreases self.verification_method@.len() - i,
        {
            let vm = &self.verification_method[i];
            let ghost before = r@;
            if strings_contain(&invocation, &vm.id) {
                r.push(copy_bytes(vm.pubkey.as_slice()));
                assert forall|key: Seq<u8>| #[trigger] holds_key(r@, key) == (
                    (default_invokes && self.authority@ == key) || self.listed_authorized(key, i + 1)) by {
                    if holds_key(r@, key) {
                        let k = choose|k: int| 0 <= k < r@.len() && (#[trigger] r@[k])@ == key;
                        if k < before.len() {
                            assert(before[k]@ == key);
                            assert(holds_key(before, key));
                            if self.listed_authorized(key, i as int) {
                                let j = choose|j: int| 0 <= j < i && self.invokes((#[trigger] self.verification_method@[j]).id@)
                                    && self.verification_method@[j].pubkey@ == key;
                                assert(self.listed_authorized(key, i + 1));
                            }
                        } else {
                            assert(self.verification_method@[i as int].pubkey@ == key);
                            assert(self.listed_authorized(key, i + 1));
                        }
                    }
                    if self.listed_authorized(key, i + 1) {
                        let j = choose|j: int| 0 <= j < i + 1 && self.invokes((#[trigger] self.verification_method@[j]).id@)
                            && self.verification_method@[j].pubkey@ == key;
                        if j == i {
                            assert(r@[before.len() as int]@ == key);
                        } else {
                            assert(self.listed_authorized(key, i as int));
                            assert(holds_key(before, key));
                            let k = choose|k: int| 0 <= k < before.len() && (#[trigger] before[k])@ == key;
                            assert(r@[k]@ == key);
                        }
                    }
                    if default_invokes && self.authority@ == key {
                        assert(r@[0]@ == key);
                    }
                }
            } else {
                assert forall|key: Seq<u8>| #[trigger] holds_key(r@, key) == (
                    (default_invokes && self.authority@ == key) || self.listed_authorized(key, i + 1)) by {
                    if self.listed_authorized(key, i + 1) {
                        let j = choose|j: int| 0 <= j < i + 1 && self.invokes((#[trigger] self.verification_method@[j]).id@)
                            && self.verification_method@[j].pubkey@ == key;
                        assert(j != i);
                        assert(self.listed_authorized(key, i as int));
                    }
                    if self.listed_authorized(key, i as int) {
                        let j = choose|j: int| 0 <= j < i && self.invokes((#[trigger] self.verification_method@[j]).id@)
                            && self.verification_method@[j].pubkey@ == key;
                        assert(self.listed_authorized(key, i + 1));
                    }
                }
            }
            i = i + 1;
        }
        r
    }

    /// True when `key` may change this document.
    pub fn is_authority(&self, key: &[u8]) -> (r: bool)
        ensures
            r == self.write_authorized(key@),
    {
        let keys = self.write_authorized_pubkeys();
        let mut i: usize = 0;
        while i < keys.len()
            invariant
                i <= keys@.len(),
                forall|k: int| 0 <= k < i ==> (#[trigger] keys@[k])@ != key@,
                forall|k: Seq<u8>| #[trigger] holds_key(keys@, k) == self.write_authorized(k),
            decreases keys@.len() - i,
        {
            if crate::state::bytes_eq(keys[i].as_slice(), key) {
                assert(holds_key(keys@, key@));
                return true;
            }
            i = i + 1;
        }
        assert(!holds_key(keys@, key@));
        false
    }

    /// The migrated form of each key: same id, an Ed25519 key, the flags its lists grant.
    pub fn migrate_verification_methods(&self) -> (r: Vec<VerificationMethod>)
        ensures
            r@.len() == self.verification_method@.len(),
            forall|i: int| 0 <= i < r@.len() ==> {
                &&& (#[trigger] r@[i]).fragment@ == self.verification_method@[i].id@
                &&& r@[i].flags == self.legacy_flags(self.verification_method@[i].id@)
                &&& r@[i].method_type == 0
                &&& r@[i].key_data@ == self.verification_method@[i].pubkey@
            },
    {
        let mut r: Vec<VerificationMethod> = Vec::new();
        let mut i: usize = 0;
        while i < self.verification_method.len()
            invariant
                i <= self.verification_method@.len(),
                r@.len() == i,
                forall|k: int| 0 <= k < i ==> {
                    &&& (#[trigger] r@[k]).fragment@ == self.verification_method@[k].id@
                    &&& r@[k].flags == self.legacy_flags(self.verification_method@[k].id@)
                    &&& r@[k].method_type == 0
                    &&& r@[k].key_data@ == self.verification_method@[k].pubkey@
                },
            decreases self.verification_method@.len() - i,
        {
            let vm = &self.verification_method[i];
            r.push(VerificationMethod {
                fragment: vm.id.clone(),
                method_type: 0,
                flags: self.get_flags(&vm.id),
                key_data: copy_bytes(vm.pubkey.as_slice()),
            });
            i = i + 1;
        }
        r
    }

    /// The migrated form of each service; descriptions are dropped.
    pub fn migrate_services(&self) -> (r: Vec<Service>)
        ensures
            r@.len() == self.service@.len(),
            forall|i: int| 0 <= i < r@.len() ==> {
                &&& (#[trigger] r@[i]).fragment == self.service@[i].id
                &&& r@[i].service_type == self.service@[i].endpoint_type
                &&& r@[i].service_endpoint == self.service@[i].endpoint
            },
    {
        let mut r: Vec<Service> = Vec::new();
        let mut i: usize = 0;
        while i < self.service.len()
            invariant
                i <= self.service@.len(),
                r@.len() == i,
                forall|k: int| 0 <= k < i ==> {
                    &&& (#[trigger] r@[k]).fragment == self.service@[k].id
                    &&& r@[k].service_type == self.service@[k].endpoint_type
                    &&& r@[k].service_endpoint == self.service@[k].endpoint
                },
            decreases self.service@.len() - i,
        {
            let se = &self.service[i];
            r.push(Service {
                fragment: se.id.clone(),
                service_type: se.endpoint_type.clone(),
                service_endpoint: se.endpoint.clone(),
            });
            i = i + 1;
        }
        r
    }

    /// Migrates this document into `into`: the authority becomes the initial method,
    /// with the flags its lists grant plus ownership proof and protection; the keys,
    /// services and controllers follow.
    pub fn migrate(&self, into: &mut DidAccount, bump: u8) -> (r: Result<(), DidSolError>)
        ensures
            !keys_unique(self.verification_method@, legacy_id())
                ==> r == Err::<(), DidSolError>(DidSolError::VmFragmentAlreadyInUse),
            keys_unique(self.verification_method@, legacy_id()) && !keys_unique(self.service@, endpoint_id())
                ==> r == Err::<(), DidSolError>(DidSolError::ServiceFragmentAlreadyInUse),
            keys_unique(self.verification_method@, legacy_id()) && keys_unique(self.service@, endpoint_id())
                ==> if has_key(self.controller@, bytes_view(), self.authority@) {
                r == Err::<(), DidSolError>(DidSolError::InvalidNativeControllers)
            } else {
                r is Ok
            },
            r is Ok ==> {
                &&& final(into).version == 0
                &&& final(into).bump == bump
                &&& final(into).nonce == 0
                &&& final(into).initial_verification_method.key_data@ == self.authority@
                &&& final(into).initial_verification_method.method_type == 0
                &&& final(into).services@.len() == self.service@.len()
            },
            r is Ok ==> forall|i: int| 0 <= i < self.service@.len() ==> {
                &&& (#[trigger] final(into).services@[i]).fragment == self.service@[i].id
                &&& final(into).services@[i].service_type == self.service@[i].endpoint_type
                &&& final(into).services@[i].service_endpoint == self.service@[i].endpoint
            },
            r is Ok ==> final(into).native_controllers@.map_values(bytes_view())
                == first_by(self.controller@, bytes_view()).map_values(bytes_view()),
            r is Ok && keys_unique(self.controller@, bytes_view()) ==> final(into).native_controllers@.map_values(
                bytes_view(),
            ) == self.controller@.map_values(bytes_view()),
            r is Ok && !lists_default(self.verification_method@) ==> {
                &&& final(into).initial_verification_method.fragment@ == VM_DEFAULT_FRAGMENT_NAME@
                &&& final(into).initial_verification_method.flags
                    == self.legacy_flags(VM_DEFAULT_FRAGMENT_NAME@) | OWNERSHIP_PROOF | PROTECTED
                &&& final(into).verification_methods@.len() == self.verification_method@.len()
                &&& forall|i: int| 0 <= i < self.verification_method@.len() ==> {
                    &&& (#[trigger] final(into).verification_methods@[i]).fragment@ == self.verification_method@[i].id@
                    &&& final(into).verification_methods@[i].flags == self.legacy_flags(self.verification_method@[i].id@)
                    &&& final(into).verification_methods@[i].method_type == 0
                    &&& final(into).verification_methods@[i].key_data@ == self.verification_method@[i].pubkey@
                }
            },
    {
        let default_name = VM_DEFAULT_FRAGMENT_NAME.to_owned();
        let default_flags = self.get_flags(&default_name) | OWNERSHIP_PROOF | PROTECTED;
        into.init(bump, self.authority.as_slice(), default_flags);
        let migrated = self.migrate_verification_methods();
        let ghost init = into.initial_verification_method;
        proof {
            assert forall|i: int| 0 <= i < migrated@.len() implies known_bits((#[trigger] migrated@[i]).flags)
                && known_type(migrated@[i].method_type) && !guarded(migrated@[i].flags) by {
                lemma_legacy_flags_plain(*self, self.verification_method@[i].id@);
            }
            lemma_incoming_accepted(migrated@);
            assert(Seq::<VerificationMethod>::empty() + migrated@ =~= migrated@);
            lemma_keys_unique_pointwise(migrated@, vm_fragment(), self.verification_method@, legacy_id());
        }
        match into.set_verification_methods(Vec::new(), migrated) {
            Ok(()) => {},
            Err(e) => {
                return Err(e);
            },
        }
        proof {
            let ms = Seq::<VerificationMethod>::empty() + migrated@;
            if !lists_default(self.verification_method@) {
                assert forall|i: int| !crate::state::first_fragment(ms, init.fragment@, i) by {
                    if 0 <= i < ms.len() {
                        assert(ms[i].fragment@ == self.verification_method@[i].id@);
                    }
                }
                if crate::state::has_fragment(ms, init.fragment@) {
                    let i = choose|i: int| crate::state::first_fragment(ms, init.fragment@, i)
                        && into.initial_verification_method == crate::state::with_flags(init, ms[i].flags)
                        && into.verification_methods@ == ms.remove(i);
                }
            }
        }
        let services = self.migrate_services();
        proof {
            crate::seqs::lemma_first_by(services@, service_fragment());
            lemma_keys_unique_pointwise(services@, service_fragment(), self.service@, endpoint_id());
        }
        match into.set_services(services, false) {
            Ok(()) => {},
            Err(e) => {
                return Err(e);
            },
        }
        let mut controllers: Vec<Vec<u8>> = Vec::new();
        let mut i: usize = 0;
        while i < self.controller.len()
            invariant
                i <= self.controller@.len(),
                controllers@.len() == i,
                forall|k: int| 0 <= k < i ==> bytes_view()(#[trigger] controllers@[k]) == bytes_view()(self.controller@[k]),
            decreases self.controller@.len() - i,
        {
            controllers.push(copy_bytes(self.controller[i].as_slice()));
            i = i + 1;
        }
        proof {
            lemma_has_key_pointwise(controllers@, bytes_view(), self.controller@, bytes_view(), self.authority@);
            lemma_first_by_pointwise(controllers@, bytes_view(), self.controller@, bytes_view());
            crate::seqs::lemma_first_by(self.controller@, bytes_view());
        }
        into.set_native_controllers(controllers)
    }
}

/// True when some key of `s` is `key`.
pub open spec fn holds_key(s: Seq<Vec<u8>>, key: Seq<u8>) -> bool {
    exists|i: int| 0 <= i < s.len() && (#[trigger] s[i])@ == key
}

/// The id of a first-generation key.
pub open spec fn legacy_id() -> spec_fn(LegacyVerificationMethod) -> Seq<char> {
    |vm: LegacyVerificationMethod| vm.id@
}

/// The id of a first-generation service.
pub open spec fn endpoint_id() -> spec_fn(ServiceEndpoint) -> Seq<char> {
    |s: ServiceEndpoint| s.id@
}

/// No incoming method with known flags and key type and without a guarded flag is refused.
proof fn lemma_incoming_accepted(s: Seq<VerificationMethod>)
    requires
        forall|i: int| 0 <= i < s.len() ==> known_bits((#[trigger] s[i]).flags) && known_type(s[i].method_type)
            && !guarded(s[i].flags),
    ensures
        incoming_error(s) is None,
    decreases s.len(),
{
    if s.len() > 0 {
        assert forall|i: int| 0 <= i < s.drop_first().len() implies known_bits((#[trigger] s.drop_first()[i]).flags)
            && known_type(s.drop_first()[i].method_type) && !guarded(s.drop_first()[i].flags) by {
            assert(s.drop_first()[i] == s[i + 1]);
        }
        lemma_incoming_accepted(s.drop_first());
    }
}

/// The flags a first-generation document grants are known and never guarded.
proof fn lemma_legacy_flags_plain(l: LegacyDidAccount, f: Seq<char>)
    ensures
        known_bits(l.legacy_flags(f)),
        !guarded(l.legacy_flags(f)),
{
    let a = flag_if(lists(l.authentication@, f), AUTHENTICATION);
    let b = flag_if(lists(l.assertion_method@, f), ASSERTION);
    let c = flag_if(lists(l.capability_invocation@, f), CAPABILITY_INVOCATION);
    let d = flag_if(lists(l.capability_delegation@, f), CAPABILITY_DELEGATION);
    let e = flag_if(lists(l.key_agreement@, f), KEY_AGREEMENT);
    let g = flag_if(l.capability_invocation@.len() == 0 && f == VM_DEFAULT_FRAGMENT_NAME@, CAPABILITY_INVOCATION);
    let x = a | b | c | d | e | g;
    assert(x & !255u16 == 0 && x & (64u16 | 128u16) == 0) by (bit_vector)
        requires
            a == 0 || a == 1,
            b == 0 || b == 2,
            c == 0 || c == 8,
            d == 0 || d == 16,
            e == 0 || e == 4,
            g == 0 || g == 8,
            x == a | b | c | d | e | g,
    ;
}

/// True when some first-generation key has the default id.
pub open spec fn lists_default(s: Seq<LegacyVerificationMethod>) -> bool {
    exists|i: int| 0 <= i < s.len() && (#[trigger] s[i]).id@ == VM_DEFAULT_FRAGMENT_NAME@
}

/// `lhs` followed by the elements of `rhs` that are not yet in it, in order.
pub open spec fn merged<T: PartialEq>(lhs: Seq<T>, rhs: Seq<T>) -> Seq<T>
    decreases rhs.len(),
{
    if rhs.len() == 0 {
        lhs
    } else {
        let m = merged(lhs, rhs.drop_last());
        if exists|k: int| 0 <= k < m.len() && (#[trigger] m[k]).eq_spec(&rhs.last()) {
            m
        } else {
            m.push(rhs.last())
        }
    }
}

/// Appends to `lhs` each element of `rhs` that `lhs` does not yet hold.
pub fn merge_vecs<T: PartialEq>(lhs: &mut Vec<T>, rhs: Vec<T>)
    ensures
        T::obeys_eq_spec() ==> final(lhs)@ == merged(old(lhs)@, rhs@),
{
    let ghost r0 = rhs@;
    let mut rest = rhs;
    let mut i: usize = 0;
    let total = rest.len();
    assert(r0.subrange(0, 0) =~= Seq::<T>::empty());
    while rest.len() > 0
        invariant
            i <= total,
            r0.len() == total,
            rest@ == r0.subrange(i as int, total as int),
            T::obeys_eq_spec() ==> lhs@ == merged(old(lhs)@, r0.subrange(0, i as int)),
        decreases rest@.len(),
    {
        let v = rest.remove(0);
        assert(v == r0[i as int]);
        let ghost m = lhs@;
        let mut found = false;
        let mut k: usize = 0;
        while k < lhs.len()
            invariant
                lhs@ == m,
                k <= m.len(),
                T::obeys_eq_spec() ==> (found <==> exists|j: int| 0 <= j < k && (#[trigger] m[j]).eq_spec(&v)),
            decreases m.len() - k,
        {
            if lhs[k] == v {
                found = true;
            }
            k = k + 1;
        }
        assert(r0.subrange(0, i + 1).drop_last() =~= r0.subrange(0, i as int));
        if !found {
            lhs.push(v);
        }
        i = i + 1;
    }
    assert(r0.subrange(0, total as int) =~= r0);
}

/// Errors of the first-generation authority check.
#[derive(Clone, Copy, Debug, PartialEq, Eq, Structural)]
pub enum LegacyAuthorityError {
    /// An account in the chain is owned by neither the registry nor the system program,
    /// or a generative account was asked for a controller.
    IncorrectProgramId,
    /// A document does not list the next account of the chain as a controller.
    IncorrectController,
    /// The signer is not an authority of the document.
    IncorrectAuthority,
    /// A stored document has a layout version other than one.
    InvalidAccountVersion,
    /// A generative account already holds data.
    AccountAlreadyInitialized,
    /// The signer's key derives the generative account but did not sign.
    MissingRequiredSignature,
    /// The signer's key does not derive the generative account.
    InvalidArgument,
}

/// Who owns a first-generation account, and what it holds.
pub enum LegacyOwner {
    /// The registry owns it: a stored document.
    Registry(LegacyDidAccount),
    /// The system program owns it: a generative account, which should hold no data.
    System {
        /// True when the account holds no data.
        data_is_empty: bool,
    },
    /// Any other program.
    Other,
}

/// A first-generation account: its address and owner.
pub struct LegacyAccount {
    /// The address of the account.
    pub key: Vec<u8>,
    /// Its owner and content.
    pub owner: LegacyOwner,
}

/// True when the document lists a controller whose address is `address`.
pub open spec fn lists_controller(doc: LegacyDidAccount, address: Seq<u8>) -> bool {
    exists|i: int| 0 <= i < doc.controller@.len() && legacy_address((#[trigger] doc.controller@[i])@) == Some(address)
}

/// The error walking up a chain meets: each account but the last must hold a document
/// of version one that lists the next account as a controller.
pub open spec fn walk_error(pda: LegacyAccount, chain: Seq<LegacyAccount>) -> Option<LegacyAuthorityError>
    decreases chain.len(),
{
    if chain.len() == 0 {
        None
    } else {
        match pda.owner {
            LegacyOwner::Registry(doc) => if doc.account_version != 1 {
                Some(LegacyAuthorityError::InvalidAccountVersion)
            } else if !lists_controller(doc, chain[0].key@) {
                Some(LegacyAuthorityError::IncorrectController)
            } else {
                walk_error(chain[0], chain.drop_first())
            },
            _ => Some(LegacyAuthorityError::IncorrectProgramId),
        }
    }
}

/// The answer for the account the chain ends at.
pub open spec fn final_check(last: LegacyAccount, signer: Seq<u8>, is_signer: bool) -> Result<(), LegacyAuthorityError> {
    match last.owner {
        LegacyOwner::Registry(doc) => if doc.account_version != 1 {
            Err(LegacyAuthorityError::InvalidAccountVersion)
        } else if is_signer && doc.write_authorized(signer) {
            Ok(())
        } else {
            Err(LegacyAuthorityError::IncorrectAuthority)
        },
        LegacyOwner::System { data_is_empty } => if !data_is_empty {
            Err(LegacyAuthorityError::AccountAlreadyInitialized)
        } else if legacy_address(signer) == Some(last.key@) {
            if is_signer {
                Ok(())
            } else {
                Err(LegacyAuthorityError::MissingRequiredSignature)
            }
        } else {
            Err(LegacyAuthorityError::InvalidArgument)
        },
        LegacyOwner::Other => Err(LegacyAuthorityError::IncorrectProgramId),
    }
}

/// True when some controller of `doc` has the address `address`.
fn has_controller_address(doc: &LegacyDidAccount, address: &[u8]) -> (r: bool)
    ensures
        r == lists_controller(*doc, address@),
{
    let mut i: usize = 0;
    while i < doc.controller.len()
        invariant
            i <= doc.controller@.len(),
            forall|k: int| 0 <= k < i ==> legacy_address((#[trigger] doc.controller@[k])@) != Some(address@),
        decreases doc.controller@.len() - i,
    {
        match get_sol_address_with_seed(doc.controller[i].as_slice()) {
            Some((a, _)) => {
                if crate::state::bytes_eq(a.as_slice(), address) {
                    return true;
                }
            },
            None => {},
        }
        i = i + 1;
    }
    false
}

/// The answer for the account the chain ends at.
fn check_final(last: &LegacyAccount, signer: &[u8], is_signer: bool) -> (r: Result<(), LegacyAuthorityError>)
    ensures
        r == final_check(*last, signer@, is_signer),
{
    match &last.owner {
        LegacyOwner::Registry(doc) => {
            if doc.account_version != 1 {
                Err(LegacyAuthorityError::InvalidAccountVersion)
            } else if is_signer && doc.is_authority(signer) {
                Ok(())
            } else {
                Err(LegacyAuthorityError::IncorrectAuthority)
            }
        },
        LegacyOwner::System { data_is_empty } => {
            if !*data_is_empty {
                return Err(LegacyAuthorityError::AccountAlreadyInitialized);
            }
            let derived = match get_sol_address_with_seed(signer) {
                Some((a, _)) => crate::state::bytes_eq(a.as_slice(), last.key.as_slice()),
                None => false,
            };
            if derived {
                if is_signer {
                    Ok(())
                } else {
                    Err(LegacyAuthorityError::MissingRequiredSignature)
                }
            } else {
                Err(LegacyAuthorityError::InvalidArgument)
            }
        },
        LegacyOwner::Other => Err(LegacyAuthorityError::IncorrectProgramId),
    }
}

/// Checks that `signer` may act for the document at `did_pda`, directly or up the chain
/// `controller_accounts`: `did_pda` lists the first as a controller, that one the
/// second, and so on; the signer must then be an authority of the last. A generative
/// account has no controllers; its only authority is the key that derives it.
pub fn validate_owner(
    did_pda: &LegacyAccount,
    signer: &[u8],
    signer_is_signer: bool,
    controller_accounts: &[LegacyAccount],
) -> (r: Result<(), LegacyAuthorityError>)
    ensures
        r == match walk_error(*did_pda, controller_accounts@) {
            Some(e) => Err(e),
            None => final_check(
                if controller_accounts@.len() == 0 {
                    *did_pda
                } else {
                    controller_accounts@.last()
                },
                signer@,
                signer_is_signer,
            ),
        },
{
    let ghost chain = controller_accounts@;
    let n = controller_accounts.len();
    let mut verify = did_pda;
    let mut i: usize = 0;
    assert(chain.subrange(0, n as int) =~= chain);
    while i < n
        invariant
            n == chain.len(),
            chain == controller_accounts@,
            i <= n,
            i == 0 ==> *verify == *did_pda,
            i > 0 ==> *verify == chain[i - 1],
            walk_error(*did_pda, chain) == walk_error(*verify, chain.subrange(i as int, n as int)),
        decreases n - i,
    {
        let ghost rest = chain.subrange(i as int, n as int);
        assert(rest[0] == chain[i as int]);
        assert(rest.drop_first() =~= chain.subrange(i + 1, n as int));
        match &verify.owner {
            LegacyOwner::Registry(doc) => {
                if doc.account_version != 1 {
                    return Err(LegacyAuthorityError::InvalidAccountVersion);
                }
                if !has_controller_address(doc, controller_accounts[i].key.as_slice()) {
                    return Err(LegacyAuthorityError::IncorrectController);
                }
            },
            _ => {
                return Err(LegacyAuthorityError::IncorrectProgramId);
            },
        }
        verify = &controller_accounts[i];
        i = i + 1;
    }
    assert(chain.subrange(n as int, n as int).len() == 0);
    check_final(verify, signer, signer_is_signer)
}

} // verus!
