use sol_did::codec::{encode_string, encode_verification_method, signed_message};
use sol_did::eth::{decimal, eth_signed_message_input, u64_le_bytes};
use sol_did::flags::{VerificationMethodFlags, VerificationMethodType, ASSERTION, CAPABILITY_INVOCATION, OWNERSHIP_PROOF, PROTECTED};
use sol_did::derive::get_sol_address_with_seed;
use sol_did::legacy::{
    merge_vecs, validate_owner, ClusterType, LegacyAccount, LegacyAuthorityError, LegacyDidAccount, LegacyOwner,
    LegacyVerificationMethod, ServiceEndpoint,
};
use sol_did::state::{DidAccount, Service, VerificationMethod};
use sol_did::utils::{check_other_controllers, is_did_prefix, is_did_sol_prefix};

#[test]
fn string_encoding_is_length_prefixed() {
    assert_eq!(encode_string(&"ab".to_string()), vec![2, 0, 0, 0, 97, 98]);
    assert_eq!(encode_string(&String::new()), vec![0, 0, 0, 0]);
}

#[test]
fn method_encoding() {
    let vm = VerificationMethod { fragment: "k".to_string(), flags: 0x0108, method_type: 2, key_data: vec![9, 8] };
    assert_eq!(encode_verification_method(&vm), vec![1, 0, 0, 0, 107, 8, 1, 2, 2, 0, 0, 0, 9, 8]);
}

#[test]
fn service_message_ends_with_overwrite_byte() {
    let s = Service { fragment: "a".to_string(), service_type: "b".to_string(), service_endpoint: "c".to_string() };
    assert_eq!(signed_message(&s, true), vec![1, 0, 0, 0, 97, 1, 0, 0, 0, 98, 1, 0, 0, 0, 99, 1]);
    assert_eq!(*signed_message(&s, false).last().unwrap(), 0);
}

#[test]
fn ethereum_message_input() {
    let mut expected = b"\x19Ethereum Signed Message:\n10hi".to_vec();
    expected.extend_from_slice(&[1, 0, 0, 0, 0, 0, 0, 0]);
    assert_eq!(eth_signed_message_input(b"hi", 1), expected);
    assert_ne!(eth_signed_message_input(b"hi", 1), eth_signed_message_input(b"hi", 2));
}

#[test]
fn decimal_and_little_endian() {
    assert_eq!(decimal(0), b"0".to_vec());
    assert_eq!(decimal(1234), b"1234".to_vec());
    assert_eq!(decimal(usize::MAX), usize::MAX.to_string().into_bytes());
    assert_eq!(u64_le_bytes(0x0102030405060708), vec![8, 7, 6, 5, 4, 3, 2, 1]);
}

#[test]
fn flag_sets() {
    assert!(VerificationMethodFlags::from_bits(255).is_some());
    assert!(VerificationMethodFlags::from_bits(256).is_none());
    let f = VerificationMethodFlags::from_bits(CAPABILITY_INVOCATION | ASSERTION).unwrap();
    let ci = VerificationMethodFlags::from_bits(CAPABILITY_INVOCATION).unwrap();
    let guarded = VerificationMethodFlags::from_bits(OWNERSHIP_PROOF | PROTECTED).unwrap();
    assert!(f.contains(ci));
    assert!(!ci.contains(f));
    assert!(!f.intersects(guarded));
    assert_eq!(f.union(guarded).bits(), 0xca);
    assert_eq!(VerificationMethodType::from_u8(2), Some(VerificationMethodType::EcdsaSecp256k1VerificationKey2019));
    assert_eq!(VerificationMethodType::from_u8(3), None);
    assert_eq!(VerificationMethodType::EcdsaSecp256k1RecoveryMethod2020.to_u8(), 1);
    assert_eq!(VerificationMethodType::authority_types().len(), 3);
}

#[test]
fn did_prefixes() {
    assert!(is_did_prefix("did:web:x"));
    assert!(!is_did_prefix("di"));
    assert!(is_did_sol_prefix("did:sol:abc"));
    assert!(!is_did_sol_prefix("did:so"));
    assert!(check_other_controllers(&["did:web:x".to_string(), "did:key:z".to_string()]));
    assert!(!check_other_controllers(&["did:web:x".to_string(), "did:sol:z".to_string()]));
    assert!(check_other_controllers(&[]));
}

#[test]
fn cluster_identifiers() {
    assert_eq!(ClusterType::Testnet.did_identifier(), "testnet");
    assert_eq!(ClusterType::MainnetBeta.did_identifier(), "");
    assert_eq!(ClusterType::Devnet.did_identifier(), "devnet");
    assert_eq!(ClusterType::Development.did_identifier(), "localnet");
    assert_eq!(ClusterType::from_identifier("devnet"), Ok(ClusterType::Devnet));
    assert!(ClusterType::from_identifier("moon").is_err());
}

#[test]
fn merging_keeps_first_occurrences() {
    let mut lhs = vec![1, 2];
    merge_vecs(&mut lhs, vec![2, 3, 3, 1, 4]);
    assert_eq!(lhs, vec![1, 2, 3, 4]);
}

fn legacy(capability_invocation: Vec<String>) -> LegacyDidAccount {
    LegacyDidAccount {
        account_version: 1,
        authority: vec![5u8; 32],
        version: "1".to_string(),
        controller: vec![vec![6u8; 32]],
        verification_method: vec![LegacyVerificationMethod {
            id: "key1".to_string(),
            verification_type: "Ed25519VerificationKey2018".to_string(),
            pubkey: vec![7u8; 32],
        }],
        authentication: vec!["default".to_string(), "key1".to_string()],
        capability_invocation,
        capability_delegation: vec![],
        key_agreement: vec![],
        assertion_method: vec!["key1".to_string()],
        service: vec![ServiceEndpoint {
            id: "svc".to_string(),
            endpoint_type: "hub".to_string(),
            endpoint: "https://hub".to_string(),
            description: "dropped".to_string(),
        }],
    }
}

#[test]
fn legacy_flags_infer_default_invocation() {
    let l = legacy(vec![]);
    assert_eq!(l.get_flags(&"default".to_string()), 1 | 8);
    assert_eq!(l.get_flags(&"key1".to_string()), 1 | 2);
    let l = legacy(vec!["key1".to_string()]);
    assert_eq!(l.get_flags(&"default".to_string()), 1);
    assert_eq!(l.get_flags(&"key1".to_string()), 1 | 2 | 8);
}

#[test]
fn legacy_migration() {
    let l = legacy(vec![]);
    let mut into = DidAccount::new(0, &[0u8; 32]);
    assert_eq!(l.migrate(&mut into, 200), Ok(()));
    assert_eq!(into.bump, 200);
    assert_eq!(into.initial_verification_method.key_data, vec![5u8; 32]);
    assert_eq!(into.initial_verification_method.flags, 1 | 8 | 64 | 128);
    assert_eq!(into.verification_methods.len(), 1);
    assert_eq!(into.verification_methods[0].fragment, "key1");
    assert_eq!(into.verification_methods[0].flags, 1 | 2);
    assert_eq!(into.services[0].service_endpoint, "https://hub");
    assert_eq!(into.native_controllers, vec![vec![6u8; 32]]);
}

#[test]
fn serialized_sizes() {
    let vm = VerificationMethod { fragment: "k".to_string(), flags: 8, method_type: 0, key_data: vec![1, 2] };
    assert_eq!(vm.size(), 14);
    assert_eq!(VerificationMethod::default_size(), 50);
    let s = Service { fragment: "a".to_string(), service_type: "b".to_string(), service_endpoint: "c".to_string() };
    assert_eq!(s.size(), 15);
    let mut d = DidAccount::new(1, &[3u8; 32]);
    assert_eq!(d.size(), DidAccount::initial_size());
    d.verification_methods.push(vm);
    d.services.push(s);
    d.native_controllers.push(vec![4u8; 32]);
    d.other_controllers.push("did:x".to_string());
    assert_eq!(d.size(), 146);
}

#[test]
fn legacy_sizes_and_authorities() {
    let l = legacy(vec![]);
    assert_eq!(l.verification_method[0].post_migration_size(), 47);
    assert_eq!(l.service[0].post_migration_size(), 29);
    assert_eq!(l.post_migration_size(), 192);
    assert_eq!(l.inferred_capability_invocation(), vec!["default".to_string()]);
    assert_eq!(l.write_authorized_pubkeys(), vec![vec![5u8; 32]]);
    assert!(l.is_authority(&[5u8; 32]));
    assert!(!l.is_authority(&[7u8; 32]));

    let l = legacy(vec!["key1".to_string()]);
    assert_eq!(l.write_authorized_pubkeys(), vec![vec![7u8; 32]]);
    assert!(!l.is_authority(&[5u8; 32]));
    assert!(l.is_authority(&[7u8; 32]));
}

#[test]
fn services_keep_the_first_of_each_fragment() {
    let mut d = DidAccount::new(1, &[3u8; 32]);
    let first = Service { fragment: "s".to_string(), service_type: "t".to_string(), service_endpoint: "1".to_string() };
    let second = Service { fragment: "s".to_string(), service_type: "t".to_string(), service_endpoint: "2".to_string() };
    assert_eq!(
        d.set_services(vec![first.clone(), second.clone()], false),
        Err(sol_did::errors::DidSolError::ServiceFragmentAlreadyInUse)
    );
    assert!(d.services.is_empty());
    assert_eq!(d.set_services(vec![first, second], true), Ok(()));
    assert_eq!(d.services.len(), 1);
    assert_eq!(d.services[0].service_endpoint, "1");
}

#[test]
fn bulk_methods_must_have_distinct_fragments() {
    let mut d = DidAccount::new(1, &[3u8; 32]);
    let a = VerificationMethod { fragment: "a".to_string(), flags: 1, method_type: 0, key_data: vec![1] };
    let b = VerificationMethod { fragment: "a".to_string(), flags: 2, method_type: 0, key_data: vec![2] };
    assert_eq!(
        d.set_verification_methods(vec![], vec![a.clone(), b]),
        Err(sol_did::errors::DidSolError::VmFragmentAlreadyInUse)
    );
    let def = VerificationMethod { fragment: "default".to_string(), flags: 9, method_type: 0, key_data: vec![3u8; 32] };
    assert_eq!(d.set_verification_methods(vec![a], vec![def]), Ok(()));
    assert_eq!(d.initial_verification_method.flags, 9);
    assert_eq!(d.verification_methods.len(), 1);
    assert_eq!(d.verification_methods[0].fragment, "a");
}

fn legacy_doc(authority: Vec<u8>, controller: Vec<Vec<u8>>) -> LegacyDidAccount {
    let mut l = legacy(vec![]);
    l.authority = authority;
    l.controller = controller;
    l
}

fn pda(key: &[u8]) -> Vec<u8> {
    get_sol_address_with_seed(key).unwrap().0
}

#[test]
fn legacy_generative_owner() {
    let signer = vec![21u8; 32];
    let account = LegacyAccount { key: pda(&signer), owner: LegacyOwner::System { data_is_empty: true } };
    assert_eq!(validate_owner(&account, &signer, true, &[]), Ok(()));
    assert_eq!(validate_owner(&account, &signer, false, &[]), Err(LegacyAuthorityError::MissingRequiredSignature));
    assert_eq!(validate_owner(&account, &[22u8; 32], true, &[]), Err(LegacyAuthorityError::InvalidArgument));
    let full = LegacyAccount { key: pda(&signer), owner: LegacyOwner::System { data_is_empty: false } };
    assert_eq!(validate_owner(&full, &signer, true, &[]), Err(LegacyAuthorityError::AccountAlreadyInitialized));
    let other = LegacyAccount { key: pda(&signer), owner: LegacyOwner::Other };
    assert_eq!(validate_owner(&other, &signer, true, &[]), Err(LegacyAuthorityError::IncorrectProgramId));
}

#[test]
fn legacy_controller_chain() {
    let a = vec![31u8; 32];
    let b = vec![32u8; 32];
    let c = vec![33u8; 32];
    let did = LegacyAccount { key: pda(&a), owner: LegacyOwner::Registry(legacy_doc(a.clone(), vec![b.clone()])) };
    let controller = LegacyAccount { key: pda(&b), owner: LegacyOwner::Registry(legacy_doc(b.clone(), vec![])) };
    let stranger = LegacyAccount { key: pda(&c), owner: LegacyOwner::Registry(legacy_doc(c.clone(), vec![])) };
    assert_eq!(validate_owner(&did, &a, true, &[]), Ok(()));
    assert_eq!(validate_owner(&did, &b, true, &[]), Err(LegacyAuthorityError::IncorrectAuthority));
    assert_eq!(validate_owner(&did, &b, true, std::slice::from_ref(&controller)), Ok(()));
    assert_eq!(validate_owner(&did, &c, true, std::slice::from_ref(&stranger)), Err(LegacyAuthorityError::IncorrectController));
    let generative_controller = LegacyAccount { key: pda(&b), owner: LegacyOwner::System { data_is_empty: true } };
    assert_eq!(validate_owner(&did, &b, true, std::slice::from_ref(&generative_controller)), Ok(()));
}

#[test]
fn legacy_merge_adds_missing_entries() {
    let mut l = legacy(vec![]);
    let mut other = legacy(vec!["key2".to_string()]);
    other.version = String::new();
    other.controller = vec![vec![6u8; 32], vec![8u8; 32]];
    other.authentication = vec!["key2".to_string(), "default".to_string()];
    l.merge(other);
    assert_eq!(l.version, "1");
    assert_eq!(l.authority, vec![5u8; 32]);
    assert_eq!(l.controller, vec![vec![6u8; 32], vec![8u8; 32]]);
    assert_eq!(l.authentication, vec!["default".to_string(), "key1".to_string(), "key2".to_string()]);
    assert_eq!(l.capability_invocation, vec!["key2".to_string()]);
    assert_eq!(l.verification_method.len(), 1);
    assert_eq!(l.service.len(), 1);
}

#[test]
fn legacy_controller_chains_up_to_ten() {
    for n in 1..11u8 {
        let authorities: Vec<Vec<u8>> = (0..=n).map(|i| vec![100 + i; 32]).collect();
        let signing_key = vec![99u8; 32];
        let mut docs: Vec<LegacyDidAccount> = Vec::new();
        for i in 0..=n as usize {
            let controller = if i < n as usize { vec![authorities[i + 1].clone()] } else { vec![] };
            let mut doc = legacy_doc(authorities[i].clone(), controller);
            if i == n as usize {
                doc.verification_method.push(LegacyVerificationMethod {
                    id: "signer".to_string(),
                    verification_type: "Ed25519VerificationKey2018".to_string(),
                    pubkey: signing_key.clone(),
                });
                doc.capability_invocation.push("signer".to_string());
            }
            docs.push(doc);
        }
        let accounts: Vec<LegacyAccount> = docs
            .into_iter()
            .enumerate()
            .map(|(i, d)| LegacyAccount { key: pda(&authorities[i]), owner: LegacyOwner::Registry(d) })
            .collect();
        assert_eq!(validate_owner(&accounts[0], &signing_key, true, &accounts[1..]), Ok(()));
        assert_eq!(
            validate_owner(&accounts[0], &signing_key, true, &accounts[1..n as usize]),
            Err(LegacyAuthorityError::IncorrectAuthority)
        );
        assert_eq!(validate_owner(&accounts[0], &signing_key, false, &accounts[1..]), Err(LegacyAuthorityError::IncorrectAuthority));
    }
}

#[test]
fn legacy_merge_compares_whole_entries() {
    let mut l = legacy(vec![]);
    let mut other = legacy(vec![]);
    other.verification_method.push(LegacyVerificationMethod {
        id: "key1".to_string(),
        verification_type: "Ed25519VerificationKey2018".to_string(),
        pubkey: vec![9u8; 32],
    });
    other.service[0].description = "changed".to_string();
    l.merge(other);
    assert_eq!(l.verification_method.len(), 2);
    assert_eq!(l.verification_method[1].pubkey, vec![9u8; 32]);
    assert_eq!(l.service.len(), 2);
    assert_eq!(l.service[1].description, "changed");
}
