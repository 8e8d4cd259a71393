use sol_did::codec::{encode_string, encode_verification_method, signed_message};
use sol_did::errors::DidSolError;
use sol_did::eth::{convert_secp256k1pub_key_to_address, eth_signed_message_input, eth_verify_message, Secp256k1RawSignature};
use sol_did::flags::{
    VerificationMethodType, AUTHENTICATION, CAPABILITY_INVOCATION, KEY_AGREEMENT, OWNERSHIP_PROOF, PROTECTED,
};
use sol_did::instructions::{
    add_service, add_verification_method, close, initialize, remove_service, remove_verification_method, resize,
    set_controllers, set_vm_flags, update, SetControllersArg, UpdateArg, UpdateFlagsVerificationMethod,
};
use sol_did::state::{DidAccount, Service, VerificationMethod};
use solana_program::pubkey::Pubkey;

const ED25519: &[VerificationMethodType] = &[VerificationMethodType::Ed25519VerificationKey2018];

fn key() -> Vec<u8> {
    Pubkey::new_unique().to_bytes().to_vec()
}

fn document(authority: &[u8], flags: u16) -> DidAccount {
    let mut d = DidAccount::new(254, authority);
    d.init(254, authority, flags);
    d
}

fn vm(fragment: &str, flags: u16, method_type: u8, key_data: Vec<u8>) -> VerificationMethod {
    VerificationMethod { fragment: fragment.to_string(), flags, method_type, key_data }
}

fn service(fragment: &str, endpoint: &str) -> Service {
    Service {
        fragment: fragment.to_string(),
        service_type: "profile".to_string(),
        service_endpoint: endpoint.to_string(),
    }
}

fn authorizes(d: &DidAccount, k: &[u8]) -> bool {
    d.find_authority(k, Some(ED25519), None).is_some()
}

fn fragments(d: &DidAccount) -> Vec<String> {
    d.verification_methods.iter().map(|v| v.fragment.clone()).collect()
}

struct Wallet {
    secret: libsecp256k1::SecretKey,
}

impl Wallet {
    fn new(seed: u8) -> Wallet {
        Wallet { secret: libsecp256k1::SecretKey::parse(&[seed; 32]).unwrap() }
    }

    fn public_key(&self) -> Vec<u8> {
        libsecp256k1::PublicKey::from_secret_key(&self.secret).serialize()[1..65].to_vec()
    }

    fn sign(&self, message: &[u8], nonce: u64) -> Secp256k1RawSignature {
        let input = eth_signed_message_input(message, nonce);
        let hash = solana_program::keccak::hash(&input).to_bytes();
        let (signature, recovery_id) =
            libsecp256k1::sign(&libsecp256k1::Message::parse_slice(&hash).unwrap(), &self.secret);
        Secp256k1RawSignature { signature: signature.serialize().to_vec(), recovery_id: recovery_id.serialize() }
    }
}

#[test]
fn scenario_soft_revoke_keeps_second_key() {
    let k = key();
    let k2 = key();
    let mut d = document(&k, CAPABILITY_INVOCATION | OWNERSHIP_PROOF);

    let r = add_verification_method(&mut d, &k, vm("m2", CAPABILITY_INVOCATION, 0, k2.clone()), None);
    assert_eq!(r, Ok(()));
    assert!(authorizes(&d, &k2));

    let r = remove_verification_method(&mut d, &k, "default".to_string(), None);
    assert_eq!(r, Ok(()));
    assert_eq!(d.initial_verification_method.flags, 0);
    assert!(!authorizes(&d, &k));
    assert!(authorizes(&d, &k2));

    let r = remove_verification_method(&mut d, &k2, "m2".to_string(), None);
    assert_eq!(r, Err(DidSolError::VmCannotRemoveLastAuthority));
    assert_eq!(fragments(&d), vec!["m2".to_string()]);
    assert_eq!(d.verification_methods[0].key_data, k2);
    assert_eq!(d.verification_methods[0].flags, CAPABILITY_INVOCATION);
    assert!(authorizes(&d, &k2));
}

#[test]
fn adding_a_used_fragment_fails_and_changes_nothing() {
    let k = key();
    let mut d = document(&k, CAPABILITY_INVOCATION);
    add_verification_method(&mut d, &k, vm("second", AUTHENTICATION, 0, key()), None).unwrap();
    let r = add_verification_method(&mut d, &k, vm("second", AUTHENTICATION, 0, key()), None);
    assert_eq!(r, Err(DidSolError::VmFragmentAlreadyInUse));
    let r = add_verification_method(&mut d, &k, vm("default", AUTHENTICATION, 0, key()), None);
    assert_eq!(r, Err(DidSolError::VmFragmentAlreadyInUse));
    assert_eq!(fragments(&d), vec!["second".to_string()]);
}

#[test]
fn adding_a_used_service_fragment_needs_overwrite() {
    let k = key();
    let mut d = document(&k, CAPABILITY_INVOCATION);
    add_service(&mut d, &k, service("s1", "https://a"), false, None).unwrap();
    add_service(&mut d, &k, service("s2", "https://b"), false, None).unwrap();
    let r = add_service(&mut d, &k, service("s1", "https://c"), false, None);
    assert_eq!(r, Err(DidSolError::ServiceFragmentAlreadyInUse));
    assert_eq!(d.services.len(), 2);
    assert_eq!(d.services[1].service_endpoint, "https://a");

    add_service(&mut d, &k, service("s1", "https://c"), true, None).unwrap();
    let names: Vec<(String, String)> =
        d.services.iter().map(|s| (s.fragment.clone(), s.service_endpoint.clone())).collect();
    assert_eq!(
        names,
        vec![("s1".to_string(), "https://c".to_string()), ("s2".to_string(), "https://b".to_string())]
    );
}

#[test]
fn guarded_flags_cannot_be_added() {
    let k = key();
    let mut d = document(&k, CAPABILITY_INVOCATION);
    let r = add_verification_method(&mut d, &k, vm("owned", OWNERSHIP_PROOF | CAPABILITY_INVOCATION, 0, key()), None);
    assert_eq!(r, Err(DidSolError::VmGuardedFlagOnAdd));
    let r = add_verification_method(&mut d, &k, vm("guarded", PROTECTED, 0, key()), None);
    assert_eq!(r, Err(DidSolError::VmGuardedFlagOnAdd));
    let arg = UpdateArg {
        verification_methods: vec![vm("owned", OWNERSHIP_PROOF, 0, key())],
        services: vec![],
        native_controllers: vec![],
        other_controllers: vec![],
    };
    assert_eq!(update(&mut d, &k, arg, None), Err(DidSolError::VmGuardedFlagOnAdd));
    assert!(d.verification_methods.is_empty());
}

#[test]
fn unknown_flags_and_types_are_conversion_errors() {
    let k = key();
    let mut d = document(&k, CAPABILITY_INVOCATION);
    let r = add_verification_method(&mut d, &k, vm("x", 256, 0, key()), None);
    assert_eq!(r, Err(DidSolError::ConversionError));
    let r = add_verification_method(&mut d, &k, vm("x", AUTHENTICATION, 3, key()), None);
    assert_eq!(r, Err(DidSolError::ConversionError));
    let r = set_vm_flags(&mut d, &k, UpdateFlagsVerificationMethod { fragment: "default".to_string(), flags: 0x300 }, None);
    assert_eq!(r, Err(DidSolError::ConversionError));
    assert_eq!(d.initial_verification_method.flags, CAPABILITY_INVOCATION);
}

#[test]
fn clearing_the_last_authority_is_refused() {
    let k = key();
    let mut d = document(&k, CAPABILITY_INVOCATION);
    let r = set_vm_flags(&mut d, &k, UpdateFlagsVerificationMethod { fragment: "default".to_string(), flags: KEY_AGREEMENT }, None);
    assert_eq!(r, Err(DidSolError::VmCannotRemoveLastAuthority));
    assert_eq!(d.initial_verification_method.flags, CAPABILITY_INVOCATION);
    let r = remove_verification_method(&mut d, &k, "default".to_string(), None);
    assert_eq!(r, Err(DidSolError::VmCannotRemoveLastAuthority));
    assert!(d.has_authority_verification_methods());
}

#[test]
fn flags_update_changes_the_named_method() {
    let k = key();
    let k2 = key();
    let mut d = document(&k, CAPABILITY_INVOCATION);
    add_verification_method(&mut d, &k, vm("m2", CAPABILITY_INVOCATION, 0, k2.clone()), None).unwrap();
    let r = set_vm_flags(&mut d, &k, UpdateFlagsVerificationMethod { fragment: "m2".to_string(), flags: AUTHENTICATION }, None);
    assert_eq!(r, Ok(()));
    assert_eq!(d.verification_methods[0].flags, AUTHENTICATION);
    let r = set_vm_flags(&mut d, &k, UpdateFlagsVerificationMethod { fragment: "nope".to_string(), flags: AUTHENTICATION }, None);
    assert_eq!(r, Err(DidSolError::VmFragmentNotFound));
}

#[test]
fn guarded_flags_need_the_method_own_key() {
    let k = key();
    let k2 = key();
    let mut d = document(&k, CAPABILITY_INVOCATION);
    add_verification_method(&mut d, &k, vm("m2", CAPABILITY_INVOCATION, 0, k2.clone()), None).unwrap();
    let grant = UpdateFlagsVerificationMethod { fragment: "m2".to_string(), flags: CAPABILITY_INVOCATION | OWNERSHIP_PROOF };
    assert_eq!(set_vm_flags(&mut d, &k, grant.clone(), None), Err(DidSolError::NotAuthorized));
    assert_eq!(set_vm_flags(&mut d, &k2, grant, None), Ok(()));
    assert_eq!(d.verification_methods[0].flags, CAPABILITY_INVOCATION | OWNERSHIP_PROOF);
}

#[test]
fn protected_methods_block_removal_and_update() {
    let k = key();
    let mut d = initialize(1000, 250, &k).unwrap();
    assert_eq!(d.initial_verification_method.flags, CAPABILITY_INVOCATION | OWNERSHIP_PROOF | PROTECTED);
    let r = remove_verification_method(&mut d, &k, "default".to_string(), None);
    assert_eq!(r, Err(DidSolError::VmCannotRemoveProtected));
    let arg = UpdateArg { verification_methods: vec![], services: vec![], native_controllers: vec![], other_controllers: vec![] };
    assert_eq!(update(&mut d, &k, arg, None), Err(DidSolError::VmCannotRemoveProtected));
    assert_eq!(d.initial_verification_method.flags, CAPABILITY_INVOCATION | OWNERSHIP_PROOF | PROTECTED);
}

#[test]
fn initialize_checks_size() {
    let k = key();
    assert_eq!(DidAccount::initial_size(), 76);
    assert_eq!(initialize(83, 1, &k).err(), Some(DidSolError::InsufficientInitialSize));
    let d = initialize(84, 1, &k).unwrap();
    assert_eq!(d.bump, 1);
    assert_eq!(d.nonce, 0);
    assert_eq!(d.initial_verification_method.key_data, k);
    assert_eq!(d.initial_verification_method.fragment, "default");
}

#[test]
fn strangers_are_not_authorized() {
    let k = key();
    let mut d = document(&k, CAPABILITY_INVOCATION);
    let stranger = key();
    assert_eq!(add_verification_method(&mut d, &stranger, vm("x", AUTHENTICATION, 0, key()), None), Err(DidSolError::NotAuthorized));
    assert_eq!(add_service(&mut d, &stranger, service("s", "e"), false, None), Err(DidSolError::NotAuthorized));
    assert_eq!(resize(&mut d, &stranger, 500, None), Err(DidSolError::NotAuthorized));
    assert_eq!(close(&mut d, &stranger, None), Err(DidSolError::NotAuthorized));
    assert_eq!(resize(&mut d, &k, 500, None), Ok(()));
    assert_eq!(close(&mut d, &k, None), Ok(()));
    assert!(d.verification_methods.is_empty() && d.services.is_empty());
}

#[test]
fn removing_missing_entries_fails() {
    let k = key();
    let mut d = document(&k, CAPABILITY_INVOCATION);
    assert_eq!(remove_verification_method(&mut d, &k, "nope".to_string(), None), Err(DidSolError::VmFragmentNotFound));
    assert_eq!(remove_service(&mut d, &k, "nope".to_string(), None), Err(DidSolError::ServiceFragmentNotFound));
    add_service(&mut d, &k, service("s1", "e1"), false, None).unwrap();
    add_service(&mut d, &k, service("s2", "e2"), false, None).unwrap();
    assert_eq!(remove_service(&mut d, &k, "s1".to_string(), None), Ok(()));
    assert_eq!(d.services.len(), 1);
    assert_eq!(d.services[0].fragment, "s2");
}

#[test]
fn controllers_are_checked_and_deduplicated() {
    let k = key();
    let c = key();
    let mut d = document(&k, CAPABILITY_INVOCATION);
    let own = SetControllersArg { native_controllers: vec![c.clone(), k.clone()], other_controllers: vec![] };
    assert_eq!(set_controllers(&mut d, &k, own, None), Err(DidSolError::InvalidNativeControllers));
    let sol = SetControllersArg { native_controllers: vec![], other_controllers: vec!["did:sol:abc".to_string()] };
    assert_eq!(set_controllers(&mut d, &k, sol, None), Err(DidSolError::InvalidOtherControllers));
    let bad = SetControllersArg { native_controllers: vec![], other_controllers: vec!["web:abc".to_string()] };
    assert_eq!(set_controllers(&mut d, &k, bad, None), Err(DidSolError::InvalidOtherControllers));
    assert!(d.native_controllers.is_empty());

    let good = SetControllersArg {
        native_controllers: vec![c.clone(), c.clone()],
        other_controllers: vec!["did:ethr:0xabc".to_string(), "did:web:x".to_string(), "did:ethr:0xabc".to_string()],
    };
    assert_eq!(set_controllers(&mut d, &k, good, None), Ok(()));
    assert_eq!(d.native_controllers, vec![c]);
    assert_eq!(d.other_controllers, vec!["did:ethr:0xabc".to_string(), "did:web:x".to_string()]);
}

#[test]
fn update_replaces_everything() {
    let k = key();
    let k2 = key();
    let c = key();
    let mut d = document(&k, CAPABILITY_INVOCATION);
    add_service(&mut d, &k, service("old", "e"), false, None).unwrap();
    let arg = UpdateArg {
        verification_methods: vec![
            vm("a", CAPABILITY_INVOCATION, 0, k2.clone()),
            vm("default", AUTHENTICATION, 0, k.clone()),
            vm("b", KEY_AGREEMENT, 0, key()),
        ],
        services: vec![service("new", "https://n")],
        native_controllers: vec![c.clone()],
        other_controllers: vec!["did:web:x".to_string()],
    };
    assert_eq!(update(&mut d, &k, arg, None), Ok(()));
    assert_eq!(d.initial_verification_method.flags, AUTHENTICATION);
    assert_eq!(fragments(&d), vec!["a".to_string(), "b".to_string()]);
    assert_eq!(d.services.len(), 1);
    assert_eq!(d.services[0].fragment, "new");
    assert_eq!(d.native_controllers, vec![c]);
    assert!(authorizes(&d, &k2));
    assert!(!authorizes(&d, &k));
}

#[test]
fn update_that_locks_out_is_rolled_back() {
    let k = key();
    let mut d = document(&k, CAPABILITY_INVOCATION);
    add_service(&mut d, &k, service("keep", "e"), false, None).unwrap();
    let arg = UpdateArg {
        verification_methods: vec![vm("default", AUTHENTICATION, 0, k.clone())],
        services: vec![],
        native_controllers: vec![],
        other_controllers: vec![],
    };
    assert_eq!(update(&mut d, &k, arg, None), Err(DidSolError::VmCannotRemoveLastAuthority));
    assert_eq!(d.initial_verification_method.flags, CAPABILITY_INVOCATION);
    assert_eq!(d.services.len(), 1);
    let dup = UpdateArg {
        verification_methods: vec![],
        services: vec![service("s", "1"), service("s", "2")],
        native_controllers: vec![],
        other_controllers: vec![],
    };
    assert_eq!(update(&mut d, &k, dup, None), Err(DidSolError::ServiceFragmentAlreadyInUse));
    assert_eq!(d.services[0].fragment, "keep");
}

#[test]
fn signed_request_consumes_the_nonce_and_cannot_be_replayed() {
    let k = key();
    let wallet = Wallet::new(7);
    let mut d = document(&k, CAPABILITY_INVOCATION);
    d.verification_methods.push(vm("eth", CAPABILITY_INVOCATION, 2, wallet.public_key()));
    let stranger = key();

    let s = service("s", "https://a");
    let message = signed_message(&s, true);
    let first = wallet.sign(&message, 0);
    assert_eq!(add_service(&mut d, &stranger, s.clone(), true, Some(first.clone())), Ok(()));
    assert_eq!(d.nonce, 1);

    assert_eq!(add_service(&mut d, &stranger, s.clone(), true, Some(first)), Err(DidSolError::NotAuthorized));
    assert_eq!(d.nonce, 1);

    let again = wallet.sign(&message, 1);
    assert_eq!(add_service(&mut d, &stranger, s, true, Some(again)), Ok(()));
    assert_eq!(d.nonce, 2);
}

#[test]
fn signature_binds_the_operation_payload() {
    let k = key();
    let wallet = Wallet::new(9);
    let mut d = document(&k, CAPABILITY_INVOCATION);
    d.verification_methods.push(vm("eth", CAPABILITY_INVOCATION, 2, wallet.public_key()));
    let signed_for = wallet.sign(&encode_string(&"x".to_string()), 0);
    let r = remove_service(&mut d, &key(), "y".to_string(), Some(signed_for));
    assert_eq!(r, Err(DidSolError::NotAuthorized));
    assert_eq!(d.nonce, 0);
}

#[test]
fn ethereum_address_methods_authorize() {
    let k = key();
    let wallet = Wallet::new(11);
    let address = convert_secp256k1pub_key_to_address(&wallet.public_key());
    assert_eq!(address.len(), 20);
    let mut d = document(&k, CAPABILITY_INVOCATION);
    d.verification_methods.push(vm("addr", CAPABILITY_INVOCATION, 1, address));
    let new_vm = vm("more", AUTHENTICATION, 0, key());
    let sig = wallet.sign(&encode_verification_method(&new_vm), 0);
    assert_eq!(add_verification_method(&mut d, &key(), new_vm, Some(sig)), Ok(()));
    assert_eq!(d.nonce, 1);
    assert_eq!(fragments(&d), vec!["addr".to_string(), "more".to_string()]);
}

#[test]
fn recovery_returns_the_signing_key() {
    let wallet = Wallet::new(5);
    let sig = wallet.sign(b"hello", 3);
    assert_eq!(eth_verify_message(b"hello", 3, &sig.signature, sig.recovery_id), Some(wallet.public_key()));
    assert_ne!(eth_verify_message(b"hello", 4, &sig.signature, sig.recovery_id), Some(wallet.public_key()));
    assert_eq!(eth_verify_message(b"hello", 3, &[0u8; 10], sig.recovery_id), None);
}

#[test]
fn keccak_address_of_empty_input() {
    let address = convert_secp256k1pub_key_to_address(&[]);
    let digest: Vec<u8> = (0..32)
        .map(|i| u8::from_str_radix(&"c5d2460186f7233c927e7db2dcc703c0e500b653ca82273b7bfad8045d85a470"[2 * i..2 * i + 2], 16).unwrap())
        .collect();
    assert_eq!(address, digest[12..].to_vec());
}

#[test]
fn short_signatures_recover_nothing() {
    let wallet = Wallet::new(5);
    let sig = wallet.sign(b"hello", 3);
    assert_eq!(eth_verify_message(b"hello", 3, &sig.signature[..63], sig.recovery_id), None);
    let mut long = sig.signature.clone();
    long.push(0);
    assert_eq!(eth_verify_message(b"hello", 3, &long, sig.recovery_id), None);
}
