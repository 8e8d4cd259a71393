use sol_did::authority::{is_authority, DidAccountInfo};
use sol_did::derive::{derive_did_account, derive_did_account_with_bump};
use sol_did::errors::DidSolError;
use sol_did::flags::{VerificationMethodType, AUTHENTICATION, CAPABILITY_INVOCATION};
use sol_did::state::{DidAccount, VerificationMethod, VM_DEFAULT_FRAGMENT_NAME};
use solana_program::pubkey::Pubkey;
use std::str::FromStr;

fn create_test_authority() -> Vec<u8> {
    Pubkey::new_unique().to_bytes().to_vec()
}

fn create_test_did(test_authority: &[u8]) -> DidAccount {
    DidAccount {
        version: 0,
        bump: 0,
        nonce: 0,
        initial_verification_method: VerificationMethod {
            fragment: VM_DEFAULT_FRAGMENT_NAME.to_string(),
            flags: CAPABILITY_INVOCATION,
            method_type: 0,
            key_data: test_authority.to_vec(),
        },
        verification_methods: vec![],
        services: vec![],
        native_controllers: vec![],
        other_controllers: vec![],
    }
}

fn address_of(key: &[u8]) -> (Vec<u8>, u8) {
    derive_did_account(key).unwrap()
}

fn stored(address: Vec<u8>, document: DidAccount) -> DidAccountInfo {
    DidAccountInfo { key: address, document: Some(document) }
}

fn generative(address: Vec<u8>) -> DidAccountInfo {
    DidAccountInfo { key: address, document: None }
}

const ED25519: &[VerificationMethodType] = &[VerificationMethodType::Ed25519VerificationKey2018];

#[test]
fn test_derive_did_account() {
    let authority = Pubkey::from_str("6TE7bGggnzahkE7Snfyi8M4LuB3D4YV8CjoBJxn8UDsY").unwrap();
    let expected_did_account = Pubkey::from_str("3spWJgYRKqrZnBkgv6dwjohKG5x3ZBEdxoLxuC2LfwD2").unwrap();
    let expected_bump = 255;

    let (did_account_pubkey, bump) = derive_did_account(&authority.to_bytes()).unwrap();

    assert_eq!(did_account_pubkey, expected_did_account.to_bytes().to_vec());
    assert_eq!(bump, expected_bump);
}

#[test]
fn test_derive_did_account_with_bump() {
    let authority = Pubkey::from_str("6TE7bGggnzahkE7Snfyi8M4LuB3D4YV8CjoBJxn8UDsY").unwrap();
    let expected_did_account = Pubkey::from_str("3spWJgYRKqrZnBkgv6dwjohKG5x3ZBEdxoLxuC2LfwD2").unwrap();
    let expected_bump = 255;

    let did_account_pubkey = derive_did_account_with_bump(&authority.to_bytes(), expected_bump).unwrap();

    assert_eq!(did_account_pubkey, expected_did_account.to_bytes().to_vec());
}

#[test]
fn lib_test_is_authority() {
    let test_authority = create_test_authority();
    let test_did_account = create_test_did(&test_authority);
    let account_info = stored(vec![0u8; 32], test_did_account);

    let result = is_authority(account_info, None, vec![], &test_authority, None, None).unwrap();
    assert!(result);
}

#[test]
fn is_authority_test_is_authority() {
    let test_authority = create_test_authority();
    let derived_did_account = address_of(&test_authority);

    let account_info = stored(derived_did_account.0.clone(), create_test_did(&test_authority));
    let should_be_true = is_authority(
        account_info,
        Some(derived_did_account.1),
        vec![],
        &test_authority,
        Some(ED25519),
        None,
    )
    .unwrap();
    assert!(should_be_true);

    let account_info = stored(derived_did_account.0.clone(), create_test_did(&test_authority));
    let should_be_true = is_authority(account_info, None, vec![], &test_authority, Some(ED25519), None).unwrap();
    assert!(should_be_true);
}

#[test]
fn test_is_authority_handles_generative_dids() {
    let test_authority = create_test_authority();
    let derived_did_account = address_of(&test_authority);

    let account_info = generative(derived_did_account.0.clone());
    let should_be_true = is_authority(
        account_info,
        Some(derived_did_account.1),
        vec![],
        &test_authority,
        Some(ED25519),
        None,
    )
    .unwrap();
    assert!(should_be_true);
}

#[test]
fn test_is_authority_fails_for_incorrectly_derived_generative_dids() {
    let test_authority = create_test_authority();
    let invalid_did_account_address = Pubkey::new_unique().to_bytes().to_vec();

    let account_info = generative(invalid_did_account_address);
    // either this returns Ok(false) or Error, but NOT Ok(true).
    let should_be_false =
        is_authority(account_info, Some(0), vec![], &test_authority, Some(ED25519), None).unwrap_or(false);

    assert!(!should_be_false);
}

#[test]
fn test_is_authority_fails_if_key_is_not_on_did() {
    let test_authority = create_test_authority();
    let some_other_authority = create_test_authority();
    let derived_did_account = address_of(&test_authority);

    let account_info = stored(derived_did_account.0.clone(), create_test_did(&test_authority));
    let should_be_false = is_authority(
        account_info,
        Some(derived_did_account.1),
        vec![],
        &some_other_authority,
        Some(ED25519),
        None,
    )
    .unwrap();
    assert!(!should_be_false);
}

#[test]
fn test_is_authority_passes_for_non_default_verification_method() {
    let test_authority = create_test_authority();
    let some_other_authority = create_test_authority();

    let mut test_did_account = create_test_did(&test_authority);
    test_did_account.verification_methods.push(VerificationMethod {
        fragment: "second_key".to_string(),
        flags: CAPABILITY_INVOCATION,
        method_type: 0,
        key_data: some_other_authority.clone(),
    });
    let derived_did_account = address_of(&test_authority);

    let account_info = stored(derived_did_account.0.clone(), test_did_account);
    let should_be_true = is_authority(
        account_info,
        Some(derived_did_account.1),
        vec![],
        &test_authority,
        Some(ED25519),
        None,
    )
    .unwrap();
    assert!(should_be_true);
}

#[test]
fn test_is_authority_fails_if_the_key_is_not_capability_invocation() {
    let test_authority = create_test_authority();
    let some_other_authority = create_test_authority();

    let mut test_did_account = create_test_did(&test_authority);
    test_did_account.verification_methods.push(VerificationMethod {
        fragment: "second_key".to_string(),
        flags: AUTHENTICATION, // not CAPABILITY_INVOCATION
        method_type: 0,
        key_data: some_other_authority.clone(),
    });
    let derived_did_account = address_of(&test_authority);

    let account_info = stored(derived_did_account.0.clone(), test_did_account);
    let should_be_false = is_authority(
        account_info,
        Some(derived_did_account.1),
        vec![],
        &some_other_authority,
        Some(ED25519),
        None,
    )
    .unwrap();
    assert!(!should_be_false);
}

#[test]
fn test_is_authority_with_non_generative_controller() {
    let controller_authority = create_test_authority();
    let controlled_authority = create_test_authority();

    assert_ne!(controller_authority, controlled_authority);

    let controller_did_account = create_test_did(&controller_authority);
    let mut controlled_did_account = create_test_did(&controlled_authority);

    let controller_did_account_address = address_of(&controller_authority);
    let controlled_did_account_address = address_of(&controller_authority);

    controlled_did_account.set_native_controllers(vec![controller_authority.clone()]).unwrap();

    let controlled_account_info = stored(controlled_did_account_address.0.clone(), controlled_did_account);
    let controller_account_info = stored(controller_did_account_address.0.clone(), controller_did_account);

    // check if the controller authority is an authority on the controlled did
    let should_be_true = is_authority(
        controlled_account_info,
        Some(controlled_did_account_address.1),
        vec![(controller_account_info, controller_authority.clone())],
        &controller_authority,
        Some(ED25519),
        None,
    )
    .unwrap();
    assert!(should_be_true);
}

#[test]
fn test_is_authority_with_generative_controller() {
    let controller_authority = create_test_authority();
    let controlled_authority = create_test_authority();

    assert_ne!(controller_authority, controlled_authority);

    let mut controlled_did_account = create_test_did(&controlled_authority);

    let controller_did_account_address = address_of(&controller_authority);
    let controlled_did_account_address = address_of(&controller_authority);

    controlled_did_account.set_native_controllers(vec![controller_authority.clone()]).unwrap();

    let controlled_account_info = stored(controlled_did_account_address.0.clone(), controlled_did_account);
    let generative_controller_account_info = generative(controller_did_account_address.0.clone());

    // check if the controller authority is an authority on the controlled did
    let should_be_true = is_authority(
        controlled_account_info,
        Some(controlled_did_account_address.1),
        vec![(generative_controller_account_info, controller_authority.clone())],
        &controller_authority,
        Some(ED25519),
        None,
    )
    .unwrap();
    assert!(should_be_true);
}

#[test]
fn generative_controller_at_wrong_address_is_refused() {
    let controller_authority = create_test_authority();
    let controlled_authority = create_test_authority();
    let mut controlled = create_test_did(&controlled_authority);
    controlled.set_native_controllers(vec![controller_authority.clone()]).unwrap();

    let wrong = generative(Pubkey::new_unique().to_bytes().to_vec());
    let result = is_authority(
        stored(vec![1u8; 32], controlled),
        None,
        vec![(wrong, controller_authority.clone())],
        &controller_authority,
        None,
        None,
    );
    assert_eq!(result, Err(DidSolError::WrongAuthorityForDid));
}

#[test]
fn controller_chain_in_order_and_out_of_order() {
    let a_key = create_test_authority();
    let b_key = create_test_authority();
    let c_key = create_test_authority();
    let mut a = create_test_did(&a_key);
    let mut b = create_test_did(&b_key);
    let c = create_test_did(&c_key);
    a.set_native_controllers(vec![b_key.clone()]).unwrap();
    b.set_native_controllers(vec![c_key.clone()]).unwrap();

    let chain = vec![
        (stored(address_of(&b_key).0, b.clone()), b_key.clone()),
        (stored(address_of(&c_key).0, c.clone()), c_key.clone()),
    ];
    let ok = is_authority(stored(address_of(&a_key).0, a.clone()), None, chain, &c_key, Some(ED25519), None);
    assert_eq!(ok, Ok(true));

    let wrong_order = vec![
        (stored(address_of(&c_key).0, c.clone()), c_key.clone()),
        (stored(address_of(&b_key).0, b.clone()), b_key.clone()),
    ];
    let refused = is_authority(stored(address_of(&a_key).0, a.clone()), None, wrong_order, &c_key, Some(ED25519), None);
    assert_eq!(refused, Err(DidSolError::InvalidControllerChain));

    let direct = is_authority(stored(address_of(&a_key).0, a), None, vec![], &a_key, Some(ED25519), None);
    assert_eq!(direct, Ok(true));
}

#[test]
fn generative_and_initialized_documents_agree() {
    let authority = create_test_authority();
    let other = create_test_authority();
    let (address, bump) = address_of(&authority);
    let initialized = sol_did::instructions::initialize(1000, bump, &authority).unwrap();
    for key in [&authority, &other] {
        let before = is_authority(generative(address.clone()), Some(bump), vec![], key, None, None).unwrap();
        let after = is_authority(stored(address.clone(), initialized.clone()), Some(bump), vec![], key, None, None).unwrap();
        assert_eq!(before, after);
    }
}

#[test]
fn generative_document_from_account() {
    let authority = create_test_authority();
    let (address, bump) = address_of(&authority);
    let doc = DidAccount::try_from(generative(address.clone()), &authority, None).unwrap();
    assert_eq!(doc.bump, bump);
    assert_eq!(doc.initial_verification_method.key_data, authority);
    assert_eq!(doc.initial_verification_method.flags, CAPABILITY_INVOCATION);
    assert_eq!(doc.initial_verification_method.fragment, "default");
    let other = create_test_authority();
    assert_eq!(
        DidAccount::try_from(generative(address), &other, None).err(),
        Some(DidSolError::WrongAuthorityForDid)
    );
}

#[test]
fn controller_chains_up_to_ten() {
    for n in 1..11usize {
        let keys: Vec<Vec<u8>> = (0..=n).map(|_| create_test_authority()).collect();
        let docs: Vec<DidAccount> = (0..=n)
            .map(|i| {
                let mut d = create_test_did(&keys[i]);
                if i < n {
                    d.set_native_controllers(vec![keys[i + 1].clone()]).unwrap();
                }
                d
            })
            .collect();
        let chain = |from: usize, to: usize| -> Vec<(DidAccountInfo, Vec<u8>)> {
            (from..to).map(|i| (stored(address_of(&keys[i]).0, docs[i].clone()), keys[i].clone())).collect()
        };
        let target = || stored(address_of(&keys[0]).0, docs[0].clone());
        assert_eq!(is_authority(target(), None, chain(1, n + 1), &keys[n], Some(ED25519), None), Ok(true));
        assert_eq!(is_authority(target(), None, chain(1, n + 1), &keys[0], Some(ED25519), None), Ok(false));
        if n > 1 {
            let mut reversed = chain(1, n + 1);
            reversed.reverse();
            assert_eq!(
                is_authority(target(), None, reversed, &keys[n], Some(ED25519), None),
                Err(DidSolError::InvalidControllerChain)
            );
        }
    }
}

#[test]
fn generative_target_honours_filters() {
    let authority = create_test_authority();
    let (address, bump) = address_of(&authority);
    let eth_only: &[VerificationMethodType] = &[VerificationMethodType::EcdsaSecp256k1VerificationKey2019];
    let other_fragment = "other".to_string();
    let default_fragment = "default".to_string();
    assert_eq!(is_authority(generative(address.clone()), Some(bump), vec![], &authority, Some(eth_only), None), Ok(false));
    assert_eq!(is_authority(generative(address.clone()), Some(bump), vec![], &authority, None, Some(&other_fragment)), Ok(false));
    assert_eq!(is_authority(generative(address), Some(bump), vec![], &authority, Some(ED25519), Some(&default_fragment)), Ok(true));
}
