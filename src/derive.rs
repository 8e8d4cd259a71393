use vstd::prelude::*;
use vstd::utf8::encode_utf8;

use crate::errors::DidSolError;
use crate::utils::DID_ACCOUNT_SEED;
use solana_program::pubkey::Pubkey;

verus! {

/// The address derived by the hash of `seed`, `key`, `bump` and the program id, when
/// that hash is not a point of the curve (and no seed is longer than 32 bytes).
pub uninterp spec fn program_address(seed: Seq<u8>, key: Seq<u8>, bump: u8, program_id: Seq<u8>) -> Option<Seq<u8>>;

/// The id of the registry program.
pub open spec fn program_id_bytes() -> Seq<u8> {
    seq![
        9u8, 103, 252, 163, 14, 205, 120, 38, 152, 197, 152, 11, 98, 251, 194, 82,
        79, 141, 10, 55, 110, 30, 162, 189, 64, 237, 92, 46, 17, 206, 192, 247,
    ]
}

/// The id of the first-generation registry program.
pub open spec fn legacy_program_id_bytes() -> Seq<u8> {
    seq![
        10u8, 169, 195, 120, 51, 200, 225, 115, 84, 83, 32, 80, 137, 186, 96, 28,
        97, 36, 81, 222, 65, 241, 166, 249, 126, 96, 56, 113, 109, 232, 201, 182,
    ]
}

/// The seed the first-generation registry appends to a key.
pub open spec fn legacy_seed() -> Seq<u8> {
    seq![115u8, 111, 108]
}

/// The canonical first-generation document address of `key`.
pub open spec fn legacy_address(key: Seq<u8>) -> Option<Seq<u8>> {
    match canonical_from(key, legacy_seed(), legacy_program_id_bytes(), 255) {
        Some((a, _)) => Some(a),
        None => None,
    }
}

/// The first bump, from `b` down to 1, that derives an address from `seed` and `key`,
/// with that address.
pub open spec fn canonical_from(seed: Seq<u8>, key: Seq<u8>, program_id: Seq<u8>, b: int) -> Option<(Seq<u8>, u8)>
    decreases b,
{
    if b < 1 || b > 255 {
        None
    } else {
        match program_address(seed, key, b as u8, program_id) {
            Some(a) => Some((a, b as u8)),
            None => canonical_from(seed, key, program_id, b - 1),
        }
    }
}

/// The document address of `key` with `bump`.
pub open spec fn did_address(key: Seq<u8>, bump: u8) -> Option<Seq<u8>> {
    program_address(encode_utf8(DID_ACCOUNT_SEED@), key, bump, program_id_bytes())
}

/// The canonical document address of `key`, with its bump.
pub open spec fn canonical_did_address(key: Seq<u8>) -> Option<(Seq<u8>, u8)> {
    canonical_from(encode_utf8(DID_ACCOUNT_SEED@), key, program_id_bytes(), 255)
}

/// The id of the registry program.
pub fn program_id() -> (r: Vec<u8>)
    ensures
        r@ == program_id_bytes(),
{
    let r = vec![
        9u8, 103, 252, 163, 14, 205, 120, 38, 152, 197, 152, 11, 98, 251, 194, 82,
        79, 141, 10, 55, 110, 30, 162, 189, 64, 237, 92, 46, 17, 206, 192, 247,
    ];
    assert(r@ =~= program_id_bytes());
    r
}

/// Relies on Pubkey::create_program_address over the seeds `[seed, key, [bump]]`.
#[verifier::external_body]
fn create_program_address(seed: &[u8], key: &[u8], bump: u8, program_id: &[u8]) -> (r: Option<Vec<u8>>)
    requires
        program_id@.len() == 32,
    ensures
        match r {
            Some(a) => program_address(seed@, key@, bump, program_id@) == Some(a@),
            None => program_address(seed@, key@, bump, program_id@) is None,
        },
{
    let id = Pubkey::new_from_array(<[u8; 32]>::try_from(program_id).unwrap());
    match Pubkey::create_program_address(&[seed, key, &[bump]], &id) {
        Ok(address) => Some(address.to_bytes().to_vec()),
        Err(_) => None,
    }
}

/// Relies on Pubkey::try_find_program_address over the seeds `[seed, key]`: it tries the
/// bumps from 255 down to 1 and returns the first address with its bump.
#[verifier::external_body]
pub(crate) fn try_find_program_address(seed: &[u8], key: &[u8], program_id: &[u8]) -> (r: Option<(Vec<u8>, u8)>)
    requires
        program_id@.len() == 32,
    ensures
        match r {
            Some((a, b)) => canonical_from(seed@, key@, program_id@, 255) == Some((a@, b)),
            None => canonical_from(seed@, key@, program_id@, 255) is None,
        },
{
    let id = Pubkey::new_from_array(<[u8; 32]>::try_from(program_id).unwrap());
    Pubkey::try_find_program_address(&[seed, key], &id).map(|(a, b)| (a.to_bytes().to_vec(), b))
}

/// The canonical document address of `key`, with its bump; none when no bump derives one.
pub fn derive_did_account(key: &[u8]) -> (r: Option<(Vec<u8>, u8)>)
    ensures
        match r {
            Some((a, b)) => canonical_did_address(key@) == Some((a@, b)),
            None => canonical_did_address(key@) is None,
        },
{
    let id = program_id();
    try_find_program_address(DID_ACCOUNT_SEED.as_bytes(), key, id.as_slice())
}

/// The canonical first-generation document address of `authority`, with its bump: the
/// address derived from the key followed by `sol`.
pub fn get_sol_address_with_seed(authority: &[u8]) -> (r: Option<(Vec<u8>, u8)>)
    ensures
        match r {
            Some((a, _)) => legacy_address(authority@) == Some(a@),
            None => legacy_address(authority@) is None,
        },
{
    let id = vec![
        10u8, 169, 195, 120, 51, 200, 225, 115, 84, 83, 32, 80, 137, 186, 96, 28,
        97, 36, 81, 222, 65, 241, 166, 249, 126, 96, 56, 113, 109, 232, 201, 182,
    ];
    assert(id@ =~= legacy_program_id_bytes());
    let seed = vec![115u8, 111, 108];
    assert(seed@ =~= legacy_seed());
    try_find_program_address(authority, seed.as_slice(), id.as_slice())
}

/// The document address of `key` with the given bump.
pub fn derive_did_account_with_bump(key: &[u8], bump_seed: u8) -> (r: Result<Vec<u8>, DidSolError>)
    ensures
        match r {
            Ok(a) => did_address(key@, bump_seed) == Some(a@),
            Err(e) => did_address(key@, bump_seed) is None && e == DidSolError::ConstraintSeeds,
        },
{
    let id = program_id();
    match create_program_address(DID_ACCOUNT_SEED.as_bytes(), key, bump_seed, id.as_slice()) {
        Some(a) => Ok(a),
        None => Err(DidSolError::ConstraintSeeds),
    }
}

} // verus!
