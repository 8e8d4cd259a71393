//! A registry of decentralized-identifier documents: the verification-method store, the
//! controller-chain resolver and the authority resolution engine that guards every change.
use vstd::prelude::*;

pub mod dedup;
pub mod authority;
pub mod codec;
pub mod derive;
pub mod errors;
pub mod eth;
pub mod flags;
pub mod instructions;
pub mod laws;
pub mod legacy;
pub mod seqs;
pub mod state;
pub mod utils;
