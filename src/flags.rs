use vstd::prelude::*;

verus! {

/// The method can authenticate the subject.
pub const AUTHENTICATION: u16 = 1;
/// The method can prove assertions on the subject.
pub const ASSERTION: u16 = 2;
/// The method can be used for encryption.
pub const KEY_AGREEMENT: u16 = 4;
/// The method can invoke capabilities; required to change the document.
pub const CAPABILITY_INVOCATION: u16 = 8;
/// The method can delegate capabilities.
pub const CAPABILITY_DELEGATION: u16 = 16;
/// The method is hidden from the rendered document.
pub const DID_DOC_HIDDEN: u16 = 32;
/// The subject proved possession of the private key.
pub const OWNERSHIP_PROOF: u16 = 64;
/// The method cannot be removed while this flag is set.
pub const PROTECTED: u16 = 128;
/// Every bit that names a flag.
pub const ALL_FLAGS: u16 = 255;

/// True when every bit of `flag` is set in `bits`.
pub open spec fn has_flag(bits: u16, flag: u16) -> bool {
    bits & flag == flag
}

/// True when `bits` holds only known flags.
pub open spec fn known_bits(bits: u16) -> bool {
    bits & !ALL_FLAGS == 0
}

/// True when `bits` carries a flag that only the program itself may set.
pub open spec fn guarded(bits: u16) -> bool {
    bits & (OWNERSHIP_PROOF | PROTECTED) != 0
}

/// A set of verification-method flags with no unknown bits.
#[derive(Clone, Copy, Debug, PartialEq, Eq, Structural)]
pub struct VerificationMethodFlags {
    bits: u16,
}

impl VerificationMethodFlags {
    pub closed spec fn spec_bits(self) -> u16 {
        self.bits
    }

    /// The flags of `bits`, or `None` when a bit names no flag.
    pub fn from_bits(bits: u16) -> (r: Option<VerificationMethodFlags>)
        ensures
            r.is_some() == known_bits(bits),
            r matches Some(f) ==> f.spec_bits() == bits,
    {
        if bits & !ALL_FLAGS == 0 {
            Some(VerificationMethodFlags { bits })
        } else {
            None
        }
    }

    /// The empty set.
    pub fn empty() -> (r: VerificationMethodFlags)
        ensures
            r.spec_bits() == 0,
    {
        VerificationMethodFlags { bits: 0 }
    }

    /// The raw bits.
    pub fn bits(&self) -> (r: u16)
        ensures
            r == self.spec_bits(),
    {
        self.bits
    }

    /// True when every flag of `other` is in `self`.
    pub fn contains(&self, other: VerificationMethodFlags) -> (r: bool)
        ensures
            r == has_flag(self.spec_bits(), other.spec_bits()),
    {
        self.bits & other.bits == other.bits
    }

    /// True when `self` and `other` share a flag.
    pub fn intersects(&self, other: VerificationMethodFlags) -> (r: bool)
        ensures
            r == (self.spec_bits() & other.spec_bits() != 0),
    {
        self.bits & other.bits != 0
    }

    /// The flags of either set.
    pub fn union(&self, other: VerificationMethodFlags) -> (r: VerificationMethodFlags)
        ensures
            r.spec_bits() == self.spec_bits() | other.spec_bits(),
    {
        VerificationMethodFlags { bits: self.bits | other.bits }
    }
}

/// The kinds of key a verification method can hold.
#[derive(Clone, Copy, Debug, PartialEq, Eq, Structural)]
pub enum VerificationMethodType {
    /// A native Ed25519 key of 32 bytes.
    Ed25519VerificationKey2018,
    /// A 20-byte Ethereum address, matched against a recovered secp256k1 key.
    EcdsaSecp256k1RecoveryMethod2020,
    /// A full secp256k1 public key.
    EcdsaSecp256k1VerificationKey2019,
}

/// The storage code of a key type.
pub open spec fn type_code(t: VerificationMethodType) -> u8 {
    match t {
        VerificationMethodType::Ed25519VerificationKey2018 => 0,
        VerificationMethodType::EcdsaSecp256k1RecoveryMethod2020 => 1,
        VerificationMethodType::EcdsaSecp256k1VerificationKey2019 => 2,
    }
}

/// True when `code` is the storage code of a known key type.
pub open spec fn known_type(code: u8) -> bool {
    code < 3
}

/// The key types that may authorize a change: every known type.
pub open spec fn is_authority_type(code: u8) -> bool {
    known_type(code)
}

impl VerificationMethodType {
    /// The key type stored as `code`, or `None` for an unknown code.
    pub fn from_u8(code: u8) -> (r: Option<VerificationMethodType>)
        ensures
            r.is_some() == known_type(code),
            r matches Some(t) ==> type_code(t) == code,
    {
        if code == 0 {
            Some(VerificationMethodType::Ed25519VerificationKey2018)
        } else if code == 1 {
            Some(VerificationMethodType::EcdsaSecp256k1RecoveryMethod2020)
        } else if code == 2 {
            Some(VerificationMethodType::EcdsaSecp256k1VerificationKey2019)
        } else {
            None
        }
    }

    /// The storage code of this key type.
    pub fn to_u8(&self) -> (r: u8)
        ensures
            r == type_code(*self),
    {
        match self {
            VerificationMethodType::Ed25519VerificationKey2018 => 0,
            VerificationMethodType::EcdsaSecp256k1RecoveryMethod2020 => 1,
            VerificationMethodType::EcdsaSecp256k1VerificationKey2019 => 2,
        }
    }

    /// The key types that may authorize a change.
    pub fn authority_types() -> (r: Vec<VerificationMethodType>)
        ensures
            r@.len() == 3,
            forall|t: VerificationMethodType| r@.contains(t) <==> is_authority_type(type_code(t)),
    {
        let r = vec![
            VerificationMethodType::Ed25519VerificationKey2018,
            VerificationMethodType::EcdsaSecp256k1VerificationKey2019,
            VerificationMethodType::EcdsaSecp256k1RecoveryMethod2020,
        ];
        assert forall|t: VerificationMethodType| r@.contains(t) <==> is_authority_type(type_code(t)) by {
            if is_authority_type(type_code(t)) {
                match t {
                    VerificationMethodType::Ed25519VerificationKey2018 => assert(r@[0] == t),
                    VerificationMethodType::EcdsaSecp256k1RecoveryMethod2020 => assert(r@[2] == t),
                    VerificationMethodType::EcdsaSecp256k1VerificationKey2019 => assert(r@[1] == t),
                }
            }
        }
        r
    }

    /// The default key type: a native Ed25519 key.
    pub fn default_type() -> (r: VerificationMethodType)
        ensures
            r == VerificationMethodType::Ed25519VerificationKey2018,
    {
        VerificationMethodType::Ed25519VerificationKey2018
    }
}

} // verus!
