//! Signatures that board members give off-chain and a relayer submits.
use vstd::prelude::*;
use crate::common::Address;
use super::action::{Action, GroupId, Nonce};
use super::error::MultisigError;

verus! {

/// A signature of `user_address` on an item, with the user's nonce.
#[derive(Clone, Debug)]
pub struct SignatureArg {
    pub user_address: Address,
    pub nonce: Nonce,
    pub action_type: ActionType,
    pub signature_type: SignatureType,
    pub raw_sig_bytes: Vec<u8>,
}

/// The signature schemes; new ones are only ever added at the end.
#[derive(Clone, Copy, Debug, PartialEq, Eq, Structural)]
pub enum SignatureType {
    Ed25519,
    Secp256r1,
    Secp256k1,
}

/// What a signature was given for.
#[derive(Clone, Copy, Debug, PartialEq, Eq, Structural)]
pub enum ActionType {
    Propose,
    SimpleAction,
    Group,
}

/// The item that a signature covers.
pub enum ItemToSign<'a> {
    Propose(&'a Action),
    Action(&'a Action),
    Group(GroupId),
}

impl ActionType {
    /// Fails unless the signed action type is the one requested.
    pub fn require_is_type(&self, action_type: ActionType) -> (r: Result<(), MultisigError>)
        ensures
            r is Ok <==> *self == action_type,
            r is Err ==> r == Err::<(), MultisigError>(MultisigError::WrongActionTypeSigned),
    {
        if *self != action_type {
            return Err(MultisigError::WrongActionTypeSigned);
        }
        Ok(())
    }
}

/// A signature and its scheme.
#[derive(Clone, Debug)]
pub struct Signature {
    pub signature_type: SignatureType,
    pub raw_sig_bytes: Vec<u8>,
}

/// Whether a signature is accepted, given what the virtual machine's
/// verification of it reported.
pub open spec fn signature_outcome(t: SignatureType, verified: bool) -> Result<(), MultisigError> {
    match t {
        SignatureType::Ed25519 => if verified {
            Ok(())
        } else {
            Err(MultisigError::Ed25519CheckFailed)
        },
        SignatureType::Secp256r1 => Err(MultisigError::SignatureTypeNotImplemented),
        SignatureType::Secp256k1 => if verified {
            Ok(())
        } else {
            Err(MultisigError::Secp256k1CheckFailed)
        },
    }
}

impl Signature {
    /// Accepts the signature by its scheme. `verified` is what the virtual
    /// machine's signature verification reported for the raw bytes over the
    /// signed item; Secp256r1 is not implemented and always fails.
    pub fn check_signature_by_type(&self, verified: bool) -> (r: Result<(), MultisigError>)
        ensures
            r == signature_outcome(self.signature_type, verified),
    {
        match self.signature_type {
            SignatureType::Ed25519 => {
                if !verified {
                    return Err(MultisigError::Ed25519CheckFailed);
                }
                Ok(())
            },
            SignatureType::Secp256r1 => Err(MultisigError::SignatureTypeNotImplemented),
            SignatureType::Secp256k1 => {
                if !verified {
                    return Err(MultisigError::Secp256k1CheckFailed);
                }
                Ok(())
            },
        }
    }
}

} // verus!
