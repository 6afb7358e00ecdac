//! The roles of a multisig user.
use vstd::prelude::*;
use super::error::MultisigError;

verus! {

/// What a user of the wallet may do: nothing, propose, or propose and sign.
#[derive(Clone, Copy, Debug, PartialEq, Eq, Structural)]
pub enum UserRole {
    NoRole,
    Proposer,
    BoardMember,
}

pub open spec fn role_can_propose(r: UserRole) -> bool {
    r == UserRole::BoardMember || r == UserRole::Proposer
}

pub open spec fn role_can_sign(r: UserRole) -> bool {
    r == UserRole::BoardMember
}

impl UserRole {
    pub fn can_propose(&self) -> (b: bool)
        ensures
            b == role_can_propose(*self),
    {
        match self {
            UserRole::BoardMember | UserRole::Proposer => true,
            UserRole::NoRole => false,
        }
    }

    pub fn can_perform_action(&self) -> (b: bool)
        ensures
            b == role_can_propose(*self),
    {
        self.can_propose()
    }

    pub fn can_discard_action(&self) -> (b: bool)
        ensures
            b == role_can_propose(*self),
    {
        self.can_propose()
    }

    pub fn can_sign(&self) -> (b: bool)
        ensures
            b == role_can_sign(*self),
    {
        match self {
            UserRole::BoardMember => true,
            _ => false,
        }
    }

    pub fn has_no_role(&self) -> (b: bool)
        ensures
            b == (*self == UserRole::NoRole),
    {
        match self {
            UserRole::NoRole => true,
            _ => false,
        }
    }

    pub fn require_can_propose(&self) -> (r: Result<(), MultisigError>)
        ensures
            r is Ok <==> role_can_propose(*self),
            r is Err ==> r == Err::<(), MultisigError>(MultisigError::OnlyProposersCanPropose),
    {
        if !self.can_propose() {
            return Err(MultisigError::OnlyProposersCanPropose);
        }
        Ok(())
    }

    pub fn require_can_sign(&self) -> (r: Result<(), MultisigError>)
        ensures
            r is Ok <==> role_can_sign(*self),
            r is Err ==> r == Err::<(), MultisigError>(MultisigError::OnlyBoardMembersCanSign),
    {
        if !self.can_sign() {
            return Err(MultisigError::OnlyBoardMembersCanSign);
        }
        Ok(())
    }

    pub fn require_can_unsign(&self) -> (r: Result<(), MultisigError>)
        ensures
            r is Ok <==> role_can_sign(*self),
            r is Err ==> r == Err::<(), MultisigError>(MultisigError::OnlyBoardMembersCanUnsign),
    {
        if !self.can_sign() {
            return Err(MultisigError::OnlyBoardMembersCanUnsign);
        }
        Ok(())
    }

    pub fn require_can_perform_action(&self) -> (r: Result<(), MultisigError>)
        ensures
            r is Ok <==> role_can_propose(*self),
            r is Err ==> r == Err::<(), MultisigError>(MultisigError::OnlyProposersCanPerform),
    {
        if !self.can_perform_action() {
            return Err(MultisigError::OnlyProposersCanPerform);
        }
        Ok(())
    }

    pub fn require_can_discard_action(&self) -> (r: Result<(), MultisigError>)
        ensures
            r is Ok <==> role_can_propose(*self),
            r is Err ==> r == Err::<(), MultisigError>(MultisigError::OnlyProposersCanDiscard),
    {
        if !self.can_discard_action() {
            return Err(MultisigError::OnlyProposersCanDiscard);
        }
        Ok(())
    }
}

} // verus!
