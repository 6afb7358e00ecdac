//! Checking the signatures that a relayer submits for board members.
use vstd::prelude::*;
use super::action::{ActionId, GroupId};
use super::error::MultisigError;
use super::signature::{signature_outcome, ActionType, Signature, SignatureArg};
use super::state::{role_of_id, tables_wf, user_id, Multisig, MultisigState};
use super::user_role::role_can_sign;

verus! {

/// What one signature does, given the nonces so far and what the virtual
/// machine's verification of it reported: the signer must be a registered
/// board member, its nonce must be the signer's next one, which is then
/// used up, and the signature must be for the requested kind of item.
pub open spec fn check_one(
    s: MultisigState,
    nonces: Seq<u64>,
    sig: SignatureArg,
    verified: bool,
    ty: ActionType,
) -> Result<(u64, Seq<u64>), MultisigError> {
    let id = user_id(s, sig.user_address);
    if id == 0 {
        Err(MultisigError::UnknownAddress)
    } else if !role_can_sign(role_of_id(s, id)) {
        Err(MultisigError::OnlyBoardMembersCanSign)
    } else if nonces[id - 1] == u64::MAX {
        Err(MultisigError::ArithmeticOverflow)
    } else if sig.nonce != nonces[id - 1] {
        Err(MultisigError::InvalidNonce)
    } else if sig.action_type != ty {
        Err(MultisigError::WrongActionTypeSigned)
    } else {
        match signature_outcome(sig.signature_type, verified) {
            Err(e) => Err(e),
            Ok(_) => Ok((id, nonces.update(id - 1, (nonces[id - 1] + 1) as u64))),
        }
    }
}

/// What a list of signatures does, one after the other: the ids of the
/// signers and the nonces after them, or the first failure.
pub open spec fn check_all(
    s: MultisigState,
    nonces: Seq<u64>,
    sigs: Seq<SignatureArg>,
    verdicts: Seq<bool>,
    ty: ActionType,
) -> Result<(Seq<u64>, Seq<u64>), MultisigError>
    decreases sigs.len(),
{
    if sigs.len() == 0 {
        Ok((Seq::empty(), nonces))
    } else {
        match check_all(s, nonces, sigs.drop_last(), verdicts.drop_last(), ty) {
            Err(e) => Err(e),
            Ok((ids, ns)) => match check_one(s, ns, sigs.last(), verdicts.last(), ty) {
                Err(e) => Err(e),
                Ok((id, ns2)) => Ok((ids.push(id), ns2)),
            },
        }
    }
}

pub proof fn lemma_user_id_bounded(s: MultisigState, address: crate::common::Address)
    requires
        s.users.len() < u64::MAX,
    ensures
        user_id(s, address) <= s.users.len(),
        user_id(s, address) != 0 ==> s.users[user_id(s, address) - 1] == address,
{
    if s.users.contains(address) {
        let k = s.users.index_of(address);
        assert(0 <= k < s.users.len() && s.users[k] == address);
    }
}

/// Once a signature fails, the whole list fails the same way.
pub proof fn lemma_check_all_failure_sticks(
    s: MultisigState,
    nonces: Seq<u64>,
    sigs: Seq<SignatureArg>,
    verdicts: Seq<bool>,
    ty: ActionType,
    k: int,
    j: int,
)
    requires
        0 <= k <= j <= sigs.len(),
        sigs.len() == verdicts.len(),
        check_all(s, nonces, sigs.subrange(0, k), verdicts.subrange(0, k), ty) is Err,
    ensures
        check_all(s, nonces, sigs.subrange(0, j), verdicts.subrange(0, j), ty) == check_all(
            s,
            nonces,
            sigs.subrange(0, k),
            verdicts.subrange(0, k),
            ty,
        ),
    decreases j - k,
{
    if j > k {
        lemma_check_all_failure_sticks(s, nonces, sigs, verdicts, ty, k, j - 1);
        assert(sigs.subrange(0, j).drop_last() =~= sigs.subrange(0, j - 1));
        assert(verdicts.subrange(0, j).drop_last() =~= verdicts.subrange(0, j - 1));
    }
}

/// The ids that signatures yield belong to registered users, and the nonce
/// table keeps its length.
pub proof fn lemma_check_all_shape(
    s: MultisigState,
    nonces: Seq<u64>,
    sigs: Seq<SignatureArg>,
    verdicts: Seq<bool>,
    ty: ActionType,
)
    requires
        nonces.len() == s.users.len(),
        s.users.len() < u64::MAX,
        check_all(s, nonces, sigs, verdicts, ty) is Ok,
    ensures
        ({
            let (ids, ns) = check_all(s, nonces, sigs, verdicts, ty)->Ok_0;
            &&& ns.len() == s.users.len()
            &&& ids.len() == sigs.len()
            &&& forall|j: int| 0 <= j < ids.len() ==> 1 <= #[trigger] ids[j] <= s.users.len()
        }),
    decreases sigs.len(),
{
    if sigs.len() > 0 {
        lemma_check_all_shape(s, nonces, sigs.drop_last(), verdicts.drop_last(), ty);
        let (ids, ns) = check_all(s, nonces, sigs.drop_last(), verdicts.drop_last(), ty)->Ok_0;
        lemma_user_id_bounded(s, sigs.last().user_address);
        let (ids2, _) = check_all(s, nonces, sigs, verdicts, ty)->Ok_0;
        assert forall|j: int| 0 <= j < ids2.len() implies 1 <= #[trigger] ids2[j] <= s.users.len() by {
            if j < ids.len() {
                assert(ids2[j] == ids[j]);
            }
        }
    }
}

impl Multisig {
    /// Checks the signer, its nonce and the kind of item of one signature,
    /// using up the nonce in the working nonce table `nonces`.
    pub fn check_base_signature_validity(
        &self,
        nonces: &mut Vec<u64>,
        sig_arg: &SignatureArg,
        requested_action_type: ActionType,
    ) -> (r: Result<(), MultisigError>)
        requires
            self.tables_ok(),
            old(nonces)@.len() == self@.users.len(),
            user_id(self@, sig_arg.user_address) != 0,
        ensures
            ({
                let id = user_id(self@, sig_arg.user_address);
                let ns = old(nonces)@;
                if !role_can_sign(role_of_id(self@, id)) {
                    r == Err::<(), MultisigError>(MultisigError::OnlyBoardMembersCanSign)
                } else if ns[id - 1] == u64::MAX {
                    r == Err::<(), MultisigError>(MultisigError::ArithmeticOverflow)
                } else if sig_arg.nonce != ns[id - 1] {
                    r == Err::<(), MultisigError>(MultisigError::InvalidNonce)
                } else if sig_arg.action_type != requested_action_type {
                    r == Err::<(), MultisigError>(MultisigError::WrongActionTypeSigned)
                } else {
                    r is Ok && final(nonces)@ == ns.update(id - 1, (ns[id - 1] + 1) as u64)
                }
            }),
            final(nonces)@.len() == old(nonces)@.len(),
    {
        let (id, role) = self.get_id_and_role(sig_arg.user_address);
        role.require_can_sign()?;
        proof {
            lemma_user_id_bounded(self@, sig_arg.user_address);
        }
        let n = nonces.len();
        assert(id <= n);
        let idx = (id - 1) as usize;
        let next_user_nonce = nonces[idx];
        if next_user_nonce == u64::MAX {
            return Err(MultisigError::ArithmeticOverflow);
        }
        if sig_arg.nonce != next_user_nonce {
            return Err(MultisigError::InvalidNonce);
        }
        sig_arg.action_type.require_is_type(requested_action_type)?;
        nonces.set(idx, next_user_nonce + 1);
        Ok(())
    }

    /// Checks the signature itself, given what the virtual machine's
    /// verification of its bytes over the signed item reported.
    pub fn check_signature_by_item_to_sign(&self, sig_arg: &SignatureArg, verified: bool) -> (r:
        Result<(), MultisigError>)
        ensures
            r == signature_outcome(sig_arg.signature_type, verified),
    {
        let signature_struct = Signature {
            signature_type: sig_arg.signature_type,
            raw_sig_bytes: sig_arg.raw_sig_bytes.clone(),
        };
        signature_struct.check_signature_by_type(verified)
    }

    /// Checks signatures for items of kind `ty` one after the other;
    /// `verdicts[i]` is what the virtual machine's verification of
    /// `signatures[i]` reported. Returns the signers' ids and the nonce table
    /// after them.
    pub fn check_signatures(
        &self,
        signatures: &Vec<SignatureArg>,
        verdicts: &Vec<bool>,
        ty: ActionType,
    ) -> (r: Result<(Vec<u64>, Vec<u64>), MultisigError>)
        requires
            self.tables_ok(),
            signatures@.len() == verdicts@.len(),
        ensures
            match check_all(self@, self@.nonces, signatures@, verdicts@, ty) {
                Ok((ids, ns)) => r is Ok && r->Ok_0.0@ == ids && r->Ok_0.1@ == ns,
                Err(e) => r == Err::<(Vec<u64>, Vec<u64>), MultisigError>(e),
            },
    {
        let mut nonces = self.nonces_copy();
        let mut ids: Vec<u64> = Vec::new();
        let mut i: usize = 0;
        while i < signatures.len()
            invariant
                self.tables_ok(),
                i <= signatures@.len(),
                signatures@.len() == verdicts@.len(),
                nonces@.len() == self@.users.len(),
                check_all(self@, self@.nonces, signatures@.subrange(0, i as int), verdicts@.subrange(0, i as int), ty)
                    == Ok::<(Seq<u64>, Seq<u64>), MultisigError>((ids@, nonces@)),
            decreases signatures.len() - i,
        {
            proof {
                assert(signatures@.subrange(0, i + 1).drop_last() =~= signatures@.subrange(0, i as int));
                assert(verdicts@.subrange(0, i + 1).drop_last() =~= verdicts@.subrange(0, i as int));
                assert(signatures@.subrange(0, i + 1).last() == signatures@[i as int]);
                assert(verdicts@.subrange(0, i + 1).last() == verdicts@[i as int]);
            }
            let sig_arg = &signatures[i];
            let user_id = self.get_user_id(sig_arg.user_address);
            if user_id == 0 {
                proof {
                    lemma_check_all_failure_sticks(self@, self@.nonces, signatures@, verdicts@, ty, i + 1, signatures@.len() as int);
                    assert(signatures@.subrange(0, signatures@.len() as int) =~= signatures@);
                    assert(verdicts@.subrange(0, verdicts@.len() as int) =~= verdicts@);
                }
                return Err(MultisigError::UnknownAddress);
            }
            let base = self.check_base_signature_validity(&mut nonces, sig_arg, ty);
            if base.is_err() {
                proof {
                    lemma_check_all_failure_sticks(self@, self@.nonces, signatures@, verdicts@, ty, i + 1, signatures@.len() as int);
                    assert(signatures@.subrange(0, signatures@.len() as int) =~= signatures@);
                    assert(verdicts@.subrange(0, verdicts@.len() as int) =~= verdicts@);
                }
                return Err(base.unwrap_err());
            }
            let checked = self.check_signature_by_item_to_sign(sig_arg, verdicts[i]);
            if checked.is_err() {
                proof {
                    lemma_check_all_failure_sticks(self@, self@.nonces, signatures@, verdicts@, ty, i + 1, signatures@.len() as int);
                    assert(signatures@.subrange(0, signatures@.len() as int) =~= signatures@);
                    assert(verdicts@.subrange(0, verdicts@.len() as int) =~= verdicts@);
                }
                return Err(checked.unwrap_err());
            }
            ids.push(user_id);
            i = i + 1;
        }
        proof {
            assert(signatures@.subrange(0, signatures@.len() as int) =~= signatures@);
            assert(verdicts@.subrange(0, verdicts@.len() as int) =~= verdicts@);
        }
        Ok((ids, nonces))
    }

    /// Checks signatures given for action `action_id`.
    pub fn check_single_action_signatures(
        &self,
        action_id: ActionId,
        signatures: &Vec<SignatureArg>,
        verdicts: &Vec<bool>,
    ) -> (r: Result<(Vec<u64>, Vec<u64>), MultisigError>)
        requires
            self.tables_ok(),
            signatures@.len() == verdicts@.len(),
        ensures
            match check_all(self@, self@.nonces, signatures@, verdicts@, ActionType::SimpleAction) {
                Ok((ids, ns)) => r is Ok && r->Ok_0.0@ == ids && r->Ok_0.1@ == ns,
                Err(e) => r == Err::<(Vec<u64>, Vec<u64>), MultisigError>(e),
            },
    {
        self.check_signatures(signatures, verdicts, ActionType::SimpleAction)
    }

    /// Checks signatures given for batch `group_id`.
    pub fn check_group_signatures(
        &self,
        group_id: GroupId,
        signatures: &Vec<SignatureArg>,
        verdicts: &Vec<bool>,
    ) -> (r: Result<(Vec<u64>, Vec<u64>), MultisigError>)
        requires
            self.tables_ok(),
            signatures@.len() == verdicts@.len(),
        ensures
            match check_all(self@, self@.nonces, signatures@, verdicts@, ActionType::Group) {
                Ok((ids, ns)) => r is Ok && r->Ok_0.0@ == ids && r->Ok_0.1@ == ns,
                Err(e) => r == Err::<(Vec<u64>, Vec<u64>), MultisigError>(e),
            },
    {
        self.check_signatures(signatures, verdicts, ActionType::Group)
    }
}

} // verus!
