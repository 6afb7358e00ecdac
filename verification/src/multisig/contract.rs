//! Setting up the multisig wallet, and the outcome of its asynchronous calls.
use vstd::prelude::*;
use crate::common::Address;
use super::error::MultisigError;
use super::state::{
    change_role, initial_state, lemma_index_of_pushed, tables_wf, user_id, Multisig,
    MultisigState, MAX_BOARD_MEMBERS,
};
use super::user_role::UserRole;

verus! {

/// What setting up the wallet does: the board must fit under the board
/// limit, name no address twice, not be empty, and the quorum must not
/// exceed it.
pub open spec fn init_outcome(quorum: usize, board: Seq<Address>) -> Result<MultisigState, MultisigError> {
    if board.len() > MAX_BOARD_MEMBERS {
        Err(MultisigError::BoardSizeLimit)
    } else if !board.no_duplicates() {
        Err(MultisigError::AddressAlreadyRegistered)
    } else if board.len() == 0 {
        Err(MultisigError::EmptyBoard)
    } else if quorum > board.len() {
        Err(MultisigError::QuorumExceedsBoardSize)
    } else {
        Ok(initial_state(quorum, board))
    }
}

/// What the wallet records about an asynchronous call it made: the call's
/// results, or its error code and message.
#[derive(Clone, Debug, PartialEq, Eq)]
pub enum AsyncCallEvent {
    AsyncCallSuccess(Vec<Vec<u8>>),
    AsyncCallError(u32, Vec<u8>),
}

impl Multisig {
    /// Registers `new_board_members`, in order, as board members of a wallet
    /// that has no user yet; returns how many there are.
    pub(crate) fn add_multiple_board_members(&mut self, new_board_members: &Vec<Address>) -> (r:
        Result<usize, MultisigError>)
        requires
            old(self)@ == initial_state(0, Seq::empty()),
        ensures
            new_board_members@.len() > MAX_BOARD_MEMBERS ==> r == Err::<usize, MultisigError>(
                MultisigError::BoardSizeLimit,
            ),
            new_board_members@.len() <= MAX_BOARD_MEMBERS && !new_board_members@.no_duplicates()
                ==> r == Err::<usize, MultisigError>(MultisigError::AddressAlreadyRegistered),
            new_board_members@.len() <= MAX_BOARD_MEMBERS && new_board_members@.no_duplicates() ==> r
                == Ok::<usize, MultisigError>(new_board_members@.len() as usize) && final(self)@
                == initial_state(0, new_board_members@),
            tables_wf(final(self)@),
    {
        let len = new_board_members.len();
        if len > MAX_BOARD_MEMBERS {
            return Err(MultisigError::BoardSizeLimit);
        }
        let ghost board = new_board_members@;
        let mut i: usize = 0;
        proof {
            assert(board.subrange(0, 0) =~= Seq::<Address>::empty());
        }
        while i < len
            invariant
                len == board.len(),
                len <= MAX_BOARD_MEMBERS,
                board == new_board_members@,
                i <= len,
                self@ == initial_state(0, board.subrange(0, i as int)),
                board.subrange(0, i as int).no_duplicates(),
                tables_wf(self@),
            decreases len - i,
        {
            let member = new_board_members[i];
            let ghost s = self@;
            let ghost prefix = board.subrange(0, i as int);
            if self.get_user_id(member) != 0 {
                proof {
                    let k = prefix.index_of(member);
                    assert(prefix[k] == member);
                    assert(board[k] == board[i as int]);
                }
                return Err(MultisigError::AddressAlreadyRegistered);
            }
            proof {
                lemma_index_of_pushed(prefix, member);
            }
            let _ = self.change_user_role(member, UserRole::BoardMember);
            proof {
                let next = board.subrange(0, i + 1);
                assert(next =~= prefix.push(member));
                let t = initial_state(0, next);
                assert(user_id(s, member) == 0);
                let c = change_role(s, member, UserRole::BoardMember);
                assert(c.roles =~= t.roles);
                assert(c.nonces =~= t.nonces);
                assert(c.users =~= t.users);
                assert(self@ == t);
            }
            i = i + 1;
        }
        proof {
            assert(board.subrange(0, len as int) =~= board);
        }
        Ok(len)
    }

    /// Sets up a wallet whose board is `board`, with quorum `quorum`.
    pub fn init(quorum: usize, board: Vec<Address>) -> (r: Result<Multisig, MultisigError>)
        ensures
            match init_outcome(quorum, board@) {
                Ok(s) => r is Ok && r->Ok_0@ == s && r->Ok_0.wf(),
                Err(e) => r is Err && r->Err_0 == e,
            },
    {
        let mut m = Multisig::empty();
        let new_num_board_members = m.add_multiple_board_members(&board)?;
        let num_proposers = m.get_num_proposers();
        if new_num_board_members == 0 && num_proposers == 0 {
            return Err(MultisigError::EmptyBoard);
        }
        if quorum > new_num_board_members {
            return Err(MultisigError::QuorumExceedsBoardSize);
        }
        m.set_quorum(quorum);
        Ok(m)
    }

    /// The callback of the wallet's asynchronous calls only records how the
    /// call went: its results, or its error code and message.
    pub fn perform_async_call_callback(&self, call_result: Result<Vec<Vec<u8>>, (u32, Vec<u8>)>) -> (e:
        AsyncCallEvent)
        ensures
            match call_result {
                Ok(results) => e == AsyncCallEvent::AsyncCallSuccess(results),
                Err((code, message)) => e == AsyncCallEvent::AsyncCallError(code, message),
            },
    {
        match call_result {
            Ok(results) => AsyncCallEvent::AsyncCallSuccess(results),
            Err((err_code, err_msg)) => AsyncCallEvent::AsyncCallError(err_code, err_msg),
        }
    }
}

} // verus!
