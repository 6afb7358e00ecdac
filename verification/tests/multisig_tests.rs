use mvx_contracts::common::TxContext;
use mvx_contracts::multisig::action::{Action, ActionId};
use mvx_contracts::multisig::direct_sign::{DirectSignWallet, MultisigSignModule};
use mvx_contracts::multisig::error::MultisigError;
use mvx_contracts::multisig::state::Multisig;
use mvx_contracts::multisig::user_role::UserRole;

const PROPOSER: u64 = 2;
const BOARD_MEMBER: u64 = 3;
const QUORUM_SIZE: usize = 1;
const ADDER: u64 = 100;

fn ctx(caller: u64) -> TxContext {
    TxContext {
        caller,
        caller_is_contract: false,
        caller_shard: 0,
        contract_shard: 0,
        block_epoch: 1,
        block_timestamp: 1,
    }
}

fn setup() -> DirectSignWallet {
    let wallet = Multisig::init(QUORUM_SIZE, vec![BOARD_MEMBER]).unwrap();
    let mut w = DirectSignWallet { wallet };
    let id = w.wallet.propose_add_proposer(&ctx(BOARD_MEMBER), PROPOSER, None, false).unwrap();
    w.wallet.perform_action_endpoint(&ctx(BOARD_MEMBER), id).unwrap();
    assert_eq!(w.wallet.user_role(PROPOSER), UserRole::Proposer);
    w
}

fn propose(w: &mut DirectSignWallet, action: Action) -> ActionId {
    w.wallet.propose_action(&ctx(PROPOSER), action, None, false).unwrap()
}

fn sign_and_perform(w: &mut DirectSignWallet, action_id: ActionId) -> Result<Action, MultisigError> {
    w.sign(&ctx(BOARD_MEMBER), action_id).unwrap();
    w.wallet.perform_action_endpoint(&ctx(BOARD_MEMBER), action_id)
}

#[test]
fn test_init() {
    let w = setup();
    assert_eq!(w.wallet.get_quorum(), QUORUM_SIZE);
}

#[test]
fn test_add_board_member() {
    let mut w = setup();
    let new_board_member = 10;
    assert_eq!(w.wallet.user_role(new_board_member), UserRole::NoRole);
    let action_id = propose(&mut w, Action::AddBoardMember(new_board_member));
    sign_and_perform(&mut w, action_id).unwrap();
    assert_eq!(w.wallet.user_role(new_board_member), UserRole::BoardMember);
    let board_members = w.wallet.get_all_board_members();
    assert_eq!(board_members[0], BOARD_MEMBER);
    assert_eq!(board_members[1], new_board_member);
}

#[test]
fn test_add_proposer() {
    let mut w = setup();
    let new_proposer = 10;
    assert_eq!(w.wallet.user_role(new_proposer), UserRole::NoRole);
    let action_id = propose(&mut w, Action::AddProposer(new_proposer));
    sign_and_perform(&mut w, action_id).unwrap();
    assert_eq!(w.wallet.user_role(new_proposer), UserRole::Proposer);
    let proposers = w.wallet.get_all_proposers();
    assert_eq!(proposers[0], PROPOSER);
    assert_eq!(proposers[1], new_proposer);
}

#[test]
fn test_remove_proposer() {
    let mut w = setup();
    assert_eq!(w.wallet.user_role(PROPOSER), UserRole::Proposer);
    let action_id = propose(&mut w, Action::RemoveUser(PROPOSER));
    sign_and_perform(&mut w, action_id).unwrap();
    assert_eq!(w.wallet.user_role(PROPOSER), UserRole::NoRole);
    assert!(w.wallet.get_all_proposers().is_empty());
}

#[test]
fn test_try_remove_all_board_members() {
    let mut w = setup();
    let action_id = propose(&mut w, Action::RemoveUser(BOARD_MEMBER));
    assert_eq!(
        sign_and_perform(&mut w, action_id).unwrap_err(),
        MultisigError::QuorumExceedsBoardSize
    );
}

#[test]
fn test_change_quorum() {
    let mut w = setup();
    let new_quorum_size = 2;

    // try change quorum > board size
    let action_id = propose(&mut w, Action::ChangeQuorum(new_quorum_size));
    assert_eq!(
        sign_and_perform(&mut w, action_id).unwrap_err(),
        MultisigError::QuorumExceedsBoardSize
    );

    // try discard before unsigning
    assert_eq!(
        w.wallet.discard_action_endpoint(&ctx(BOARD_MEMBER), action_id).unwrap_err(),
        MultisigError::CannotDiscardSignedAction
    );

    // unsign and discard action
    w.unsign(&ctx(BOARD_MEMBER), action_id).unwrap();
    w.wallet.discard_action_endpoint(&ctx(BOARD_MEMBER), action_id).unwrap();

    // try sign discarded action
    assert_eq!(w.sign(&ctx(BOARD_MEMBER), action_id).unwrap_err(), MultisigError::ActionDoesNotExist);

    // add another board member
    let new_board_member = 10;
    let action_id = propose(&mut w, Action::AddBoardMember(new_board_member));
    sign_and_perform(&mut w, action_id).unwrap();

    // change quorum to 2
    let action_id = propose(&mut w, Action::ChangeQuorum(new_quorum_size));
    sign_and_perform(&mut w, action_id).unwrap();
    assert_eq!(w.wallet.get_quorum(), new_quorum_size);
}

#[test]
fn test_transfer_execute_to_user() {
    let mut w = setup();
    let new_user = 10;
    let egld_amount = 100;

    // failed attempt
    let r = w.wallet.propose_transfer_execute(
        &ctx(PROPOSER),
        new_user,
        0,
        None,
        Vec::new(),
        Vec::new(),
        None,
        false,
    );
    assert_eq!(r.unwrap_err(), MultisigError::ActionHasNoEffect);

    // propose
    let action_id = w
        .wallet
        .propose_transfer_execute(
            &ctx(PROPOSER),
            new_user,
            egld_amount,
            None,
            Vec::new(),
            Vec::new(),
            None,
            false,
        )
        .unwrap();
    match sign_and_perform(&mut w, action_id).unwrap() {
        Action::SendTransferExecuteEgld(call) => {
            assert_eq!(call.to, new_user);
            assert_eq!(call.egld_amount, egld_amount);
        }
        _ => panic!("expected a transfer"),
    }
}

#[test]
fn test_transfer_execute_sc_all() {
    let mut w = setup();
    let action_id = w
        .wallet
        .propose_transfer_execute(
            &ctx(PROPOSER),
            ADDER,
            0,
            None,
            b"add".to_vec(),
            vec![vec![5u8]],
            None,
            false,
        )
        .unwrap();
    match sign_and_perform(&mut w, action_id).unwrap() {
        Action::SendTransferExecuteEgld(call) => {
            assert_eq!(call.to, ADDER);
            assert_eq!(call.endpoint_name, b"add".to_vec());
            assert_eq!(call.arguments, vec![vec![5u8]]);
        }
        _ => panic!("expected a transfer"),
    }
}

#[test]
fn test_async_call_to_sc() {
    let mut w = setup();
    let action_id = w
        .wallet
        .propose_async_call(
            &ctx(PROPOSER),
            ADDER,
            0,
            None,
            b"add".to_vec(),
            vec![vec![5u8]],
            None,
            false,
        )
        .unwrap();
    match sign_and_perform(&mut w, action_id).unwrap() {
        Action::SendAsyncCall(call) => {
            assert_eq!(call.to, ADDER);
            assert_eq!(call.endpoint_name, b"add".to_vec());
        }
        _ => panic!("expected an asynchronous call"),
    }
}

#[test]
fn test_deploy_and_upgrade_from_source() {
    let mut w = setup();
    let action_id = w
        .wallet
        .propose_sc_deploy_from_source(&ctx(PROPOSER), 0, ADDER, 0x0506, None, false, vec![vec![5u8]])
        .unwrap();
    match sign_and_perform(&mut w, action_id).unwrap() {
        Action::SCDeployFromSource(args) => {
            assert_eq!(args.source, ADDER);
            assert_eq!(args.code_metadata, 0x0506);
            assert_eq!(args.arguments, vec![vec![5u8]]);
        }
        _ => panic!("expected a deployment"),
    }
    let new_adder = 101;
    let action_id = w
        .wallet
        .propose_sc_upgrade_from_source(
            &ctx(PROPOSER),
            new_adder,
            0,
            ADDER,
            0x0506,
            None,
            false,
            vec![vec![5u8]],
        )
        .unwrap();
    match sign_and_perform(&mut w, action_id).unwrap() {
        Action::SCUpgradeFromSource { sc_address, args } => {
            assert_eq!(sc_address, new_adder);
            assert_eq!(args.source, ADDER);
        }
        _ => panic!("expected an upgrade"),
    }
}

#[test]
fn direct_sign_batch_and_signed() {
    let mut w = setup();
    let first = propose(&mut w, Action::AddProposer(10));
    let second = propose(&mut w, Action::AddProposer(11));
    assert!(!w.signed(BOARD_MEMBER, first));
    w.sign_batch(&ctx(BOARD_MEMBER), &vec![first, second]).unwrap();
    assert!(w.signed(BOARD_MEMBER, first));
    assert!(w.signed(BOARD_MEMBER, second));
    assert!(!w.signed(PROPOSER, first));
    assert_eq!(w.sign(&ctx(PROPOSER), first).unwrap_err(), MultisigError::OnlyBoardMembersCanSign);
    let performed = w.sign_batch_and_perform(&ctx(BOARD_MEMBER), &vec![first, second]).unwrap();
    assert_eq!(performed.len(), 2);
    assert_eq!(w.wallet.user_role(11), UserRole::Proposer);
}

#[test]
fn direct_sign_batch_is_all_or_nothing() {
    let mut w = setup();
    let first = propose(&mut w, Action::AddProposer(10));
    let r = w.sign_batch(&ctx(BOARD_MEMBER), &vec![first, 99]);
    assert_eq!(r.unwrap_err(), MultisigError::ActionDoesNotExist);
    assert!(!w.signed(BOARD_MEMBER, first));
}
