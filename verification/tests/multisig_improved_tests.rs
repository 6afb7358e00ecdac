use mvx_contracts::common::{EsdtTokenPayment, TxContext};
use mvx_contracts::multisig::action::{Action, ActionId, CallActionData};
use mvx_contracts::multisig::error::MultisigError;
use mvx_contracts::multisig::signature::{ActionType, SignatureArg, SignatureType};
use mvx_contracts::multisig::state::Multisig;
use mvx_contracts::multisig::user_role::UserRole;

const FIRST_BOARD_MEMBER: u64 = 1;
const SECOND_BOARD_MEMBER: u64 = 2;
const MS_OWNER: u64 = 3;
const ADDER: u64 = 100;
const SHARD: u32 = 0;

fn ctx(caller: u64) -> TxContext {
    TxContext {
        caller,
        caller_is_contract: false,
        caller_shard: SHARD,
        contract_shard: SHARD,
        block_epoch: 1,
        block_timestamp: 1,
    }
}

fn setup() -> Multisig {
    let _ = MS_OWNER;
    Multisig::init(2, vec![FIRST_BOARD_MEMBER, SECOND_BOARD_MEMBER]).unwrap()
}

fn signature(signer: u64, nonce: u64, action_type: ActionType) -> SignatureArg {
    SignatureArg {
        user_address: signer,
        nonce,
        action_type,
        signature_type: SignatureType::Ed25519,
        raw_sig_bytes: b"signature".to_vec(),
    }
}

fn sign(ms: &mut Multisig, action_id: ActionId, signer_nonce: u64) {
    let sigs = vec![signature(SECOND_BOARD_MEMBER, signer_nonce, ActionType::SimpleAction)];
    ms.sign(action_id, &sigs, &vec![true]).unwrap();
}

fn perform(ms: &mut Multisig, action_id: ActionId) -> Action {
    ms.perform_action_endpoint(&ctx(FIRST_BOARD_MEMBER), action_id).unwrap()
}

fn perform_and_expect_err(ms: &mut Multisig, action_id: ActionId, err: MultisigError) {
    assert_eq!(ms.perform_action_endpoint(&ctx(FIRST_BOARD_MEMBER), action_id).unwrap_err(), err);
}

fn propose(ms: &mut Multisig, action: Action) -> ActionId {
    ms.propose_action(&ctx(FIRST_BOARD_MEMBER), action, None, false).unwrap()
}

fn propose_transfer_execute(
    ms: &mut Multisig,
    to: u64,
    egld_amount: u128,
    endpoint_name: &[u8],
    arguments: Vec<Vec<u8>>,
) -> ActionId {
    ms.propose_transfer_execute(
        &ctx(FIRST_BOARD_MEMBER),
        to,
        egld_amount,
        None,
        endpoint_name.to_vec(),
        arguments,
        None,
        false,
    )
    .unwrap()
}

#[test]
fn test_is_pending() {
    assert!(!Action::Nothing.is_pending());
}

#[test]
fn init_test() {
    let ms = setup();
    assert_eq!(ms.get_quorum(), 2);
    assert_eq!(ms.get_num_board_members(), 2);
    assert_eq!(ms.get_num_proposers(), 0);
}

#[test]
fn add_board_member_test() {
    let mut ms = setup();
    let new_board_member = 4;
    assert_eq!(ms.user_role(new_board_member), UserRole::NoRole);

    let action_id = ms
        .propose_add_board_member(&ctx(FIRST_BOARD_MEMBER), new_board_member, None, false)
        .unwrap();
    sign(&mut ms, action_id, 0);
    perform(&mut ms, action_id);
    assert_eq!(ms.user_role(new_board_member), UserRole::BoardMember);

    assert_eq!(
        ms.get_all_board_members(),
        vec![FIRST_BOARD_MEMBER, SECOND_BOARD_MEMBER, new_board_member]
    );
}

#[test]
fn add_proposer_test() {
    let mut ms = setup();
    let new_proposer = 4;
    assert_eq!(ms.user_role(new_proposer), UserRole::NoRole);

    let action_id = ms
        .propose_add_proposer(&ctx(FIRST_BOARD_MEMBER), new_proposer, None, false)
        .unwrap();
    sign(&mut ms, action_id, 0);
    perform(&mut ms, action_id);
    assert_eq!(ms.user_role(new_proposer), UserRole::Proposer);

    assert_eq!(ms.get_all_proposers(), vec![new_proposer]);
}

#[test]
fn remove_proposer_test() {
    let mut ms = setup();
    let new_proposer = 4;
    assert_eq!(ms.user_role(new_proposer), UserRole::NoRole);

    let action_id = ms
        .propose_add_proposer(&ctx(FIRST_BOARD_MEMBER), new_proposer, None, false)
        .unwrap();
    sign(&mut ms, action_id, 0);
    perform(&mut ms, action_id);
    assert_eq!(ms.user_role(new_proposer), UserRole::Proposer);
    assert_eq!(ms.get_all_proposers(), vec![new_proposer]);

    let action_id = ms
        .propose_remove_user(&ctx(FIRST_BOARD_MEMBER), new_proposer, None, false)
        .unwrap();
    sign(&mut ms, action_id, 1);
    perform(&mut ms, action_id);
    assert_eq!(ms.user_role(new_proposer), UserRole::NoRole);
}

#[test]
fn try_remove_all_board_members_test() {
    let mut ms = setup();
    let action_id = ms
        .propose_remove_user(&ctx(FIRST_BOARD_MEMBER), FIRST_BOARD_MEMBER, None, false)
        .unwrap();
    sign(&mut ms, action_id, 0);
    perform_and_expect_err(&mut ms, action_id, MultisigError::QuorumExceedsBoardSize);
}

#[test]
fn change_quorum_test() {
    let mut ms = setup();

    // try change quorum > board size
    let new_quorum = 3;
    let action_id = ms
        .propose_change_quorum(&ctx(FIRST_BOARD_MEMBER), new_quorum, None, false)
        .unwrap();
    sign(&mut ms, action_id, 0);
    perform_and_expect_err(&mut ms, action_id, MultisigError::QuorumExceedsBoardSize);

    // try discard before unsigning
    let r = ms.discard_action_endpoint(&ctx(FIRST_BOARD_MEMBER), action_id);
    assert_eq!(r.unwrap_err(), MultisigError::CannotDiscardSignedAction);

    // unsign and discard action
    ms.unsign(&ctx(FIRST_BOARD_MEMBER), action_id).unwrap();
    ms.unsign(&ctx(SECOND_BOARD_MEMBER), action_id).unwrap();
    ms.discard_action_endpoint(&ctx(FIRST_BOARD_MEMBER), action_id).unwrap();

    // try sign discarded action
    let sigs = vec![signature(FIRST_BOARD_MEMBER, 1, ActionType::SimpleAction)];
    let r = ms.sign(action_id, &sigs, &vec![true]);
    assert_eq!(r.unwrap_err(), MultisigError::ActionDoesNotExist);

    // add another board member
    let new_board_member = 4;
    assert_eq!(ms.user_role(new_board_member), UserRole::NoRole);
    let action_id = ms
        .propose_add_board_member(&ctx(FIRST_BOARD_MEMBER), new_board_member, None, false)
        .unwrap();
    sign(&mut ms, action_id, 1);
    perform(&mut ms, action_id);
    assert_eq!(ms.user_role(new_board_member), UserRole::BoardMember);

    // change quorum to 3
    let action_id = ms
        .propose_change_quorum(&ctx(FIRST_BOARD_MEMBER), new_quorum, None, false)
        .unwrap();
    sign(&mut ms, action_id, 2);
    perform(&mut ms, action_id);
    assert_eq!(ms.get_quorum(), 3);
}

#[test]
fn transfer_execute_to_user_test() {
    let mut ms = setup();
    let new_user = 4;
    let egld_balance = 100;

    // failed attempt
    let r = ms.propose_transfer_execute(
        &ctx(FIRST_BOARD_MEMBER),
        new_user,
        0,
        None,
        Vec::new(),
        Vec::new(),
        None,
        false,
    );
    assert_eq!(r.unwrap_err(), MultisigError::ActionHasNoEffect);

    // propose
    let action_id = propose_transfer_execute(&mut ms, new_user, egld_balance, &[], Vec::new());
    sign(&mut ms, action_id, 0);
    match perform(&mut ms, action_id) {
        Action::SendTransferExecuteEgld(call) => {
            assert_eq!(call.to, new_user);
            assert_eq!(call.egld_amount, egld_balance);
            assert!(call.endpoint_name.is_empty());
        }
        _ => panic!("expected a transfer"),
    }
}

#[test]
fn transfer_execute_sc_call_test() {
    let mut ms = setup();
    let args = vec![vec![5u8]];
    let action_id = propose_transfer_execute(&mut ms, ADDER, 0, b"add", args.clone());
    sign(&mut ms, action_id, 0);
    match perform(&mut ms, action_id) {
        Action::SendTransferExecuteEgld(call) => {
            assert_eq!(call.to, ADDER);
            assert_eq!(call.endpoint_name, b"add".to_vec());
            assert_eq!(call.arguments, args);
        }
        _ => panic!("expected a transfer"),
    }
}

#[test]
fn transfer_execute_batch_test() {
    let mut ms = setup();
    let encoded_arg = 5u32.to_be_bytes().to_vec();
    let single_action = || {
        Action::SendTransferExecuteEgld(CallActionData {
            to: ADDER,
            egld_amount: 0,
            opt_gas_limit: None,
            endpoint_name: b"add".to_vec(),
            arguments: vec![encoded_arg.clone()],
        })
    };
    let group_id = ms
        .propose_batch(
            &ctx(FIRST_BOARD_MEMBER),
            vec![single_action(), single_action()],
            &vec![SHARD, SHARD],
        )
        .unwrap();

    let sigs = vec![signature(SECOND_BOARD_MEMBER, 0, ActionType::Group)];
    let performed = ms
        .sign_batch_and_perform(&ctx(SECOND_BOARD_MEMBER), group_id, &sigs, &vec![true])
        .unwrap();
    assert_eq!(performed.len(), 2);
    for action in performed {
        match action {
            Action::SendTransferExecuteEgld(call) => {
                assert_eq!(call.to, ADDER);
                assert_eq!(call.endpoint_name, b"add".to_vec());
                assert_eq!(call.arguments, vec![encoded_arg.clone()]);
            }
            _ => panic!("expected a transfer"),
        }
    }
}

#[test]
fn async_call_to_sc_test() {
    let mut ms = setup();
    let args = vec![vec![5u8]];
    let action_id = ms
        .propose_async_call(
            &ctx(FIRST_BOARD_MEMBER),
            ADDER,
            0,
            None,
            b"add".to_vec(),
            args.clone(),
            None,
            false,
        )
        .unwrap();
    sign(&mut ms, action_id, 0);
    match perform(&mut ms, action_id) {
        Action::SendAsyncCall(call) => {
            assert_eq!(call.to, ADDER);
            assert_eq!(call.endpoint_name, b"add".to_vec());
            assert_eq!(call.arguments, args);
        }
        _ => panic!("expected an asynchronous call"),
    }
}

#[test]
fn proposer_signs_own_proposal() {
    let mut ms = setup();
    let action_id = propose(&mut ms, Action::ChangeQuorum(1));
    assert_eq!(ms.get_action_signer_ids(action_id), vec![1]);
    assert!(!ms.quorum_reached(action_id));
    sign(&mut ms, action_id, 0);
    assert!(ms.quorum_reached(action_id));
    assert_eq!(ms.get_action_valid_signer_count(action_id), 2);
}

#[test]
fn performed_action_is_gone() {
    let mut ms = setup();
    let action_id = propose(&mut ms, Action::ChangeQuorum(1));
    sign(&mut ms, action_id, 0);
    perform(&mut ms, action_id);
    assert_eq!(ms.get_quorum(), 1);
    assert_eq!(
        ms.require_action_exists(action_id).unwrap_err(),
        MultisigError::ActionDoesNotExist
    );
    assert!(ms.get_action_signer_ids(action_id).is_empty());
    // it has no signers left, so it cannot be performed again
    perform_and_expect_err(&mut ms, action_id, MultisigError::QuorumNotReached);
}

#[test]
fn sign_then_unsign_restores_signers() {
    let mut ms = setup();
    let action_id = propose(&mut ms, Action::ChangeQuorum(1));
    sign(&mut ms, action_id, 0);
    assert_eq!(ms.get_action_signer_ids(action_id), vec![1, 2]);
    ms.unsign(&ctx(SECOND_BOARD_MEMBER), action_id).unwrap();
    assert_eq!(ms.get_action_signer_ids(action_id), vec![1]);
}

#[test]
fn refused_signatures() {
    let mut ms = setup();
    let action_id = propose(&mut ms, Action::ChangeQuorum(1));
    let wrong_nonce = vec![signature(SECOND_BOARD_MEMBER, 5, ActionType::SimpleAction)];
    assert_eq!(
        ms.sign(action_id, &wrong_nonce, &vec![true]).unwrap_err(),
        MultisigError::InvalidNonce
    );
    let wrong_type = vec![signature(SECOND_BOARD_MEMBER, 0, ActionType::Group)];
    assert_eq!(
        ms.sign(action_id, &wrong_type, &vec![true]).unwrap_err(),
        MultisigError::WrongActionTypeSigned
    );
    let unknown = vec![signature(77, 0, ActionType::SimpleAction)];
    assert_eq!(ms.sign(action_id, &unknown, &vec![true]).unwrap_err(), MultisigError::UnknownAddress);
    let bad = vec![signature(SECOND_BOARD_MEMBER, 0, ActionType::SimpleAction)];
    assert_eq!(
        ms.sign(action_id, &bad, &vec![false]).unwrap_err(),
        MultisigError::Ed25519CheckFailed
    );
    // nothing was used up by the refused attempts
    sign(&mut ms, action_id, 0);
}

#[test]
fn aborted_batch_is_frozen() {
    let mut ms = setup();
    let group_id = ms
        .propose_batch(&ctx(FIRST_BOARD_MEMBER), vec![Action::ChangeQuorum(1)], &vec![SHARD])
        .unwrap();
    let action_id = ms.get_action_group(group_id)[0] as ActionId;
    ms.unsign(&ctx(FIRST_BOARD_MEMBER), action_id).unwrap();
    ms.discard_action_endpoint(&ctx(FIRST_BOARD_MEMBER), action_id).unwrap();
    assert_eq!(
        ms.perform_batch(&ctx(FIRST_BOARD_MEMBER), group_id).unwrap_err(),
        MultisigError::CannotPerformAbortedBatch
    );
}

#[test]
fn init_refusals() {
    assert_eq!(Multisig::init(1, vec![]).err(), Some(MultisigError::EmptyBoard));
    assert_eq!(Multisig::init(3, vec![1, 2]).err(), Some(MultisigError::QuorumExceedsBoardSize));
    assert_eq!(Multisig::init(1, vec![1, 1]).err(), Some(MultisigError::AddressAlreadyRegistered));
    let too_many: Vec<u64> = (1..=31).collect();
    assert_eq!(Multisig::init(1, too_many).err(), Some(MultisigError::BoardSizeLimit));
}

#[test]
fn pending_action_full_info() {
    let mut ms = setup();
    let first = propose(&mut ms, Action::ChangeQuorum(1));
    let second = propose(&mut ms, Action::AddProposer(9));
    ms.unsign(&ctx(FIRST_BOARD_MEMBER), first).unwrap();
    ms.discard_action_endpoint(&ctx(FIRST_BOARD_MEMBER), first).unwrap();
    let infos = ms.get_pending_action_full_info(None).unwrap();
    assert_eq!(infos.len(), 1);
    assert_eq!(infos[0].action_id, second);
    assert_eq!(infos[0].signers, vec![FIRST_BOARD_MEMBER]);
    assert_eq!(
        ms.get_pending_action_full_info(Some((0, 3))).unwrap_err(),
        MultisigError::FirstActionOutOfRange
    );
    assert_eq!(
        ms.get_pending_action_full_info(Some((2, 1))).unwrap_err(),
        MultisigError::RangeExceedsActions
    );
}

#[test]
fn module_owner_manages_its_module() {
    let mut ms = setup();
    let module = 500;
    assert_eq!(ms.get_module_status(module).unwrap_err(), MultisigError::UnknownAddress);
    let owner_id = ms.get_user_id(FIRST_BOARD_MEMBER);
    assert_eq!(ms.insert_module(module, owner_id).unwrap(), 1);
    assert_eq!(
        ms.insert_module(module, owner_id).unwrap_err(),
        MultisigError::AddressAlreadyRegistered
    );
    // a new module starts disabled and is not asked
    assert_eq!(ms.get_module_status(module).unwrap(), false);
    assert_eq!(ms.can_execute_action(&ctx(FIRST_BOARD_MEMBER), module, 0, &Vec::new(), true).unwrap(), false);

    assert_eq!(
        ms.enable_module(&ctx(SECOND_BOARD_MEMBER), module).unwrap_err(),
        MultisigError::OnlyModuleOwner
    );
    assert_eq!(
        ms.enable_module(&ctx(MS_OWNER), module).unwrap_err(),
        MultisigError::OnlyProposersCanPropose
    );
    ms.enable_module(&ctx(FIRST_BOARD_MEMBER), module).unwrap();
    assert_eq!(ms.get_module_status(module).unwrap(), true);
    assert_eq!(ms.can_execute_action(&ctx(FIRST_BOARD_MEMBER), module, 0, &Vec::new(), true).unwrap(), true);
    assert_eq!(ms.can_execute_action(&ctx(FIRST_BOARD_MEMBER), module, 0, &Vec::new(), false).unwrap(), false);
    // the second board member is neither owner nor allowed
    assert_eq!(ms.can_execute_action(&ctx(SECOND_BOARD_MEMBER), module, 0, &Vec::new(), true).unwrap(), false);
    // a caller that is no user fails the transaction
    assert_eq!(
        ms.can_execute_action(&ctx(MS_OWNER), module, 0, &Vec::new(), true).unwrap_err(),
        MultisigError::UnknownAddress
    );

    assert_eq!(
        ms.add_additional_allowed_addresses(&ctx(FIRST_BOARD_MEMBER), module, &vec![SECOND_BOARD_MEMBER, MS_OWNER])
            .unwrap_err(),
        MultisigError::OnlyProposersCanPropose
    );
    assert_eq!(ms.can_execute_action(&ctx(SECOND_BOARD_MEMBER), module, 0, &Vec::new(), true).unwrap(), false);
    ms.add_additional_allowed_addresses(&ctx(FIRST_BOARD_MEMBER), module, &vec![SECOND_BOARD_MEMBER])
        .unwrap();
    assert_eq!(ms.can_execute_action(&ctx(SECOND_BOARD_MEMBER), module, 0, &Vec::new(), true).unwrap(), true);

    assert_eq!(
        ms.remove_additional_allowed_addresses(
            &ctx(FIRST_BOARD_MEMBER),
            module,
            &vec![SECOND_BOARD_MEMBER, SECOND_BOARD_MEMBER]
        )
        .unwrap_err(),
        MultisigError::AddressNotInList
    );
    ms.remove_additional_allowed_addresses(&ctx(FIRST_BOARD_MEMBER), module, &vec![SECOND_BOARD_MEMBER])
        .unwrap();
    assert_eq!(ms.can_execute_action(&ctx(SECOND_BOARD_MEMBER), module, 0, &Vec::new(), true).unwrap(), false);

    let payments = vec![EsdtTokenPayment::new(b"TOK-123456".to_vec(), 0, 9)];
    let query = ms
        .can_execute_query(&ctx(FIRST_BOARD_MEMBER), module, 5, &payments)
        .unwrap()
        .unwrap();
    assert_eq!(query.module, module);
    assert_eq!(query.original_caller, FIRST_BOARD_MEMBER);
    assert_eq!(query.egld_value, 5);
    assert_eq!(query.esdt_payments[0].amount, 9);
    assert!(ms
        .can_execute_query(&ctx(SECOND_BOARD_MEMBER), module, 5, &payments)
        .unwrap()
        .is_none());

    ms.disable_module(&ctx(FIRST_BOARD_MEMBER), module).unwrap();
    assert_eq!(ms.can_execute_action(&ctx(FIRST_BOARD_MEMBER), module, 0, &Vec::new(), true).unwrap(), false);
}

#[test]
fn batch_needs_the_wallet_quorum() {
    let mut ms = setup();
    let action = Action::SendTransferExecuteEgld(CallActionData {
        to: ADDER,
        egld_amount: 1,
        opt_gas_limit: None,
        endpoint_name: Vec::new(),
        arguments: Vec::new(),
    });
    let group_id = ms
        .propose_batch(&ctx(FIRST_BOARD_MEMBER), vec![action], &vec![SHARD])
        .unwrap();
    // only the proposer signed: one signature short of the quorum of 2
    let action_ids = ms.get_action_group(group_id);
    assert!(!ms.quorum_reached(action_ids[0] as usize));
    assert_eq!(
        ms.perform_batch(&ctx(FIRST_BOARD_MEMBER), group_id).err().unwrap(),
        MultisigError::QuorumNotReached
    );
}

#[test]
fn add_can_execute_module_test() {
    let mut ms = setup();
    let can_execute_mock = 600;

    let action_id = propose(&mut ms, Action::AddModule(can_execute_mock));
    assert_eq!(action_id, 1);
    // try to perform the action without enough signatures
    perform_and_expect_err(&mut ms, action_id, MultisigError::QuorumNotReached);
    // the other board member signs; now it performs
    sign(&mut ms, action_id, 0);
    assert!(matches!(perform(&mut ms, action_id), Action::AddModule(m) if m == can_execute_mock));

    // the storage writes of registering the module, owned by the proposer
    let owner_id = ms.get_user_id(FIRST_BOARD_MEMBER);
    ms.insert_module(can_execute_mock, owner_id).unwrap();
    ms.enable_module(&ctx(FIRST_BOARD_MEMBER), can_execute_mock).unwrap();

    // the module is asked about a transfer-execute of the proposer, and
    // its approval lets it run with no signatures
    let query = ms
        .can_execute_query(&ctx(FIRST_BOARD_MEMBER), can_execute_mock, 0, &Vec::new())
        .unwrap()
        .unwrap();
    assert_eq!(query.original_caller, FIRST_BOARD_MEMBER);
    assert!(ms
        .can_execute_action(&ctx(FIRST_BOARD_MEMBER), can_execute_mock, 0, &Vec::new(), true)
        .unwrap());

    // a proposal still takes an action id
    let transfer_id = propose_transfer_execute(&mut ms, ADDER, 0, b"add", vec![5u32.to_be_bytes().to_vec()]);
    assert_eq!(transfer_id, 2);

    // remove the module: ID is 3
    let action_id = propose(&mut ms, Action::RemoveModule(can_execute_mock));
    assert_eq!(action_id, 3);
    sign(&mut ms, action_id, 1);
    assert!(matches!(perform(&mut ms, action_id), Action::RemoveModule(m) if m == can_execute_mock));
}
