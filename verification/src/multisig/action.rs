//! The actions a multisig wallet can be asked to perform.
use vstd::prelude::*;
use crate::common::{Address, EsdtTokenPayment, PaymentView};

verus! {

pub type GasLimit = u64;

pub type Nonce = u64;

pub type ActionId = usize;

pub type GroupId = usize;

/// Whether the actions of a batch may still be signed and performed.
#[derive(Clone, Copy, Debug, PartialEq, Eq, Structural)]
pub enum ActionStatus {
    Available,
    Aborted,
}

/// A call with an EGLD transfer. `egld_amount` stands for the contract's
/// big unsigned integer amount.
#[derive(Clone, Debug)]
pub struct CallActionData {
    pub to: Address,
    pub egld_amount: u128,
    pub opt_gas_limit: Option<GasLimit>,
    pub endpoint_name: Vec<u8>,
    pub arguments: Vec<Vec<u8>>,
}

/// A call with ESDT transfers.
#[derive(Clone, Debug)]
pub struct EsdtTransferExecuteData {
    pub to: Address,
    pub tokens: Vec<EsdtTokenPayment>,
    pub opt_gas_limit: Option<GasLimit>,
    pub endpoint_name: Vec<u8>,
    pub arguments: Vec<Vec<u8>>,
}

/// The arguments of a deployment or upgrade from the code of another
/// contract. `code_metadata` holds the code metadata flags.
#[derive(Clone, Debug)]
pub struct DeployArgs {
    pub amount: u128,
    pub source: Address,
    pub code_metadata: u16,
    pub arguments: Vec<Vec<u8>>,
}

/// An action of the wallet.
#[derive(Clone, Debug)]
pub enum Action {
    Nothing,
    AddBoardMember(Address),
    AddProposer(Address),
    RemoveUser(Address),
    ChangeQuorum(usize),
    SendTransferExecuteEgld(CallActionData),
    SendTransferExecuteEsdt(EsdtTransferExecuteData),
    SendAsyncCall(CallActionData),
    SCDeployFromSource(DeployArgs),
    SCUpgradeFromSource { sc_address: Address, args: DeployArgs },
    AddModule(Address),
    RemoveModule(Address),
}

impl Action {
    /// Only pending actions are kept; performed and discarded ones become
    /// `Nothing`. So this is `action != Action::Nothing`.
    pub fn is_pending(&self) -> (b: bool)
        ensures
            b == !(*self is Nothing),
    {
        !self.is_nothing()
    }

    pub fn is_nothing(&self) -> (b: bool)
        ensures
            b == (*self is Nothing),
    {
        match self {
            Action::Nothing => true,
            _ => false,
        }
    }

    pub fn is_async_call(&self) -> (b: bool)
        ensures
            b == (*self is SendAsyncCall),
    {
        match self {
            Action::SendAsyncCall(_) => true,
            _ => false,
        }
    }

    pub fn is_sc_upgrade(&self) -> (b: bool)
        ensures
            b == (*self is SCUpgradeFromSource),
    {
        match self {
            Action::SCUpgradeFromSource { .. } => true,
            _ => false,
        }
    }
}

/// A pending action with its id, its batch, and the addresses that signed it.
#[derive(Clone, Debug)]
pub struct ActionFullInfo {
    pub action_id: ActionId,
    pub group_id: GroupId,
    pub action_data: Action,
    pub signers: Vec<Address>,
}

} // verus!

verus! {

/// The arguments as byte sequences.
pub open spec fn args_view(v: Seq<Vec<u8>>) -> Seq<Seq<u8>> {
    v.map_values(|a: Vec<u8>| a@)
}

/// The tokens as plain values.
pub open spec fn tokens_view(v: Seq<EsdtTokenPayment>) -> Seq<PaymentView> {
    v.map_values(|p: EsdtTokenPayment| p@)
}

/// A call with an EGLD transfer, as plain values.
pub ghost struct CallModel {
    pub to: Address,
    pub egld_amount: u128,
    pub opt_gas_limit: Option<GasLimit>,
    pub endpoint_name: Seq<u8>,
    pub arguments: Seq<Seq<u8>>,
}

/// A call with ESDT transfers, as plain values.
pub ghost struct EsdtCallModel {
    pub to: Address,
    pub tokens: Seq<PaymentView>,
    pub opt_gas_limit: Option<GasLimit>,
    pub endpoint_name: Seq<u8>,
    pub arguments: Seq<Seq<u8>>,
}

/// Deployment arguments, as plain values.
pub ghost struct DeployModel {
    pub amount: u128,
    pub source: Address,
    pub code_metadata: u16,
    pub arguments: Seq<Seq<u8>>,
}

/// An action, as plain values.
pub ghost enum ActionModel {
    Nothing,
    AddBoardMember(Address),
    AddProposer(Address),
    RemoveUser(Address),
    ChangeQuorum(usize),
    SendTransferExecuteEgld(CallModel),
    SendTransferExecuteEsdt(EsdtCallModel),
    SendAsyncCall(CallModel),
    SCDeployFromSource(DeployModel),
    SCUpgradeFromSource { sc_address: Address, args: DeployModel },
    AddModule(Address),
    RemoveModule(Address),
}

impl View for CallActionData {
    type V = CallModel;

    open spec fn view(&self) -> CallModel {
        CallModel {
            to: self.to,
            egld_amount: self.egld_amount,
            opt_gas_limit: self.opt_gas_limit,
            endpoint_name: self.endpoint_name@,
            arguments: args_view(self.arguments@),
        }
    }
}

impl View for EsdtTransferExecuteData {
    type V = EsdtCallModel;

    open spec fn view(&self) -> EsdtCallModel {
        EsdtCallModel {
            to: self.to,
            tokens: tokens_view(self.tokens@),
            opt_gas_limit: self.opt_gas_limit,
            endpoint_name: self.endpoint_name@,
            arguments: args_view(self.arguments@),
        }
    }
}

impl View for DeployArgs {
    type V = DeployModel;

    open spec fn view(&self) -> DeployModel {
        DeployModel {
            amount: self.amount,
            source: self.source,
            code_metadata: self.code_metadata,
            arguments: args_view(self.arguments@),
        }
    }
}

impl View for Action {
    type V = ActionModel;

    open spec fn view(&self) -> ActionModel {
        match self {
            Action::Nothing => ActionModel::Nothing,
            Action::AddBoardMember(a) => ActionModel::AddBoardMember(*a),
            Action::AddProposer(a) => ActionModel::AddProposer(*a),
            Action::RemoveUser(a) => ActionModel::RemoveUser(*a),
            Action::ChangeQuorum(q) => ActionModel::ChangeQuorum(*q),
            Action::SendTransferExecuteEgld(d) => ActionModel::SendTransferExecuteEgld(d@),
            Action::SendTransferExecuteEsdt(d) => ActionModel::SendTransferExecuteEsdt(d@),
            Action::SendAsyncCall(d) => ActionModel::SendAsyncCall(d@),
            Action::SCDeployFromSource(d) => ActionModel::SCDeployFromSource(d@),
            Action::SCUpgradeFromSource { sc_address, args } => ActionModel::SCUpgradeFromSource {
                sc_address: *sc_address,
                args: args@,
            },
            Action::AddModule(a) => ActionModel::AddModule(*a),
            Action::RemoveModule(a) => ActionModel::RemoveModule(*a),
        }
    }
}

/// A copy of a list of byte buffers.
pub fn duplicate_args(v: &Vec<Vec<u8>>) -> (r: Vec<Vec<u8>>)
    ensures
        args_view(r@) == args_view(v@),
{
    let mut r: Vec<Vec<u8>> = Vec::new();
    let mut i: usize = 0;
    while i < v.len()
        invariant
            i <= v.len(),
            r@.len() == i,
            forall|j: int| 0 <= j < i ==> r@[j]@ == v@[j]@,
        decreases v.len() - i,
    {
        r.push(v[i].clone());
        i = i + 1;
    }
    assert(args_view(r@) =~= args_view(v@));
    r
}

/// A copy of a list of payments.
pub fn duplicate_tokens(v: &Vec<EsdtTokenPayment>) -> (r: Vec<EsdtTokenPayment>)
    ensures
        tokens_view(r@) == tokens_view(v@),
{
    let mut r: Vec<EsdtTokenPayment> = Vec::new();
    let mut i: usize = 0;
    while i < v.len()
        invariant
            i <= v.len(),
            r@.len() == i,
            forall|j: int| 0 <= j < i ==> r@[j]@ == v@[j]@,
        decreases v.len() - i,
    {
        r.push(v[i].duplicate());
        i = i + 1;
    }
    assert(tokens_view(r@) =~= tokens_view(v@));
    r
}

impl CallActionData {
    pub fn duplicate(&self) -> (r: Self)
        ensures
            r@ == self@,
    {
        CallActionData {
            to: self.to,
            egld_amount: self.egld_amount,
            opt_gas_limit: self.opt_gas_limit,
            endpoint_name: self.endpoint_name.clone(),
            arguments: duplicate_args(&self.arguments),
        }
    }
}

impl EsdtTransferExecuteData {
    pub fn duplicate(&self) -> (r: Self)
        ensures
            r@ == self@,
    {
        EsdtTransferExecuteData {
            to: self.to,
            tokens: duplicate_tokens(&self.tokens),
            opt_gas_limit: self.opt_gas_limit,
            endpoint_name: self.endpoint_name.clone(),
            arguments: duplicate_args(&self.arguments),
        }
    }
}

impl DeployArgs {
    pub fn duplicate(&self) -> (r: Self)
        ensures
            r@ == self@,
    {
        DeployArgs {
            amount: self.amount,
            source: self.source,
            code_metadata: self.code_metadata,
            arguments: duplicate_args(&self.arguments),
        }
    }
}

impl Action {
    /// A copy of the action.
    pub fn duplicate(&self) -> (r: Self)
        ensures
            r@ == self@,
    {
        match self {
            Action::Nothing => Action::Nothing,
            Action::AddBoardMember(a) => Action::AddBoardMember(*a),
            Action::AddProposer(a) => Action::AddProposer(*a),
            Action::RemoveUser(a) => Action::RemoveUser(*a),
            Action::ChangeQuorum(q) => Action::ChangeQuorum(*q),
            Action::SendTransferExecuteEgld(d) => Action::SendTransferExecuteEgld(d.duplicate()),
            Action::SendTransferExecuteEsdt(d) => Action::SendTransferExecuteEsdt(d.duplicate()),
            Action::SendAsyncCall(d) => Action::SendAsyncCall(d.duplicate()),
            Action::SCDeployFromSource(d) => Action::SCDeployFromSource(d.duplicate()),
            Action::SCUpgradeFromSource { sc_address, args } => Action::SCUpgradeFromSource {
                sc_address: *sc_address,
                args: args.duplicate(),
            },
            Action::AddModule(a) => Action::AddModule(*a),
            Action::RemoveModule(a) => Action::RemoveModule(*a),
        }
    }
}

} // verus!
