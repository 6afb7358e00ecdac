//! The settings of a game and the reasons the game contract refuses a call.
use vstd::prelude::*;
use crate::common::Address;

verus! {

/// A game is valid once it gathered its minimum number of players.
#[derive(Clone, Copy, Debug, PartialEq, Eq, Structural)]
pub enum Status {
    Valid,
    Invalid,
}

/// The settings of a game. `wager` stands for the contract's big unsigned
/// integer amount.
#[derive(Clone, Copy, Debug, PartialEq, Eq, Structural)]
pub struct GameSettings {
    pub time_limit: u64,
    pub number_of_players_min: u64,
    pub number_of_players_max: u64,
    pub wager: u128,
    pub creator: Address,
    pub status: Status,
}

/// The reasons a game endpoint fails; each names the message the contract
/// fails with.
#[derive(Clone, Copy, Debug, PartialEq, Eq, Structural)]
pub enum GameError {
    /// "maintenance"
    Maintenance,
    /// "game start fee not set"
    GameStartFeeNotSet,
    /// "fee token id not set"
    FeeTokenIdNotSet,
    /// "incorrect number of ESDT transfers"
    IncorrectNumberOfEsdtTransfers,
    /// "fungible ESDT token expected"
    FungibleTokenExpected,
    /// "wager can't be 0"
    WagerZero,
    /// "waiting time can't be 0"
    WaitingTimeZero,
    /// "wrong token id"
    WrongTokenId,
    /// "start game payment amount not right"
    WrongStartPayment,
    /// "number of players cannot be 0"
    NumberOfPlayersZero,
    /// "no settings for game id"
    NoSettingsForGameId,
    /// "user already joined this game"
    UserAlreadyJoined,
    /// "waiting time has passed"
    WaitingTimePassed,
    /// "max number of players reached"
    MaxPlayersReached,
    /// "wrong token sent"
    WrongTokenSent,
    /// "wrong amount paid"
    WrongAmountPaid,
    /// "caller has not joined the game"
    CallerNotJoined,
    /// "waiting time is not over yet"
    WaitingTimeNotOver,
    /// "can manually claim back wager only if the game is invalid"
    GameNotInvalid,
    /// "Item not whitelisted"
    NotAdmin,
    /// "Endpoint can only be called by owner"
    NotOwner,
    /// A number would exceed its width; the virtual machine fails such a transaction.
    ArithmeticOverflow,
}

} // verus!
