//! The storage of the wager game and its endpoints.
use vstd::prelude::*;
use std::collections::HashMap;
use crate::big_uint::BigUint;
use crate::common::{
    bytes_eq, copy_vec, payout_of, payouts_view, transfer_of, transfers_view, Address, BigPayment,
    EsdtTokenPayment, PaymentView, Payout, PayoutView, Transfer, TransferView, TxContext,
};
use crate::unordered_set::{insert_value, remove_value, UnorderedSet};
use super::types::{GameError, GameSettings, Status};

verus! {

/// Reward percentages are given in hundredths of a percent.
pub const DENOM: u64 = 10_000;

/// The game contract's storage as plain values. Games are numbered from 1;
/// the game numbered `n` sits at position `n - 1`.
pub ghost struct GameState {
    pub owner: Address,
    /// The token that fees and wagers are paid in; empty when not set.
    pub token_id: Seq<u8>,
    /// The fee for opening a game; 0 when not set.
    pub game_start_fee: u128,
    pub enabled: bool,
    pub admins: Seq<Address>,
    pub last_game_id: u64,
    /// The settings of each game; a game whose pot was handed back has none.
    pub games: Seq<Option<GameSettings>>,
    /// The id recorded for the settings of each game as it was opened, in
    /// order; a later entry for equal settings replaces an earlier one.
    pub ids_by_settings: Seq<(GameSettings, u64)>,
    pub players: Seq<Seq<Address>>,
    pub games_per_user: Map<Address, Seq<u64>>,
}

/// The game ids match the game table.
pub open spec fn game_state_wf(s: GameState) -> bool {
    &&& s.games.len() == s.last_game_id
    &&& s.players.len() == s.last_game_id
    &&& forall|u: Address| #[trigger]
        s.games_per_user.contains_key(u) ==> s.games_per_user[u].no_duplicates()
}

pub open spec fn settings_of(s: GameState, game_id: u64) -> Option<GameSettings> {
    if 1 <= game_id <= s.games.len() {
        s.games[game_id - 1]
    } else {
        None
    }
}

pub open spec fn players_of(s: GameState, game_id: u64) -> Seq<Address> {
    if 1 <= game_id <= s.players.len() {
        s.players[game_id - 1]
    } else {
        Seq::empty()
    }
}

pub open spec fn games_of_user(s: GameState, user: Address) -> Seq<u64> {
    if s.games_per_user.contains_key(user) {
        s.games_per_user[user]
    } else {
        Seq::empty()
    }
}

/// The id last recorded for `settings`, or 0.
pub open spec fn id_by_settings(list: Seq<(GameSettings, u64)>, settings: GameSettings) -> u64
    decreases list.len(),
{
    if list.len() == 0 {
        0
    } else if list.last().0 == settings {
        list.last().1
    } else {
        id_by_settings(list.drop_last(), settings)
    }
}

/// The single fungible payment of a call, or why there is none.
pub open spec fn single_fungible(payments: Seq<PaymentView>) -> Result<PaymentView, GameError> {
    if payments.len() != 1 {
        Err(GameError::IncorrectNumberOfEsdtTransfers)
    } else if payments[0].token_nonce != 0 {
        Err(GameError::FungibleTokenExpected)
    } else {
        Ok(payments[0])
    }
}

pub open spec fn payments_view(v: Seq<EsdtTokenPayment>) -> Seq<PaymentView> {
    v.map_values(|p: EsdtTokenPayment| p@)
}

/// What deploying the contract does: the caller becomes the owner; a flag
/// given for `enabled`, whatever its value, enables the contract; the start
/// fee and the token must be given.
pub open spec fn init_outcome(
    caller: Address,
    enabled_opt: Option<bool>,
    fee_opt: Option<u128>,
    token_opt: Option<Seq<u8>>,
) -> Result<GameState, GameError> {
    if fee_opt is None {
        Err(GameError::GameStartFeeNotSet)
    } else if token_opt is None {
        Err(GameError::FeeTokenIdNotSet)
    } else {
        Ok(
            GameState {
                owner: caller,
                token_id: token_opt->Some_0,
                game_start_fee: fee_opt->Some_0,
                enabled: enabled_opt is Some,
                admins: Seq::empty(),
                last_game_id: 0,
                games: Seq::empty(),
                ids_by_settings: Seq::empty(),
                players: Seq::empty(),
                games_per_user: Map::empty(),
            },
        )
    }
}

/// The storage after `user` joins game `game_id`.
pub open spec fn with_player(s: GameState, user: Address, game_id: u64) -> GameState {
    GameState {
        games_per_user: s.games_per_user.insert(user, insert_value(games_of_user(s, user), game_id)),
        players: if 1 <= game_id <= s.players.len() {
            s.players.update(game_id - 1, insert_value(s.players[game_id - 1], user))
        } else {
            s.players
        },
        ..s
    }
}

/// The storage after `user` leaves game `game_id`.
pub open spec fn without_player(s: GameState, user: Address, game_id: u64) -> GameState {
    GameState {
        games_per_user: s.games_per_user.insert(user, remove_value(games_of_user(s, user), game_id)),
        players: if 1 <= game_id <= s.players.len() {
            s.players.update(game_id - 1, remove_value(s.players[game_id - 1], user))
        } else {
            s.players
        },
        ..s
    }
}

/// What `createGame` does: the contract must be enabled, the call must pay
/// exactly the start fee in the game's token, the wager and the waiting time
/// must not be 0, and neither player bound may be 0. The new game, numbered
/// after the last one, runs until the current time plus the waiting time,
/// takes its player bounds in increasing order, and starts invalid.
pub open spec fn create_game_outcome(
    s: GameState,
    ctx: TxContext,
    payments: Seq<PaymentView>,
    waiting_time: u64,
    number_of_players_min: u64,
    number_of_players_max: u64,
    wager: u128,
) -> Result<(GameState, u64), GameError> {
    if !s.enabled {
        Err(GameError::Maintenance)
    } else {
        match single_fungible(payments) {
            Err(e) => Err(e),
            Ok(p) => if wager == 0 {
                Err(GameError::WagerZero)
            } else if waiting_time == 0 {
                Err(GameError::WaitingTimeZero)
            } else if p.token_identifier != s.token_id {
                Err(GameError::WrongTokenId)
            } else if p.amount != s.game_start_fee {
                Err(GameError::WrongStartPayment)
            } else if number_of_players_min == 0 || number_of_players_max == 0 {
                Err(GameError::NumberOfPlayersZero)
            } else if s.last_game_id >= u64::MAX || s.last_game_id >= usize::MAX
                || ctx.block_timestamp + waiting_time > u64::MAX {
                Err(GameError::ArithmeticOverflow)
            } else {
                let id = (s.last_game_id + 1) as u64;
                let (lo, hi) = if number_of_players_min > number_of_players_max {
                    (number_of_players_max, number_of_players_min)
                } else {
                    (number_of_players_min, number_of_players_max)
                };
                let settings = GameSettings {
                    time_limit: (ctx.block_timestamp + waiting_time) as u64,
                    number_of_players_min: lo,
                    number_of_players_max: hi,
                    wager,
                    creator: ctx.caller,
                    status: Status::Invalid,
                };
                Ok(
                    (
                        GameState {
                            last_game_id: id,
                            games: s.games.push(Some(settings)),
                            ids_by_settings: s.ids_by_settings.push((settings, id)),
                            players: s.players.push(Seq::empty()),
                            ..s
                        },
                        id,
                    ),
                )
            },
        }
    }
}

/// What `joinGame` does: the contract must be enabled, the call must pay
/// exactly the wager in the game's token, the game must exist, the caller
/// must not have joined it, the waiting time must not be over and the game
/// must not be full. The caller joins, and the game becomes valid once it
/// has its minimum number of players.
pub open spec fn join_game_outcome(
    s: GameState,
    ctx: TxContext,
    payments: Seq<PaymentView>,
    game_id: u64,
) -> Result<GameState, GameError> {
    if !s.enabled {
        Err(GameError::Maintenance)
    } else {
        match single_fungible(payments) {
            Err(e) => Err(e),
            Ok(p) => match settings_of(s, game_id) {
                None => Err(GameError::NoSettingsForGameId),
                Some(gs) => if games_of_user(s, ctx.caller).contains(game_id) {
                    Err(GameError::UserAlreadyJoined)
                } else if ctx.block_timestamp > gs.time_limit {
                    Err(GameError::WaitingTimePassed)
                } else if players_of(s, game_id).len() >= gs.number_of_players_max {
                    Err(GameError::MaxPlayersReached)
                } else if p.token_identifier != s.token_id {
                    Err(GameError::WrongTokenSent)
                } else if p.amount != gs.wager {
                    Err(GameError::WrongAmountPaid)
                } else {
                    let t = with_player(s, ctx.caller, game_id);
                    if gs.number_of_players_min <= players_of(t, game_id).len() {
                        Ok(
                            GameState {
                                games: t.games.update(
                                    game_id - 1,
                                    Some(GameSettings { status: Status::Valid, ..gs }),
                                ),
                                ..t
                            },
                        )
                    } else {
                        Ok(t)
                    }
                },
            },
        }
    }
}


/// What `claimBackWager` does: the contract must be enabled, the game must
/// exist, the caller must have joined it, the waiting time must be over and
/// the game must still be invalid. The caller leaves the game and gets its
/// wager back.
pub open spec fn claim_back_wager_outcome(s: GameState, ctx: TxContext, game_id: u64) -> Result<
    (GameState, TransferView),
    GameError,
> {
    if !s.enabled {
        Err(GameError::Maintenance)
    } else {
        match settings_of(s, game_id) {
            None => Err(GameError::NoSettingsForGameId),
            Some(gs) => if !games_of_user(s, ctx.caller).contains(game_id) {
                Err(GameError::CallerNotJoined)
            } else if ctx.block_timestamp <= gs.time_limit {
                Err(GameError::WaitingTimeNotOver)
            } else if gs.status != Status::Invalid {
                Err(GameError::GameNotInvalid)
            } else {
                Ok(
                    (
                        without_player(s, ctx.caller, game_id),
                        transfer_of(ctx.caller, s.token_id, 0, gs.wager),
                    ),
                )
            },
        }
    }
}

/// The wager paid back to each of `players`, in order.
pub open spec fn refunds(players: Seq<Address>, token: Seq<u8>, wager: u128) -> Seq<PayoutView> {
    players.map_values(|p: Address| payout_of(p, token, 0, wager as nat))
}

/// Each winner's share of the pot `total`: its percentage, in hundredths of
/// a percent, of the pot, rounded down.
pub open spec fn rewards(winners: Seq<(Address, u64)>, token: Seq<u8>, total: nat) -> Seq<PayoutView>
    decreases winners.len(),
{
    if winners.len() == 0 {
        Seq::empty()
    } else {
        let (w, pct) = winners.last();
        rewards(winners.drop_last(), token, total).push(
            payout_of(w, token, 0, (pct * total / DENOM as int) as nat),
        )
    }
}

/// What `sendReward` does: the contract must be enabled, the caller must be
/// an admin, the game must exist and its waiting time must be over. An
/// invalid game pays every player its wager back, pays the creator the
/// current start fee and is closed. A valid game pays each winner its share
/// of the pot, the wagers of all its players; with no winners, a draw, it
/// pays every player its wager back. A valid game stays open.
pub open spec fn send_reward_outcome(
    s: GameState,
    ctx: TxContext,
    game_id: u64,
    winners: Option<Seq<(Address, u64)>>,
) -> Result<(GameState, Seq<PayoutView>), GameError> {
    if !s.enabled {
        Err(GameError::Maintenance)
    } else if !s.admins.contains(ctx.caller) {
        Err(GameError::NotAdmin)
    } else {
        match settings_of(s, game_id) {
            None => Err(GameError::NoSettingsForGameId),
            Some(gs) => if ctx.block_timestamp <= gs.time_limit {
                Err(GameError::WaitingTimeNotOver)
            } else {
                let back = refunds(players_of(s, game_id), s.token_id, gs.wager);
                match gs.status {
                    Status::Invalid => Ok(
                        (
                            GameState { games: s.games.update(game_id - 1, None), ..s },
                            back.push(payout_of(gs.creator, s.token_id, 0, s.game_start_fee as nat)),
                        ),
                    ),
                    Status::Valid => match winners {
                        None => Ok((s, back)),
                        Some(ws) => Ok(
                            (s, rewards(ws, s.token_id, (players_of(s, game_id).len() * gs.wager) as nat)),
                        ),
                    },
                }
            },
        }
    }
}

/// The game contract: its storage.
pub struct MvxGameSc {
    owner: Address,
    token_id: Vec<u8>,
    game_start_fee: u128,
    enabled: bool,
    admins: UnorderedSet,
    last_game_id: u64,
    games: Vec<Option<GameSettings>>,
    ids_by_settings: Vec<(GameSettings, u64)>,
    players: Vec<UnorderedSet>,
    games_per_user: HashMap<u64, UnorderedSet>,
}

pub open spec fn sets_view(v: Seq<UnorderedSet>) -> Seq<Seq<u64>> {
    v.map_values(|x: UnorderedSet| x@)
}

impl View for MvxGameSc {
    type V = GameState;

    closed spec fn view(&self) -> GameState {
        GameState {
            owner: self.owner,
            token_id: self.token_id@,
            game_start_fee: self.game_start_fee,
            enabled: self.enabled,
            admins: self.admins@,
            last_game_id: self.last_game_id,
            games: self.games@,
            ids_by_settings: self.ids_by_settings@,
            players: sets_view(self.players@),
            games_per_user: self.games_per_user@.map_values(|x: UnorderedSet| x@),
        }
    }
}


/// An optional byte buffer as an optional byte sequence.
pub open spec fn opt_bytes(o: Option<Vec<u8>>) -> Option<Seq<u8>> {
    match o {
        Some(v) => Some(v@),
        None => None,
    }
}

impl MvxGameSc {
    pub open spec fn wf(&self) -> bool {
        game_state_wf(self@)
    }

    /// Deploys the contract; the caller becomes its owner.
    pub fn init(
        ctx: &TxContext,
        enabled_opt: Option<bool>,
        game_start_fee_opt: Option<u128>,
        token_id_opt: Option<Vec<u8>>,
    ) -> (r: Result<MvxGameSc, GameError>)
        ensures
            match init_outcome(ctx.caller, enabled_opt, game_start_fee_opt, opt_bytes(token_id_opt)) {
                Ok(s) => r is Ok && r->Ok_0@ == s && r->Ok_0.wf(),
                Err(e) => r is Err && r->Err_0 == e,
            },
    {
        let enabled = match enabled_opt {
            Some(_) => true,
            None => false,
        };
        let game_start_fee = match game_start_fee_opt {
            Some(val) => val,
            None => {
                return Err(GameError::GameStartFeeNotSet);
            },
        };
        let token_id = match token_id_opt {
            Some(val) => val,
            None => {
                return Err(GameError::FeeTokenIdNotSet);
            },
        };
        let c = MvxGameSc {
            owner: ctx.caller,
            token_id,
            game_start_fee,
            enabled,
            admins: UnorderedSet::new(),
            last_game_id: 0,
            games: Vec::new(),
            ids_by_settings: Vec::new(),
            players: Vec::new(),
            games_per_user: HashMap::new(),
        };
        proof {
            let v = c@;
            assert(v.games =~= Seq::<Option<GameSettings>>::empty());
            assert(v.ids_by_settings =~= Seq::<(GameSettings, u64)>::empty());
            assert(v.players =~= Seq::<Seq<u64>>::empty());
            assert(v.games_per_user =~= Map::<Address, Seq<u64>>::empty());
        }
        Ok(c)
    }

    /// Fails with "maintenance" unless the contract is enabled.
    pub fn require_enabled(&self) -> (r: Result<(), GameError>)
        ensures
            r is Ok <==> self@.enabled,
            r is Err ==> r == Err::<(), GameError>(GameError::Maintenance),
    {
        if !self.enabled {
            return Err(GameError::Maintenance);
        }
        Ok(())
    }

    /// The token and amount of the single fungible payment of a call.
    pub fn single_fungible_esdt(payments: &Vec<EsdtTokenPayment>) -> (r: Result<
        (Vec<u8>, u128),
        GameError,
    >)
        ensures
            match single_fungible(payments_view(payments@)) {
                Ok(p) => r is Ok && r->Ok_0.0@ == p.token_identifier && r->Ok_0.1 == p.amount,
                Err(e) => r == Err::<(Vec<u8>, u128), GameError>(e),
            },
    {
        if payments.len() != 1 {
            return Err(GameError::IncorrectNumberOfEsdtTransfers);
        }
        let payment = &payments[0];
        if payment.token_nonce != 0 {
            return Err(GameError::FungibleTokenExpected);
        }
        Ok((payment.token_identifier.clone(), payment.amount))
    }

    /// The games `user` joined, in the order kept in storage.
    fn user_games(&self, user: Address) -> (r: UnorderedSet)
        ensures
            r@ == games_of_user(self@, user),
    {
        match self.games_per_user.get(&user) {
            Some(set) => set.duplicate(),
            None => UnorderedSet::new(),
        }
    }

    /// Checks the payment and the arguments of a new game.
    pub fn validate_create_game_payment(
        &self,
        token_id: &Vec<u8>,
        amount: u128,
        wager: u128,
        waiting_time: u64,
    ) -> (r: Result<(), GameError>)
        ensures
            wager == 0 ==> r == Err::<(), GameError>(GameError::WagerZero),
            wager != 0 && waiting_time == 0 ==> r == Err::<(), GameError>(GameError::WaitingTimeZero),
            wager != 0 && waiting_time != 0 && token_id@ != self@.token_id ==> r == Err::<(), GameError>(
                GameError::WrongTokenId,
            ),
            wager != 0 && waiting_time != 0 && token_id@ == self@.token_id && amount
                != self@.game_start_fee ==> r == Err::<(), GameError>(GameError::WrongStartPayment),
            wager != 0 && waiting_time != 0 && token_id@ == self@.token_id && amount
                == self@.game_start_fee ==> r is Ok,
    {
        if wager == 0 {
            return Err(GameError::WagerZero);
        }
        if waiting_time == 0 {
            return Err(GameError::WaitingTimeZero);
        }
        if !bytes_eq(token_id, &self.token_id) {
            return Err(GameError::WrongTokenId);
        }
        if amount != self.game_start_fee {
            return Err(GameError::WrongStartPayment);
        }
        Ok(())
    }

    /// The two player bounds in increasing order; neither may be 0.
    pub fn get_min_max(&self, a: u64, b: u64) -> (r: Result<(u64, u64), GameError>)
        ensures
            a == 0 || b == 0 ==> r == Err::<(u64, u64), GameError>(GameError::NumberOfPlayersZero),
            a != 0 && b != 0 && a > b ==> r == Ok::<(u64, u64), GameError>((b, a)),
            a != 0 && b != 0 && a <= b ==> r == Ok::<(u64, u64), GameError>((a, b)),
    {
        if !(a != 0 && b != 0) {
            return Err(GameError::NumberOfPlayersZero);
        }
        if a > b {
            return Ok((b, a));
        }
        Ok((a, b))
    }

    /// The id of the next game: one after the last.
    pub fn get_new_game_id(&self) -> (id: u64)
        requires
            self@.last_game_id < u64::MAX,
        ensures
            id == self@.last_game_id + 1,
    {
        self.last_game_id + 1
    }

    /// Opens a game with the given settings, invalid until it gathers its
    /// minimum number of players; returns its id.
    pub fn create_new_game(
        &mut self,
        caller: Address,
        now: u64,
        waiting_time: u64,
        min: u64,
        max: u64,
        wager: u128,
    ) -> (id: u64)
        requires
            old(self).wf(),
            old(self)@.last_game_id < u64::MAX,
            old(self)@.last_game_id < usize::MAX,
            now + waiting_time <= u64::MAX,
        ensures
            final(self).wf(),
            id == old(self)@.last_game_id + 1,
            ({
                let s = old(self)@;
                let settings = GameSettings {
                    time_limit: (now + waiting_time) as u64,
                    number_of_players_min: min,
                    number_of_players_max: max,
                    wager,
                    creator: caller,
                    status: Status::Invalid,
                };
                final(self)@ == (GameState {
                    last_game_id: id,
                    games: s.games.push(Some(settings)),
                    ids_by_settings: s.ids_by_settings.push((settings, id)),
                    players: s.players.push(Seq::empty()),
                    ..s
                })
            }),
    {
        let new_id = self.get_new_game_id();
        self.last_game_id = new_id;
        let time_limit = now + waiting_time;
        let game_settings = GameSettings {
            time_limit,
            number_of_players_min: min,
            number_of_players_max: max,
            wager,
            creator: caller,
            status: Status::Invalid,
        };
        self.ids_by_settings.push((game_settings, new_id));
        self.games.push(Some(game_settings));
        let empty = UnorderedSet::new();
        proof {
            assert(sets_view(self.players@.push(empty)) =~= sets_view(self.players@).push(Seq::empty()));
        }
        self.players.push(empty);
        new_id
    }

    /// A user opens a game, paying the start fee; returns the game's id.
    pub fn create_game(
        &mut self,
        ctx: &TxContext,
        payments: &Vec<EsdtTokenPayment>,
        waiting_time: u64,
        number_of_players_min: u64,
        number_of_players_max: u64,
        wager: u128,
    ) -> (r: Result<u64, GameError>)
        requires
            old(self).wf(),
        ensures
            final(self).wf(),
            match create_game_outcome(
                old(self)@,
                *ctx,
                payments_view(payments@),
                waiting_time,
                number_of_players_min,
                number_of_players_max,
                wager,
            ) {
                Ok((t, id)) => r == Ok::<u64, GameError>(id) && final(self)@ == t,
                Err(e) => r == Err::<u64, GameError>(e) && final(self)@ == old(self)@,
            },
    {
        self.require_enabled()?;
        let (token_id, amount) = Self::single_fungible_esdt(payments)?;
        self.validate_create_game_payment(&token_id, amount, wager, waiting_time)?;
        let (min, max) = self.get_min_max(number_of_players_min, number_of_players_max)?;
        if self.last_game_id == u64::MAX || self.games.len() == usize::MAX || waiting_time > u64::MAX
            - ctx.block_timestamp {
            return Err(GameError::ArithmeticOverflow);
        }
        Ok(self.create_new_game(ctx.caller, ctx.block_timestamp, waiting_time, min, max, wager))
    }
}


impl MvxGameSc {
    /// The position of game `game_id` in the game table, if it is a game id.
    fn game_index(&self, game_id: u64) -> (r: Option<usize>)
        requires
            self.wf(),
        ensures
            match r {
                Some(i) => 1 <= game_id <= self@.games.len() && i == game_id - 1,
                None => !(1 <= game_id <= self@.games.len()),
            },
    {
        let n = self.games.len();
        if 1 <= game_id && game_id <= n as u64 {
            Some((game_id - 1) as usize)
        } else {
            None
        }
    }

    /// The settings of game `game_id`, if it has any.
    pub fn get_game_settings(&self, game_id: u64) -> (r: Option<GameSettings>)
        requires
            self.wf(),
        ensures
            r == settings_of(self@, game_id),
    {
        match self.game_index(game_id) {
            Some(i) => self.games[i],
            None => None,
        }
    }

    /// The players of game `game_id`, in the order kept in storage.
    pub fn get_players(&self, game_id: u64) -> (v: Vec<Address>)
        requires
            self.wf(),
        ensures
            v@ == players_of(self@, game_id),
    {
        match self.game_index(game_id) {
            Some(i) => self.players[i].to_vec(),
            None => Vec::new(),
        }
    }

    /// The games `user` joined, in the order kept in storage.
    pub fn get_games_per_user(&self, user: Address) -> (v: Vec<u64>)
        ensures
            v@ == games_of_user(self@, user),
    {
        self.user_games(user).to_vec()
    }

    /// Checks that `caller` may join game `game_id` with the given payment;
    /// returns the game's settings.
    pub fn validate_join_game(
        &self,
        caller: Address,
        now: u64,
        token_id: &Vec<u8>,
        amount: u128,
        game_id: u64,
    ) -> (r: Result<GameSettings, GameError>)
        requires
            self.wf(),
        ensures
            match settings_of(self@, game_id) {
                None => r == Err::<GameSettings, GameError>(GameError::NoSettingsForGameId),
                Some(gs) => if games_of_user(self@, caller).contains(game_id) {
                    r == Err::<GameSettings, GameError>(GameError::UserAlreadyJoined)
                } else if now > gs.time_limit {
                    r == Err::<GameSettings, GameError>(GameError::WaitingTimePassed)
                } else if players_of(self@, game_id).len() >= gs.number_of_players_max {
                    r == Err::<GameSettings, GameError>(GameError::MaxPlayersReached)
                } else if token_id@ != self@.token_id {
                    r == Err::<GameSettings, GameError>(GameError::WrongTokenSent)
                } else if amount != gs.wager {
                    r == Err::<GameSettings, GameError>(GameError::WrongAmountPaid)
                } else {
                    r == Ok::<GameSettings, GameError>(gs)
                },
            },
    {
        let game_settings = match self.get_game_settings(game_id) {
            Some(gs) => gs,
            None => {
                return Err(GameError::NoSettingsForGameId);
            },
        };
        if self.user_games(caller).contains(game_id) {
            return Err(GameError::UserAlreadyJoined);
        }
        if now > game_settings.time_limit {
            return Err(GameError::WaitingTimePassed);
        }
        let idx = match self.game_index(game_id) {
            Some(i) => i,
            None => {
                return Err(GameError::NoSettingsForGameId);
            },
        };
        let len = self.players[idx].len() as u64;
        if len >= game_settings.number_of_players_max {
            return Err(GameError::MaxPlayersReached);
        }
        if !bytes_eq(token_id, &self.token_id) {
            return Err(GameError::WrongTokenSent);
        }
        if amount != game_settings.wager {
            return Err(GameError::WrongAmountPaid);
        }
        Ok(game_settings)
    }

    /// Records that `caller` joined game `game_id`.
    pub fn add_player(&mut self, caller: Address, game_id: u64)
        requires
            old(self).wf(),
        ensures
            final(self).wf(),
            final(self)@ == with_player(old(self)@, caller, game_id),
    {
        let ghost s = self@;
        let mut games = self.user_games(caller);
        games.insert(game_id);
        proof {
            use_type_invariant(&games);
        }
        proof {
            assert(self.games_per_user@.insert(caller, games).map_values(|x: UnorderedSet| x@)
                =~= self@.games_per_user.insert(caller, games@));
        }
        self.games_per_user.insert(caller, games);
        if let Some(idx) = self.game_index(game_id) {
            let mut set = UnorderedSet::new();
            proof {
                assert(sets_view(self.players@.update(idx as int, set)) =~= sets_view(self.players@).update(idx as int, set@));
            }
            self.players.set_and_swap(idx, &mut set);
            set.insert(caller);
            proof {
                assert(sets_view(self.players@.update(idx as int, set)) =~= sets_view(self.players@).update(idx as int, set@));
            }
            self.players.set(idx, set);
            proof {
                assert(self@.players =~= s.players.update(idx as int, insert_value(s.players[idx as int], caller)));
            }
        }
    }

    /// Records that `caller` left game `game_id`.
    pub fn remove_player(&mut self, caller: Address, game_id: u64)
        requires
            old(self).wf(),
        ensures
            final(self).wf(),
            final(self)@ == without_player(old(self)@, caller, game_id),
    {
        let ghost s = self@;
        let mut games = self.user_games(caller);
        games.swap_remove(game_id);
        proof {
            use_type_invariant(&games);
        }
        proof {
            assert(self.games_per_user@.insert(caller, games).map_values(|x: UnorderedSet| x@)
                =~= self@.games_per_user.insert(caller, games@));
        }
        self.games_per_user.insert(caller, games);
        if let Some(idx) = self.game_index(game_id) {
            let mut set = UnorderedSet::new();
            proof {
                assert(sets_view(self.players@.update(idx as int, set)) =~= sets_view(self.players@).update(idx as int, set@));
            }
            self.players.set_and_swap(idx, &mut set);
            set.swap_remove(caller);
            proof {
                assert(sets_view(self.players@.update(idx as int, set)) =~= sets_view(self.players@).update(idx as int, set@));
            }
            self.players.set(idx, set);
            proof {
                assert(self@.players =~= s.players.update(idx as int, remove_value(s.players[idx as int], caller)));
            }
        }
    }

    /// Marks game `game_id` valid once it has its minimum number of players.
    pub fn refresh_game_status(&mut self, game_id: u64, game_settings: GameSettings)
        requires
            old(self).wf(),
            1 <= game_id <= old(self)@.last_game_id,
        ensures
            final(self).wf(),
            final(self)@ == (if game_settings.number_of_players_min <= players_of(old(self)@, game_id).len() {
                GameState {
                    games: old(self)@.games.update(
                        game_id - 1,
                        Some(GameSettings { status: Status::Valid, ..game_settings }),
                    ),
                    ..old(self)@
                }
            } else {
                old(self)@
            }),
    {
        let idx = match self.game_index(game_id) {
            Some(i) => i,
            None => {
                return;
            },
        };
        let len = self.players[idx].len() as u64;
        if game_settings.number_of_players_min <= len {
            self.games.set(idx, Some(GameSettings { status: Status::Valid, ..game_settings }));
        }
    }

    /// A user joins game `game_id`, paying the wager.
    pub fn join_game(&mut self, ctx: &TxContext, payments: &Vec<EsdtTokenPayment>, game_id: u64) -> (r:
        Result<(), GameError>)
        requires
            old(self).wf(),
        ensures
            final(self).wf(),
            match join_game_outcome(old(self)@, *ctx, payments_view(payments@), game_id) {
                Ok(t) => r is Ok && final(self)@ == t,
                Err(e) => r == Err::<(), GameError>(e) && final(self)@ == old(self)@,
            },
    {
        self.require_enabled()?;
        let (token_id, amount) = Self::single_fungible_esdt(payments)?;
        let now = ctx.block_timestamp;
        let caller = ctx.caller;
        let game_settings = self.validate_join_game(caller, now, &token_id, amount, game_id)?;
        self.add_player(caller, game_id);
        self.refresh_game_status(game_id, game_settings);
        Ok(())
    }

    /// Checks that `caller` may take its wager back from game `game_id`;
    /// returns the wager.
    pub fn validate_claim_wager(&self, caller: Address, now: u64, game_id: u64) -> (r: Result<
        u128,
        GameError,
    >)
        requires
            self.wf(),
        ensures
            match settings_of(self@, game_id) {
                None => r == Err::<u128, GameError>(GameError::NoSettingsForGameId),
                Some(gs) => if !games_of_user(self@, caller).contains(game_id) {
                    r == Err::<u128, GameError>(GameError::CallerNotJoined)
                } else if now <= gs.time_limit {
                    r == Err::<u128, GameError>(GameError::WaitingTimeNotOver)
                } else if gs.status != Status::Invalid {
                    r == Err::<u128, GameError>(GameError::GameNotInvalid)
                } else {
                    r == Ok::<u128, GameError>(gs.wager)
                },
            },
    {
        let game_settings = match self.get_game_settings(game_id) {
            Some(gs) => gs,
            None => {
                return Err(GameError::NoSettingsForGameId);
            },
        };
        if !self.user_games(caller).contains(game_id) {
            return Err(GameError::CallerNotJoined);
        }
        if now <= game_settings.time_limit {
            return Err(GameError::WaitingTimeNotOver);
        }
        if game_settings.status != Status::Invalid {
            return Err(GameError::GameNotInvalid);
        }
        Ok(game_settings.wager)
    }

    /// A player of a game that stayed invalid takes its wager back once the
    /// waiting time is over; returns the transfer to make.
    pub fn claim_back_wager(&mut self, ctx: &TxContext, game_id: u64) -> (r: Result<
        Transfer,
        GameError,
    >)
        requires
            old(self).wf(),
        ensures
            final(self).wf(),
            match claim_back_wager_outcome(old(self)@, *ctx, game_id) {
                Ok((t, tr)) => r is Ok && r->Ok_0@ == tr && final(self)@ == t,
                Err(e) => r == Err::<Transfer, GameError>(e) && final(self)@ == old(self)@,
            },
    {
        self.require_enabled()?;
        let caller = ctx.caller;
        let wager = self.validate_claim_wager(caller, ctx.block_timestamp, game_id)?;
        let transfer = Transfer {
            to: caller,
            payment: EsdtTokenPayment::new(self.token_id.clone(), 0, wager),
        };
        self.remove_player(caller, game_id);
        Ok(transfer)
    }
}


/// An optional list of winners as plain values.
pub open spec fn opt_winners(o: Option<Vec<(Address, u64)>>) -> Option<Seq<(Address, u64)>> {
    match o {
        Some(v) => Some(v@),
        None => None,
    }
}

impl MvxGameSc {
    /// The payouts that pay each player of game `game_id` the wager back.
    pub fn send_back_wager(&self, game_id: u64, wager: u128, token_id: &Vec<u8>) -> (v: Vec<Payout>)
        requires
            self.wf(),
        ensures
            payouts_view(v@) == refunds(players_of(self@, game_id), token_id@, wager),
    {
        let players = self.get_players(game_id);
        let mut out: Vec<Payout> = Vec::new();
        let mut i: usize = 0;
        while i < players.len()
            invariant
                i <= players@.len(),
                payouts_view(out@) == refunds(players@.subrange(0, i as int), token_id@, wager),
            decreases players.len() - i,
        {
            let t = Payout {
                to: players[i],
                payment: BigPayment { token_identifier: token_id.clone(), token_nonce: 0, amount: BigUint::from_u128(wager) },
            };
            proof {
                assert(payouts_view(out@.push(t)) =~= payouts_view(out@).push(t@));
                assert(refunds(players@.subrange(0, i + 1), token_id@, wager) =~= refunds(
                    players@.subrange(0, i as int),
                    token_id@,
                    wager,
                ).push(t@));
            }
            out.push(t);
            i = i + 1;
        }
        proof {
            assert(players@.subrange(0, players@.len() as int) =~= players@);
        }
        out
    }

    /// The payouts that pay each winner its share of the pot `total`.
    fn winner_rewards(winners: &Vec<(Address, u64)>, token_id: &Vec<u8>, total: &BigUint) -> (r: Vec<Payout>)
        ensures
            payouts_view(r@) == rewards(winners@, token_id@, total@),
    {
        let mut out: Vec<Payout> = Vec::new();
        let mut i: usize = 0;
        proof {
            assert(winners@.subrange(0, 0) =~= Seq::<(Address, u64)>::empty());
            assert(payouts_view(out@) =~= Seq::<PayoutView>::empty());
        }
        while i < winners.len()
            invariant
                i <= winners@.len(),
                rewards(winners@.subrange(0, i as int), token_id@, total@) == payouts_view(out@),
            decreases winners.len() - i,
        {
            proof {
                assert(winners@.subrange(0, i + 1).drop_last() =~= winners@.subrange(0, i as int));
                assert(winners@.subrange(0, i + 1).last() == winners@[i as int]);
            }
            let (winner, percentage) = winners[i];
            let share = total.mul_u64(percentage).div_u32(DENOM as u32);
            proof {
                let v = total@;
                assert(v * percentage == percentage * v) by (nonlinear_arith);
            }
            let t = Payout {
                to: winner,
                payment: BigPayment { token_identifier: token_id.clone(), token_nonce: 0, amount: share },
            };
            proof {
                assert(payouts_view(out@.push(t)) =~= payouts_view(out@).push(t@));
            }
            out.push(t);
            i = i + 1;
        }
        proof {
            assert(winners@.subrange(0, winners@.len() as int) =~= winners@);
        }
        out
    }

    /// Checks that rewards may be sent for game `game_id`; returns its settings.
    pub fn validate_send_reward(&self, now: u64, game_id: u64) -> (r: Result<GameSettings, GameError>)
        requires
            self.wf(),
        ensures
            match settings_of(self@, game_id) {
                None => r == Err::<GameSettings, GameError>(GameError::NoSettingsForGameId),
                Some(gs) => if now <= gs.time_limit {
                    r == Err::<GameSettings, GameError>(GameError::WaitingTimeNotOver)
                } else {
                    r == Ok::<GameSettings, GameError>(gs)
                },
            },
    {
        let game_settings = match self.get_game_settings(game_id) {
            Some(gs) => gs,
            None => {
                return Err(GameError::NoSettingsForGameId);
            },
        };
        if now <= game_settings.time_limit {
            return Err(GameError::WaitingTimeNotOver);
        }
        Ok(game_settings)
    }

    /// An admin settles game `game_id` once its waiting time is over:
    /// `winners` lists each winner with its share in hundredths of a percent,
    /// or is `None` for a draw. Returns the payouts to make.
    pub fn send_reward(&mut self, ctx: &TxContext, game_id: u64, winners: Option<Vec<(Address, u64)>>) -> (r:
        Result<Vec<Payout>, GameError>)
        requires
            old(self).wf(),
        ensures
            final(self).wf(),
            match send_reward_outcome(old(self)@, *ctx, game_id, opt_winners(winners)) {
                Ok((t, ts)) => r is Ok && payouts_view(r->Ok_0@) == ts && final(self)@ == t,
                Err(e) => r == Err::<Vec<Payout>, GameError>(e) && final(self)@ == old(self)@,
            },
    {
        self.require_enabled()?;
        if !self.admins.contains(ctx.caller) {
            return Err(GameError::NotAdmin);
        }
        let game_settings = self.validate_send_reward(ctx.block_timestamp, game_id)?;
        let token_id = self.token_id.clone();
        match game_settings.status {
            Status::Invalid => {
                let mut transfers = self.send_back_wager(game_id, game_settings.wager, &token_id);
                let fee = Payout {
                    to: game_settings.creator,
                    payment: BigPayment { token_identifier: token_id, token_nonce: 0, amount: BigUint::from_u128(self.game_start_fee) },
                };
                proof {
                    assert(payouts_view(transfers@.push(fee)) =~= payouts_view(transfers@).push(fee@));
                }
                transfers.push(fee);
                let idx = match self.game_index(game_id) {
                    Some(i) => i,
                    None => {
                        return Err(GameError::NoSettingsForGameId);
                    },
                };
                self.games.set(idx, None);
                Ok(transfers)
            },
            Status::Valid => {
                match winners {
                    Some(val) => {
                        let len = self.get_players(game_id).len() as u64;
                        let total = BigUint::from_u128(game_settings.wager).mul_u64(len);
                        proof {
                            let w = game_settings.wager as int;
                            assert(w * len == len * w) by (nonlinear_arith);
                        }
                        Ok(Self::winner_rewards(&val, &token_id, &total))
                    },
                    None => Ok(self.send_back_wager(game_id, game_settings.wager, &token_id)),
                }
            },
        }
    }

    /// The owner enables the contract.
    pub fn enable_sc(&mut self, ctx: &TxContext) -> (r: Result<(), GameError>)
        ensures
            r is Ok <==> ctx.caller == old(self)@.owner,
            r is Err ==> r == Err::<(), GameError>(GameError::NotOwner) && final(self)@ == old(self)@,
            r is Ok ==> final(self)@ == (GameState { enabled: true, ..old(self)@ }),
    {
        if ctx.caller != self.owner {
            return Err(GameError::NotOwner);
        }
        self.enabled = true;
        Ok(())
    }

    /// The owner disables the contract, for maintenance.
    pub fn disable_sc(&mut self, ctx: &TxContext) -> (r: Result<(), GameError>)
        ensures
            r is Ok <==> ctx.caller == old(self)@.owner,
            r is Err ==> r == Err::<(), GameError>(GameError::NotOwner) && final(self)@ == old(self)@,
            r is Ok ==> final(self)@ == (GameState { enabled: false, ..old(self)@ }),
    {
        if ctx.caller != self.owner {
            return Err(GameError::NotOwner);
        }
        self.enabled = false;
        Ok(())
    }

    /// The owner sets the token that fees and wagers are paid in.
    pub fn set_token_id(&mut self, ctx: &TxContext, token_id: Vec<u8>) -> (r: Result<(), GameError>)
        ensures
            r is Ok <==> ctx.caller == old(self)@.owner,
            r is Err ==> r == Err::<(), GameError>(GameError::NotOwner) && final(self)@ == old(self)@,
            r is Ok ==> final(self)@ == (GameState { token_id: token_id@, ..old(self)@ }),
    {
        if ctx.caller != self.owner {
            return Err(GameError::NotOwner);
        }
        self.token_id = token_id;
        Ok(())
    }

    /// The owner sets the fee for opening a game.
    pub fn set_game_start_fee(&mut self, ctx: &TxContext, amount: u128) -> (r: Result<(), GameError>)
        ensures
            r is Ok <==> ctx.caller == old(self)@.owner,
            r is Err ==> r == Err::<(), GameError>(GameError::NotOwner) && final(self)@ == old(self)@,
            r is Ok ==> final(self)@ == (GameState { game_start_fee: amount, ..old(self)@ }),
    {
        if ctx.caller != self.owner {
            return Err(GameError::NotOwner);
        }
        self.game_start_fee = amount;
        Ok(())
    }

    /// The owner makes `user` an admin.
    pub fn set_admin(&mut self, ctx: &TxContext, user: Address) -> (r: Result<(), GameError>)
        ensures
            r is Ok <==> ctx.caller == old(self)@.owner,
            r is Err ==> r == Err::<(), GameError>(GameError::NotOwner) && final(self)@ == old(self)@,
            r is Ok ==> final(self)@ == (GameState {
                admins: insert_value(old(self)@.admins, user),
                ..old(self)@
            }),
    {
        if ctx.caller != self.owner {
            return Err(GameError::NotOwner);
        }
        self.admins.insert(user);
        Ok(())
    }

    /// The owner takes the admin role from `user`.
    pub fn remove_admin(&mut self, ctx: &TxContext, user: Address) -> (r: Result<(), GameError>)
        ensures
            r is Ok <==> ctx.caller == old(self)@.owner,
            r is Err ==> r == Err::<(), GameError>(GameError::NotOwner) && final(self)@ == old(self)@,
            r is Ok ==> final(self)@ == (GameState {
                admins: remove_value(old(self)@.admins, user),
                ..old(self)@
            }),
    {
        if ctx.caller != self.owner {
            return Err(GameError::NotOwner);
        }
        self.admins.swap_remove(user);
        Ok(())
    }

    /// Whether `user` is an admin.
    pub fn is_user_admin(&self, user: Address) -> (b: bool)
        ensures
            b == self@.admins.contains(user),
    {
        self.admins.contains(user)
    }

    pub fn get_token_id(&self) -> (t: Vec<u8>)
        ensures
            t@ == self@.token_id,
    {
        self.token_id.clone()
    }

    pub fn get_game_start_fee(&self) -> (f: u128)
        ensures
            f == self@.game_start_fee,
    {
        self.game_start_fee
    }

    pub fn get_enabled(&self) -> (b: bool)
        ensures
            b == self@.enabled,
    {
        self.enabled
    }

    pub fn get_last_game_id(&self) -> (id: u64)
        ensures
            id == self@.last_game_id,
    {
        self.last_game_id
    }

    /// The id recorded for a game opened with exactly these settings, or 0.
    pub fn get_game_id_by_settings(&self, game_settings: GameSettings) -> (id: u64)
        ensures
            id == id_by_settings(self@.ids_by_settings, game_settings),
    {
        let mut i: usize = self.ids_by_settings.len();
        proof {
            assert(self@.ids_by_settings.subrange(0, i as int) =~= self@.ids_by_settings);
        }
        while i > 0
            invariant
                i <= self@.ids_by_settings.len(),
                id_by_settings(self@.ids_by_settings, game_settings) == id_by_settings(
                    self@.ids_by_settings.subrange(0, i as int),
                    game_settings,
                ),
            decreases i,
        {
            let (settings, id) = self.ids_by_settings[i - 1];
            proof {
                assert(self@.ids_by_settings.subrange(0, i as int).drop_last() =~= self@.ids_by_settings.subrange(0, i - 1));
            }
            if settings == game_settings {
                return id;
            }
            i = i - 1;
        }
        0
    }
}

} // verus!
