use vstd::prelude::*;
use crate::errors::ContractErrors;
use crate::oracle::{asset_listed, get_latest_price, is_below, price_below, validate_asset, Asset, PriceData};
use crate::payout::{
    compute_fee, compute_reward, fee_of, lemma_fee_within_pool, host_share_of, participation_of, protocol_share_of,
    reward_of, split_fee, MIN_DEPOSIT, SCALE,
};
use crate::storage::{
    prediction_key, Core, CoreData, CoreUpdateAddress, Game, GameResult, Prediction, Predictions,
};
use crate::table::{Bytes32, PredictionKey};

verus! {

/// The least time between a game's creation and its deadline, in seconds.
pub const MIN_DEADLINE_DELAY: u64 = 3600;

/// The least time between a game's creation and its target date, in seconds.
pub const MIN_TARGET_DELAY: u64 = 86400;

/// The abstract state of the market.
pub struct ContractView {
    pub core: Option<CoreData>,
    pub games: Map<Bytes32, Game>,
    pub predictions: Map<PredictionKey, Prediction>,
}

/// A movement of the settlement asset that an operation asks for, between
/// the market's own account and `counterparty`. Where it cannot be made,
/// the whole operation fails with `on_failure`.
#[derive(Copy, Clone, Debug)]
pub struct Transfer {
    pub counterparty: Bytes32,
    /// True when the funds move into the market, false when they move out.
    pub incoming: bool,
    pub amount: u128,
    pub on_failure: ContractErrors,
}

/// The two fee payments of a resolved game.
#[derive(Copy, Clone, Debug)]
pub struct Settlement {
    pub host_share: Transfer,
    pub protocol_share: Transfer,
}

pub open spec fn is_side(r: GameResult) -> bool {
    r == GameResult::Higher || r == GameResult::Lower
}

/// The total stake on one side of a game.
pub open spec fn side_deposit(g: Game, side: GameResult) -> int {
    if side == GameResult::Higher {
        g.highs_deposit as int
    } else {
        g.lows_deposit as int
    }
}

pub open spec fn game_valid(g: Game, id: Bytes32) -> bool {
    &&& g.id == id
    &&& g.deadline <= g.target_date
    &&& g.result == GameResult::Unresolved ==> g.fee == 0 && g.prize == 0
}

pub open spec fn prediction_valid(s: ContractView, k: PredictionKey) -> bool {
    let p = s.predictions[k];
    &&& s.games.contains_key(k.game_id)
    &&& p.game_id == k.game_id
    &&& p.player == k.player
    &&& is_side(p.result)
    &&& MIN_DEPOSIT <= p.deposit <= side_deposit(s.games[k.game_id], p.result)
}

/// What holds of every state that the operations can reach: each game keeps
/// its deadline no later than its target date and has no fee or prize before
/// it is resolved; each prediction belongs to a stored game, takes a side, and
/// stakes at least the minimum and no more than its side's pool.
pub open spec fn valid_state(s: ContractView) -> bool {
    &&& forall|id: Bytes32| #[trigger] s.games.contains_key(id) ==> game_valid(s.games[id], id)
    &&& forall|k: PredictionKey| #[trigger]
        s.predictions.contains_key(k) ==> prediction_valid(s, k)
}

pub open spec fn with_address(c: CoreData, target: CoreUpdateAddress, address: Bytes32) -> CoreData {
    match target {
        CoreUpdateAddress::Admin => CoreData { admin: address, ..c },
        CoreUpdateAddress::FeeTaker => CoreData { fee_taker: address, ..c },
        CoreUpdateAddress::PayingAsset => CoreData { paying_asset: address, ..c },
        CoreUpdateAddress::Oracle => CoreData { oracle: address, ..c },
    }
}

/// `init`: sets the configuration once.
pub open spec fn init_spec(s: ContractView, c: CoreData) -> (ContractView, Result<(), ContractErrors>) {
    if s.core is Some {
        (s, Err(ContractErrors::AlreadyInitiated))
    } else {
        (ContractView { core: Some(c), ..s }, Ok(()))
    }
}

pub open spec fn new_game(
    id: Bytes32,
    host: Bytes32,
    asset: Bytes32,
    deadline: u64,
    target_date: u64,
    target_price: u128,
) -> Game {
    Game {
        id,
        host,
        asset,
        deadline,
        target_date,
        target_price,
        highs_deposit: 0,
        highs_participants: 0,
        lows_deposit: 0,
        lows_participants: 0,
        prize: 0,
        fee: 0,
        executed_at: 0,
        result: GameResult::Unresolved,
    }
}

/// `create_game` at time `now`, where `listed` tells whether the oracle
/// supports the asset.
pub open spec fn create_game_spec(
    s: ContractView,
    now: u64,
    listed: bool,
    id: Bytes32,
    host: Bytes32,
    asset: Bytes32,
    deadline: u64,
    target_date: u64,
    target_price: u128,
) -> (ContractView, Result<(), ContractErrors>) {
    if s.core is None {
        (s, Err(ContractErrors::NotInitiated))
    } else if !listed {
        (s, Err(ContractErrors::InvalidAsset))
    } else if s.games.contains_key(id) {
        (s, Err(ContractErrors::GameAlreadyExists))
    } else if deadline < now + MIN_DEADLINE_DELAY || deadline > target_date {
        (s, Err(ContractErrors::InvalidDeadline))
    } else if target_date < now + MIN_TARGET_DELAY {
        (s, Err(ContractErrors::InvalidTargetDate))
    } else {
        (
            ContractView {
                games: s.games.insert(
                    id,
                    new_game(id, host, asset, deadline, target_date, target_price),
                ),
                ..s
            },
            Ok(()),
        )
    }
}

/// A game with one more stake of `deposit` on `side`.
pub open spec fn with_stake(g: Game, side: GameResult, deposit: u128) -> Game {
    if side == GameResult::Higher {
        Game {
            highs_participants: (g.highs_participants + 1) as u64,
            highs_deposit: (g.highs_deposit + deposit) as u128,
            ..g
        }
    } else {
        Game {
            lows_participants: (g.lows_participants + 1) as u64,
            lows_deposit: (g.lows_deposit + deposit) as u128,
            ..g
        }
    }
}

/// The counters of a game can take one more stake of `deposit` on `side`.
pub open spec fn stake_fits(g: Game, side: GameResult, deposit: u128) -> bool {
    if side == GameResult::Higher {
        g.highs_deposit + deposit <= u128::MAX && g.highs_participants < u64::MAX
    } else {
        g.lows_deposit + deposit <= u128::MAX && g.lows_participants < u64::MAX
    }
}

/// `predict` at time `now`: on success the stake is recorded and the deposit
/// is to be moved from the caller into the market.
pub open spec fn predict_spec(
    s: ContractView,
    now: u64,
    game_id: Bytes32,
    caller: Bytes32,
    side: GameResult,
    deposit: u128,
) -> (ContractView, Result<Transfer, ContractErrors>) {
    let key = prediction_key(game_id, caller);
    if s.core is None {
        (s, Err(ContractErrors::NotInitiated))
    } else if deposit < MIN_DEPOSIT {
        (s, Err(ContractErrors::InvalidPredictionAmount))
    } else if !s.games.contains_key(game_id) {
        (s, Err(ContractErrors::GameDoesntExist))
    } else if now >= s.games[game_id].deadline {
        (s, Err(ContractErrors::GameDeadlineReached))
    } else if s.predictions.contains_key(key) {
        (s, Err(ContractErrors::AlreadyPredicted))
    } else if !is_side(side) {
        (s, Err(ContractErrors::InvalidPredictionResult))
    } else {
        let p = Prediction {
            game_id,
            player: caller,
            result: side,
            date: now,
            deposit,
            prize: 0,
            claimed: false,
        };
        (
            ContractView {
                games: s.games.insert(game_id, with_stake(s.games[game_id], side, deposit)),
                predictions: s.predictions.insert(key, p),
                ..s
            },
            Ok(
                Transfer {
                    counterparty: caller,
                    incoming: true,
                    amount: deposit,
                    on_failure: ContractErrors::FailedToDeposit,
                },
            ),
        )
    }
}

/// A stake that passes every check of `predict` fits the game's counters.
pub open spec fn predict_fits(s: ContractView, game_id: Bytes32, side: GameResult, deposit: u128) -> bool {
    s.games.contains_key(game_id) && is_side(side) ==> stake_fits(s.games[game_id], side, deposit)
}

/// The side that wins at an observed price.
pub open spec fn winner_at(g: Game, p: PriceData) -> GameResult {
    if price_below(p.price, g.target_price) {
        GameResult::Lower
    } else {
        GameResult::Higher
    }
}

/// The pool of the side that loses at an observed price.
pub open spec fn losing_pool(g: Game, p: PriceData) -> int {
    if winner_at(g, p) == GameResult::Lower {
        g.highs_deposit as int
    } else {
        g.lows_deposit as int
    }
}

/// The fee of a game settled at an observed price stays within `u128` and
/// within the losing pool.
pub open spec fn settle_fits(rate: u128, g: Game, p: PriceData) -> bool {
    rate <= SCALE && losing_pool(g, p) * rate <= u128::MAX
}

/// `execute` at time `now`, where `latest` is the oracle's latest price of the
/// game's asset, if it has one. A game with an empty side is cancelled
/// without a price; otherwise the fee is to be paid out in two shares.
pub open spec fn execute_spec(s: ContractView, now: u64, game_id: Bytes32, latest: Option<PriceData>) -> (
    ContractView,
    Result<Option<Settlement>, ContractErrors>,
) {
    if s.core is None {
        (s, Err(ContractErrors::NotInitiated))
    } else if !s.games.contains_key(game_id) {
        (s, Err(ContractErrors::GameDoesntExist))
    } else if s.games[game_id].result != GameResult::Unresolved {
        (s, Err(ContractErrors::GameAlreadyExecuted))
    } else if now < s.games[game_id].target_date {
        (s, Err(ContractErrors::GameCantBeExecuted))
    } else if s.games[game_id].highs_participants == 0 || s.games[game_id].lows_participants == 0 {
        let g = Game { result: GameResult::Cancelled, executed_at: now, ..s.games[game_id] };
        (ContractView { games: s.games.insert(game_id, g), ..s }, Ok(None))
    } else if latest is None {
        (s, Err(ContractErrors::AssetPriceNotFound))
    } else if latest->Some_0.timestamp < s.games[game_id].target_date {
        (s, Err(ContractErrors::AssetPriceIsNotUpdated))
    } else {
        let c = s.core->Some_0;
        let g0 = s.games[game_id];
        let p = latest->Some_0;
        let loser = losing_pool(g0, p);
        let fee = fee_of(loser, c.fee as int);
        let g = Game {
            result: winner_at(g0, p),
            fee: fee as u128,
            prize: (loser - fee) as u128,
            executed_at: now,
            ..g0
        };
        let settlement = Settlement {
            host_share: Transfer {
                counterparty: g0.host,
                incoming: false,
                amount: host_share_of(fee) as u128,
                on_failure: ContractErrors::FailedToPayHostShare,
            },
            protocol_share: Transfer {
                counterparty: c.fee_taker,
                incoming: false,
                amount: protocol_share_of(fee) as u128,
                on_failure: ContractErrors::FailedToPayProtocolShare,
            },
        };
        (ContractView { games: s.games.insert(game_id, g), ..s }, Ok(Some(settlement)))
    }
}

/// A settlement that passes every check of `execute` stays within `u128`.
pub open spec fn execute_fits(s: ContractView, game_id: Bytes32, latest: Option<PriceData>) -> bool {
    s.core is Some && s.games.contains_key(game_id) && latest is Some ==> settle_fits(
        s.core->Some_0.fee,
        s.games[game_id],
        latest->Some_0,
    )
}

/// `execute` consults the oracle: the game is due and both sides have stakes.
pub open spec fn needs_price(s: ContractView, now: u64, game_id: Bytes32) -> bool {
    &&& s.core is Some
    &&& s.games.contains_key(game_id)
    &&& s.games[game_id].result == GameResult::Unresolved
    &&& now >= s.games[game_id].target_date
    &&& s.games[game_id].highs_participants != 0
    &&& s.games[game_id].lows_participants != 0
}

/// The reward of a winning prediction on a resolved game.
pub open spec fn reward_in(g: Game, p: Prediction) -> int {
    reward_of(p.deposit as int, side_deposit(g, g.result), g.prize as int)
}

/// The payout of a winning prediction stays within `u128`.
pub open spec fn payout_fits(g: Game, p: Prediction) -> bool {
    &&& p.deposit * SCALE <= u128::MAX
    &&& g.prize * participation_of(p.deposit as int, side_deposit(g, g.result)) <= u128::MAX
    &&& p.deposit + reward_in(g, p) <= u128::MAX
}

/// A payout that passes every check of `withdraw` stays within `u128`.
pub open spec fn withdraw_fits(s: ContractView, game_id: Bytes32, caller: Bytes32) -> bool {
    let key = prediction_key(game_id, caller);
    s.games.contains_key(game_id) && s.predictions.contains_key(key) && is_side(
        s.games[game_id].result,
    ) && s.predictions[key].result == s.games[game_id].result ==> payout_fits(
        s.games[game_id],
        s.predictions[key],
    )
}

/// `withdraw`: a winner's stake and reward are to be paid out, once.
pub open spec fn withdraw_spec(s: ContractView, game_id: Bytes32, caller: Bytes32) -> (
    ContractView,
    Result<Transfer, ContractErrors>,
) {
    let key = prediction_key(game_id, caller);
    if s.core is None {
        (s, Err(ContractErrors::NotInitiated))
    } else if !s.games.contains_key(game_id) {
        (s, Err(ContractErrors::GameDoesntExist))
    } else if !is_side(s.games[game_id].result) {
        (s, Err(ContractErrors::GameHasNotBeenExecuted))
    } else if !s.predictions.contains_key(key) {
        (s, Err(ContractErrors::PredictionDoesntExist))
    } else if s.predictions[key].result != s.games[game_id].result {
        (s, Err(ContractErrors::PredictionWasIncorrect))
    } else if s.predictions[key].claimed {
        (s, Err(ContractErrors::PredictionAlreadyClaimed))
    } else {
        let g = s.games[game_id];
        let p = s.predictions[key];
        let reward = reward_in(g, p);
        (
            ContractView {
                predictions: s.predictions.insert(
                    key,
                    Prediction { prize: reward as u128, claimed: true, ..p },
                ),
                ..s
            },
            Ok(
                Transfer {
                    counterparty: caller,
                    incoming: false,
                    amount: (p.deposit + reward) as u128,
                    on_failure: ContractErrors::FailedToWithdrawFunds,
                },
            ),
        )
    }
}

proof fn lemma_valid_with_core(s: ContractView, c: Option<CoreData>)
    requires
        valid_state(s),
    ensures
        valid_state(ContractView { core: c, ..s }),
{
    let t = ContractView { core: c, ..s };
    assert forall|k: PredictionKey| #[trigger] t.predictions.contains_key(k) implies prediction_valid(
        t,
        k,
    ) by {
        assert(prediction_valid(s, k));
    }
}

proof fn lemma_valid_after_stake(s: ContractView, game_id: Bytes32, caller: Bytes32, p: Prediction)
    requires
        valid_state(s),
        s.games.contains_key(game_id),
        !s.predictions.contains_key(prediction_key(game_id, caller)),
        p.game_id == game_id,
        p.player == caller,
        is_side(p.result),
        MIN_DEPOSIT <= p.deposit,
        stake_fits(s.games[game_id], p.result, p.deposit),
    ensures
        valid_state(
            ContractView {
                games: s.games.insert(game_id, with_stake(s.games[game_id], p.result, p.deposit)),
                predictions: s.predictions.insert(prediction_key(game_id, caller), p),
                ..s
            },
        ),
{
    let g = s.games[game_id];
    let t = ContractView {
        games: s.games.insert(game_id, with_stake(g, p.result, p.deposit)),
        predictions: s.predictions.insert(prediction_key(game_id, caller), p),
        ..s
    };
    assert forall|id: Bytes32| #[trigger] t.games.contains_key(id) implies game_valid(
        t.games[id],
        id,
    ) by {
        assert(s.games.contains_key(id));
    }
    assert forall|k: PredictionKey| #[trigger] t.predictions.contains_key(k) implies prediction_valid(
        t,
        k,
    ) by {
        if k != prediction_key(game_id, caller) {
            assert(prediction_valid(s, k));
        }
    }
}

proof fn lemma_valid_after_resolve(s: ContractView, game_id: Bytes32, g: Game)
    requires
        valid_state(s),
        s.games.contains_key(game_id),
        g.id == game_id,
        g.deadline == s.games[game_id].deadline,
        g.target_date == s.games[game_id].target_date,
        g.highs_deposit == s.games[game_id].highs_deposit,
        g.lows_deposit == s.games[game_id].lows_deposit,
        g.result != GameResult::Unresolved,
    ensures
        valid_state(ContractView { games: s.games.insert(game_id, g), ..s }),
{
    let t = ContractView { games: s.games.insert(game_id, g), ..s };
    assert forall|id: Bytes32| #[trigger] t.games.contains_key(id) implies game_valid(
        t.games[id],
        id,
    ) by {
        assert(s.games.contains_key(id));
    }
    assert forall|k: PredictionKey| #[trigger] t.predictions.contains_key(k) implies prediction_valid(
        t,
        k,
    ) by {
        assert(prediction_valid(s, k));
    }
}

proof fn lemma_valid_after_claim(s: ContractView, key: PredictionKey, p: Prediction)
    requires
        valid_state(s),
        s.predictions.contains_key(key),
        p.game_id == s.predictions[key].game_id,
        p.player == s.predictions[key].player,
        p.result == s.predictions[key].result,
        p.deposit == s.predictions[key].deposit,
    ensures
        valid_state(ContractView { predictions: s.predictions.insert(key, p), ..s }),
{
    let t = ContractView { predictions: s.predictions.insert(key, p), ..s };
    assert forall|k: PredictionKey| #[trigger] t.predictions.contains_key(k) implies prediction_valid(
        t,
        k,
    ) by {
        assert(prediction_valid(s, k));
    }
}

/// A stored game and a stored prediction may stand together in a valid state.
pub open spec fn records_consistent(game: Option<Game>, prediction: Option<Prediction>) -> bool {
    &&& game matches Some(g) ==> game_valid(g, g.id)
    &&& prediction matches Some(p) ==> {
        &&& game matches Some(g)
        &&& p.game_id == g.id
        &&& is_side(p.result)
        &&& MIN_DEPOSIT <= p.deposit <= side_deposit(g, p.result)
    }
}

/// The state that holds just the given records.
pub open spec fn state_of(core: Option<CoreData>, game: Option<Game>, prediction: Option<Prediction>) -> ContractView {
    ContractView {
        core,
        games: match game {
            Some(g) => Map::<Bytes32, Game>::empty().insert(g.id, g),
            None => Map::<Bytes32, Game>::empty(),
        },
        predictions: match prediction {
            Some(p) => Map::<PredictionKey, Prediction>::empty().insert(
                prediction_key(p.game_id, p.player),
                p,
            ),
            None => Map::<PredictionKey, Prediction>::empty(),
        },
    }
}

/// The market: its configuration and its ledger of games and predictions.
pub struct PricePredictionContract {
    core: Core,
    ledger: Predictions,
}

impl View for PricePredictionContract {
    type V = ContractView;

    closed spec fn view(&self) -> ContractView {
        ContractView {
            core: self.core@,
            games: self.ledger.games(),
            predictions: self.ledger.predictions(),
        }
    }
}

impl PricePredictionContract {
    /// A market that is not initialised yet and holds no games.
    pub fn new() -> (r: PricePredictionContract)
        ensures
            r@.core is None,
            r@.games == Map::<Bytes32, Game>::empty(),
            r@.predictions == Map::<PredictionKey, Prediction>::empty(),
            valid_state(r@),
    {
        PricePredictionContract { core: Core::new(), ledger: Predictions::new() }
    }

    /// A market that holds just the given configuration, game and prediction,
    /// where they are consistent with one another.
    pub fn restore(core: Option<CoreData>, game: Option<Game>, prediction: Option<Prediction>) -> (r:
        Option<PricePredictionContract>)
        ensures
            r is Some <==> records_consistent(game, prediction),
            r matches Some(c) ==> c@ == state_of(core, game, prediction) && valid_state(c@),
    {
        let mut c = PricePredictionContract::new();
        if let Some(d) = core {
            c.core.set_data(&d);
        }
        if let Some(g) = game {
            if g.deadline > g.target_date {
                return None;
            }
            if g.result == GameResult::Unresolved && (g.fee != 0 || g.prize != 0) {
                return None;
            }
            c.ledger.set_game(&g);
        }
        if let Some(p) = prediction {
            let g = match game {
                Some(g) => g,
                None => {
                    return None;
                },
            };
            if !crate::table::same_bytes(&p.game_id, &g.id) {
                return None;
            }
            let pool: u128 = match p.result {
                GameResult::Higher => g.highs_deposit,
                GameResult::Lower => g.lows_deposit,
                _ => {
                    return None;
                },
            };
            if p.deposit < MIN_DEPOSIT || p.deposit > pool {
                return None;
            }
            c.ledger.set_prediction(&p);
        }
        proof {
            let v = c@;
            assert(v.games =~= state_of(core, game, prediction).games);
            assert(v.predictions =~= state_of(core, game, prediction).predictions);
            assert forall|k: PredictionKey| #[trigger] v.predictions.contains_key(k) implies prediction_valid(
                v,
                k,
            ) by {}
        }
        Some(c)
    }

    /// The configuration, if the market is initialised.
    pub fn core_data(&self) -> (r: Option<CoreData>)
        ensures
            r == self@.core,
    {
        self.core.data()
    }

    /// The game stored under `id`, if any.
    pub fn game(&self, id: &Bytes32) -> (r: Option<Game>)
        ensures
            r == (if self@.games.contains_key(*id) {
                Some(self@.games[*id])
            } else {
                None::<Game>
            }),
    {
        self.ledger.game(id)
    }

    /// The prediction of `player` on game `id`, if any.
    pub fn prediction(&self, id: &Bytes32, player: &Bytes32) -> (r: Option<Prediction>)
        ensures
            r == (if self@.predictions.contains_key(prediction_key(*id, *player)) {
                Some(self@.predictions[prediction_key(*id, *player)])
            } else {
                None::<Prediction>
            }),
    {
        self.ledger.prediction(id, player)
    }

    /// Sets the configuration; refused once it is set.
    pub fn init(
        &mut self,
        admin: Bytes32,
        fee_taker: Bytes32,
        fee: u128,
        paying_asset: Bytes32,
        oracle: Bytes32,
    ) -> (r: Result<(), ContractErrors>)
        requires
            valid_state(old(self)@),
        ensures
            (final(self)@, r) == init_spec(
                old(self)@,
                CoreData { admin, fee_taker, fee, paying_asset, oracle },
            ),
            valid_state(final(self)@),
    {
        if self.core.data().is_some() {
            return Err(ContractErrors::AlreadyInitiated);
        }
        let ghost s = self@;
        self.core.set_data(&CoreData { admin, fee_taker, fee, paying_asset, oracle });
        proof {
            lemma_valid_with_core(s, self@.core);
        }
        Ok(())
    }

    /// Replaces one address of the configuration. Only the administrator may
    /// do so: the caller has checked that authority.
    pub fn update_address(&mut self, target: CoreUpdateAddress, address: Bytes32)
        requires
            old(self)@.core is Some,
            valid_state(old(self)@),
        ensures
            final(self)@ == (ContractView {
                core: Some(with_address(old(self)@.core->Some_0, target, address)),
                ..old(self)@
            }),
            valid_state(final(self)@),
    {
        let mut core_data: CoreData = self.core.data().unwrap();
        match target {
            CoreUpdateAddress::Admin => core_data.admin = address,
            CoreUpdateAddress::FeeTaker => core_data.fee_taker = address,
            CoreUpdateAddress::PayingAsset => core_data.paying_asset = address,
            CoreUpdateAddress::Oracle => core_data.oracle = address,
        }
        let ghost s = self@;
        self.core.set_data(&core_data);
        proof {
            lemma_valid_with_core(s, self@.core);
        }
    }

    /// Opens a new game at time `now`; `assets` are those that the oracle supports.
    pub fn create_game(
        &mut self,
        now: u64,
        assets: &Vec<Asset>,
        id: Bytes32,
        host: Bytes32,
        asset: Bytes32,
        deadline: u64,
        target_date: u64,
        target_price: u128,
    ) -> (r: Result<(), ContractErrors>)
        requires
            valid_state(old(self)@),
        ensures
            (final(self)@, r) == create_game_spec(
                old(self)@,
                now,
                asset_listed(assets@, asset),
                id,
                host,
                asset,
                deadline,
                target_date,
                target_price,
            ),
            valid_state(final(self)@),
    {
        if self.core.data().is_none() {
            return Err(ContractErrors::NotInitiated);
        }
        validate_asset(assets, &asset)?;
        if self.ledger.game(&id).is_some() {
            return Err(ContractErrors::GameAlreadyExists);
        }
        if deadline < now || deadline - now < MIN_DEADLINE_DELAY || deadline > target_date {
            return Err(ContractErrors::InvalidDeadline);
        }
        if target_date < now || target_date - now < MIN_TARGET_DELAY {
            return Err(ContractErrors::InvalidTargetDate);
        }
        let new_game = Game {
            id,
            host,
            asset,
            deadline,
            target_date,
            target_price,
            highs_deposit: 0,
            highs_participants: 0,
            lows_deposit: 0,
            lows_participants: 0,
            prize: 0,
            fee: 0,
            executed_at: 0,
            result: GameResult::Unresolved,
        };
        let ghost s = self@;
        self.ledger.set_game(&new_game);
        proof {
            assert forall|k: PredictionKey| #[trigger]
                self@.predictions.contains_key(k) implies prediction_valid(self@, k) by {
                assert(prediction_valid(s, k));
            }
        }
        Ok(())
    }

    /// Whether the counters of game `game_id` can take one more stake of
    /// `deposit` on `side`; where they cannot, the stake would overflow them.
    pub fn predict_fits(&self, game_id: &Bytes32, side: GameResult, deposit: u128) -> (r: bool)
        ensures
            r == predict_fits(self@, *game_id, side, deposit),
    {
        match self.ledger.game(game_id) {
            None => true,
            Some(g) => match side {
                GameResult::Higher => g.highs_deposit <= u128::MAX - deposit && g.highs_participants
                    < u64::MAX,
                GameResult::Lower => g.lows_deposit <= u128::MAX - deposit && g.lows_participants
                    < u64::MAX,
                _ => true,
            },
        }
    }

    /// Records `caller`'s stake of `deposit` on `side` of game `game_id` at
    /// time `now`. On success the deposit is to be moved from the caller into
    /// the market; where that transfer fails, the new state is not to be kept.
    pub fn predict(
        &mut self,
        now: u64,
        game_id: Bytes32,
        caller: Bytes32,
        side: GameResult,
        deposit: u128,
    ) -> (r: Result<Transfer, ContractErrors>)
        requires
            valid_state(old(self)@),
            predict_fits(old(self)@, game_id, side, deposit),
        ensures
            (final(self)@, r) == predict_spec(old(self)@, now, game_id, caller, side, deposit),
            valid_state(final(self)@),
    {
        if self.core.data().is_none() {
            return Err(ContractErrors::NotInitiated);
        }
        if deposit < MIN_DEPOSIT {
            return Err(ContractErrors::InvalidPredictionAmount);
        }
        let mut game = match self.ledger.game(&game_id) {
            Some(g) => g,
            None => {
                return Err(ContractErrors::GameDoesntExist);
            },
        };
        if now >= game.deadline {
            return Err(ContractErrors::GameDeadlineReached);
        }
        if self.ledger.prediction(&game_id, &caller).is_some() {
            return Err(ContractErrors::AlreadyPredicted);
        }
        match side {
            GameResult::Higher => {
                game.highs_participants = game.highs_participants + 1;
                game.highs_deposit = game.highs_deposit + deposit;
            },
            GameResult::Lower => {
                game.lows_participants = game.lows_participants + 1;
                game.lows_deposit = game.lows_deposit + deposit;
            },
            _ => {
                return Err(ContractErrors::InvalidPredictionResult);
            },
        }
        let prediction = Prediction {
            game_id,
            player: caller,
            result: side,
            date: now,
            deposit,
            prize: 0,
            claimed: false,
        };
        let ghost s = self@;
        proof {
            lemma_valid_after_stake(s, game_id, caller, prediction);
        }
        self.ledger.set_prediction(&prediction);
        self.ledger.set_game(&game);
        Ok(
            Transfer {
                counterparty: caller,
                incoming: true,
                amount: deposit,
                on_failure: ContractErrors::FailedToDeposit,
            },
        )
    }

    /// Whether `execute` of game `game_id` at time `now` needs the oracle's
    /// latest price: the game is due and both of its sides have stakes.
    pub fn price_needed(&self, now: u64, game_id: &Bytes32) -> (r: bool)
        ensures
            r == needs_price(self@, now, *game_id),
    {
        if self.core.data().is_none() {
            return false;
        }
        match self.ledger.game(game_id) {
            None => false,
            Some(g) => g.result == GameResult::Unresolved && now >= g.target_date
                && g.highs_participants != 0 && g.lows_participants != 0,
        }
    }

    /// Whether settling game `game_id` at the price `latest` stays within
    /// `u128`; where it does not, the fee would overflow.
    pub fn execute_fits(&self, game_id: &Bytes32, latest: Option<PriceData>) -> (r: bool)
        ensures
            r == execute_fits(self@, *game_id, latest),
    {
        let core_data = match self.core.data() {
            Some(c) => c,
            None => {
                return true;
            },
        };
        let game = match self.ledger.game(game_id) {
            Some(g) => g,
            None => {
                return true;
            },
        };
        match latest {
            None => true,
            Some(p) => {
                let loser: u128 = if is_below(p.price, game.target_price) {
                    game.highs_deposit
                } else {
                    game.lows_deposit
                };
                proof {
                    let (a, b, m) = (loser as int, core_data.fee as int, u128::MAX as int);
                    if a > 0 {
                        assert((b <= m / a) <==> (a * b <= m)) by (nonlinear_arith)
                            requires
                                a > 0,
                                b >= 0,
                                m >= 0,
                        ;
                    }
                }
                core_data.fee <= SCALE && (loser == 0 || core_data.fee <= u128::MAX / loser)
            },
        }
    }

    /// Resolves game `game_id` at time `now`. `latest` is the oracle's latest
    /// price of the game's asset, where it has one; it is read only when both
    /// sides have stakes. On success with a settlement, its two fee payments
    /// are to be made; where one fails, the new state is not to be kept.
    pub fn execute(&mut self, now: u64, game_id: Bytes32, latest: Option<PriceData>) -> (r: Result<
        Option<Settlement>,
        ContractErrors,
    >)
        requires
            valid_state(old(self)@),
            execute_fits(old(self)@, game_id, latest),
        ensures
            (final(self)@, r) == execute_spec(old(self)@, now, game_id, latest),
            valid_state(final(self)@),
    {
        let core_data = match self.core.data() {
            Some(c) => c,
            None => {
                return Err(ContractErrors::NotInitiated);
            },
        };
        let mut game = match self.ledger.game(&game_id) {
            Some(g) => g,
            None => {
                return Err(ContractErrors::GameDoesntExist);
            },
        };
        if game.result != GameResult::Unresolved {
            return Err(ContractErrors::GameAlreadyExecuted);
        }
        if now < game.target_date {
            return Err(ContractErrors::GameCantBeExecuted);
        }
        let ghost s = self@;
        if game.highs_participants == 0 || game.lows_participants == 0 {
            game.result = GameResult::Cancelled;
            game.executed_at = now;
            proof {
                lemma_valid_after_resolve(s, game_id, game);
            }
            self.ledger.set_game(&game);
            return Ok(None);
        }
        let price = match get_latest_price(latest) {
            Ok(p) => p,
            Err(e) => {
                return Err(e);
            },
        };
        if price.timestamp < game.target_date {
            return Err(ContractErrors::AssetPriceIsNotUpdated);
        }
        let loser: u128;
        if is_below(price.price, game.target_price) {
            game.result = GameResult::Lower;
            loser = game.highs_deposit;
        } else {
            game.result = GameResult::Higher;
            loser = game.lows_deposit;
        }
        let fee = compute_fee(loser, core_data.fee);
        proof {
            lemma_fee_within_pool(loser as int, core_data.fee as int);
        }
        game.fee = fee;
        game.prize = loser - fee;
        game.executed_at = now;
        let (host_share, protocol_share) = split_fee(fee);
        proof {
            lemma_valid_after_resolve(s, game_id, game);
        }
        self.ledger.set_game(&game);
        Ok(
            Some(
                Settlement {
                    host_share: Transfer {
                        counterparty: game.host,
                        incoming: false,
                        amount: host_share,
                        on_failure: ContractErrors::FailedToPayHostShare,
                    },
                    protocol_share: Transfer {
                        counterparty: core_data.fee_taker,
                        incoming: false,
                        amount: protocol_share,
                        on_failure: ContractErrors::FailedToPayProtocolShare,
                    },
                },
            ),
        )
    }

    /// Whether paying `caller` out of game `game_id` stays within `u128`;
    /// where it does not, the payout would overflow.
    pub fn withdraw_fits(&self, game_id: &Bytes32, caller: &Bytes32) -> (r: bool)
        requires
            valid_state(self@),
        ensures
            r == withdraw_fits(self@, *game_id, *caller),
    {
        let game = match self.ledger.game(game_id) {
            Some(g) => g,
            None => {
                return true;
            },
        };
        let prediction = match self.ledger.prediction(game_id, caller) {
            Some(p) => p,
            None => {
                return true;
            },
        };
        if game.result != GameResult::Higher && game.result != GameResult::Lower {
            return true;
        }
        if prediction.result != game.result {
            return true;
        }
        proof {
            assert(prediction_valid(self@, prediction_key(*game_id, *caller)));
        }
        let total: u128 = if game.result == GameResult::Higher {
            game.highs_deposit
        } else {
            game.lows_deposit
        };
        if prediction.deposit > u128::MAX / SCALE {
            return false;
        }
        let participation: u128 = (prediction.deposit * SCALE) / total;
        if participation != 0 && game.prize > u128::MAX / participation {
            proof {
                let (a, b, m) = (participation as int, game.prize as int, u128::MAX as int);
                assert(b * a > m) by (nonlinear_arith)
                    requires
                        a > 0,
                        b > m / a,
                        m >= 0,
                ;
            }
            return false;
        }
        proof {
            let (a, b, m) = (participation as int, game.prize as int, u128::MAX as int);
            if a > 0 {
                assert(b * a <= m) by (nonlinear_arith)
                    requires
                        a > 0,
                        b <= m / a,
                        m >= 0,
                ;
            }
        }
        let reward = compute_reward(prediction.deposit, total, game.prize);
        prediction.deposit <= u128::MAX - reward
    }

    /// Pays out `caller`'s winning prediction on game `game_id`, once. On
    /// success the stake and the reward are to be moved to the caller; where
    /// that transfer fails, the new state is not to be kept.
    pub fn withdraw(&mut self, game_id: Bytes32, caller: Bytes32) -> (r: Result<
        Transfer,
        ContractErrors,
    >)
        requires
            valid_state(old(self)@),
            withdraw_fits(old(self)@, game_id, caller),
        ensures
            (final(self)@, r) == withdraw_spec(old(self)@, game_id, caller),
            valid_state(final(self)@),
    {
        if self.core.data().is_none() {
            return Err(ContractErrors::NotInitiated);
        }
        let game = match self.ledger.game(&game_id) {
            Some(g) => g,
            None => {
                return Err(ContractErrors::GameDoesntExist);
            },
        };
        if game.result != GameResult::Higher && game.result != GameResult::Lower {
            return Err(ContractErrors::GameHasNotBeenExecuted);
        }
        let mut prediction = match self.ledger.prediction(&game_id, &caller) {
            Some(p) => p,
            None => {
                return Err(ContractErrors::PredictionDoesntExist);
            },
        };
        if prediction.result != game.result {
            return Err(ContractErrors::PredictionWasIncorrect);
        }
        if prediction.claimed {
            return Err(ContractErrors::PredictionAlreadyClaimed);
        }
        let ghost s = self@;
        proof {
            assert(prediction_valid(s, prediction_key(game_id, caller)));
        }
        let total: u128 = if game.result == GameResult::Higher {
            game.highs_deposit
        } else {
            game.lows_deposit
        };
        let reward = compute_reward(prediction.deposit, total, game.prize);
        prediction.prize = reward;
        prediction.claimed = true;
        proof {
            lemma_valid_after_claim(s, prediction_key(game_id, caller), prediction);
        }
        self.ledger.set_prediction(&prediction);
        Ok(
            Transfer {
                counterparty: caller,
                incoming: false,
                amount: prediction.deposit + reward,
                on_failure: ContractErrors::FailedToWithdrawFunds,
            },
        )
    }
}

} // verus!
