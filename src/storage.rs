use vstd::prelude::*;
use crate::table::{Bytes32, PredictionKey, Table};

verus! {

/// Which address of the configuration an administrator replaces.
#[derive(Copy, Clone, Debug, PartialEq, Eq, Structural)]
pub enum CoreUpdateAddress {
    Admin,
    FeeTaker,
    PayingAsset,
    Oracle,
}

/// The storage key under which the configuration is kept.
#[derive(Copy, Clone, Debug, PartialEq, Eq, Structural)]
pub enum CoreDataKeys {
    CoreData,
}

/// The market's configuration. `fee` is a rate in fixed point, where
/// 10,000,000 stands for 100%.
#[derive(Copy, Clone, Debug)]
pub struct CoreData {
    pub admin: Bytes32,
    pub fee_taker: Bytes32,
    pub fee: u128,
    pub paying_asset: Bytes32,
    pub oracle: Bytes32,
}

/// The configuration singleton: absent until the market is initialised.
pub struct Core {
    data: Option<CoreData>,
}

impl View for Core {
    type V = Option<CoreData>;

    closed spec fn view(&self) -> Option<CoreData> {
        self.data
    }
}

impl Core {
    /// A store that holds no configuration yet.
    pub fn new() -> (r: Core)
        ensures
            r@ == None::<CoreData>,
    {
        Core { data: None }
    }

    /// The configuration, if it was set.
    pub fn data(&self) -> (r: Option<CoreData>)
        ensures
            r == self@,
    {
        self.data
    }

    /// Replaces the configuration.
    pub fn set_data(&mut self, core_data: &CoreData)
        ensures
            final(self)@ == Some(*core_data),
    {
        self.data = Some(*core_data);
    }
}

/// The outcome of a game, and the side that a prediction takes.
#[derive(Copy, Clone, Debug, PartialEq, Eq, Structural)]
pub enum GameResult {
    Higher,
    Lower,
    Unresolved,
    Cancelled,
}

/// One market on whether an asset's price at `target_date` is at least
/// `target_price`.
#[derive(Copy, Clone, Debug)]
pub struct Game {
    pub id: Bytes32,
    /// The host, with whom the fee is shared.
    pub host: Bytes32,
    /// The asset's symbol, as listed by the oracle.
    pub asset: Bytes32,
    /// Predictions are taken only before this moment.
    pub deadline: u64,
    /// The moment from which the game can be resolved.
    pub target_date: u64,
    pub target_price: u128,
    pub highs_deposit: u128,
    pub highs_participants: u64,
    pub lows_deposit: u128,
    pub lows_participants: u64,
    /// What the winners share, once the fee is taken.
    pub prize: u128,
    /// The commission shared between host and protocol.
    pub fee: u128,
    pub executed_at: u64,
    pub result: GameResult,
}

/// One player's wager on a game.
#[derive(Copy, Clone, Debug)]
pub struct Prediction {
    pub game_id: Bytes32,
    pub player: Bytes32,
    pub result: GameResult,
    pub date: u64,
    pub deposit: u128,
    pub prize: u128,
    pub claimed: bool,
}

/// The key of a prediction record.
pub open spec fn prediction_key(game_id: Bytes32, player: Bytes32) -> PredictionKey {
    PredictionKey { game_id, player }
}

/// The ledger of games, keyed by id, and of predictions, keyed by game and player.
pub struct Predictions {
    games: Table<Bytes32, Game>,
    predictions: Table<PredictionKey, Prediction>,
}

impl Predictions {
    pub closed spec fn games(&self) -> Map<Bytes32, Game> {
        self.games@
    }

    pub closed spec fn predictions(&self) -> Map<PredictionKey, Prediction> {
        self.predictions@
    }

    /// An empty ledger.
    pub fn new() -> (r: Predictions)
        ensures
            r.games() == Map::<Bytes32, Game>::empty(),
            r.predictions() == Map::<PredictionKey, Prediction>::empty(),
    {
        Predictions { games: Table::new(), predictions: Table::new() }
    }

    /// The game stored under `id`, if any.
    pub fn game(&self, id: &Bytes32) -> (r: Option<Game>)
        ensures
            r == (if self.games().contains_key(*id) {
                Some(self.games()[*id])
            } else {
                None::<Game>
            }),
    {
        self.games.get(id)
    }

    /// Stores a game under its own id.
    pub fn set_game(&mut self, data: &Game)
        ensures
            final(self).games() == old(self).games().insert(data.id, *data),
            final(self).predictions() == old(self).predictions(),
    {
        self.games.set(data.id, *data);
    }

    /// The prediction of `player` on game `id`, if any.
    pub fn prediction(&self, id: &Bytes32, player: &Bytes32) -> (r: Option<Prediction>)
        ensures
            r == (if self.predictions().contains_key(prediction_key(*id, *player)) {
                Some(self.predictions()[prediction_key(*id, *player)])
            } else {
                None::<Prediction>
            }),
    {
        self.predictions.get(&PredictionKey { game_id: *id, player: *player })
    }

    /// Stores a prediction under its game and player.
    pub fn set_prediction(&mut self, data: &Prediction)
        ensures
            final(self).predictions() == old(self).predictions().insert(
                prediction_key(data.game_id, data.player),
                *data,
            ),
            final(self).games() == old(self).games(),
    {
        self.predictions.set(PredictionKey { game_id: data.game_id, player: data.player }, *data);
    }
}

} // verus!
