use vstd::prelude::*;
use crate::contract::{
    create_game_spec, execute_fits, execute_spec, is_side, predict_spec, side_deposit,
    valid_state, with_stake, withdraw_spec, ContractView, Settlement, MIN_DEADLINE_DELAY,
    MIN_TARGET_DELAY,
};
use crate::errors::ContractErrors;
use crate::oracle::PriceData;
use crate::payout::{
    lemma_fee_split, lemma_fee_within_pool, lemma_residue_per_winner, lemma_withdrawals_within_pool,
    total_of, withdrawals_of, MIN_DEPOSIT, SCALE,
};
use crate::storage::{prediction_key, GameResult};
use crate::table::Bytes32;

verus! {

/// A game is created only with its deadline at least an hour after its
/// creation and no later than its target date, and its target date at least a
/// day after its creation; a request that breaks either rule is refused with
/// the matching error and leaves no record.
pub proof fn lemma_created_game_dates(
    s: ContractView,
    now: u64,
    listed: bool,
    id: Bytes32,
    host: Bytes32,
    asset: Bytes32,
    deadline: u64,
    target_date: u64,
    target_price: u128,
)
    ensures
        ({
            let (t, r) = create_game_spec(
                s,
                now,
                listed,
                id,
                host,
                asset,
                deadline,
                target_date,
                target_price,
            );
            &&& r is Ok ==> {
                &&& t.games.contains_key(id)
                &&& now + MIN_DEADLINE_DELAY <= t.games[id].deadline
                &&& t.games[id].deadline <= t.games[id].target_date
                &&& now + MIN_TARGET_DELAY <= t.games[id].target_date
            }
            &&& (s.core is Some && listed && !s.games.contains_key(id) && (deadline < now
                + MIN_DEADLINE_DELAY || deadline > target_date)) ==> r == Err::<
                (),
                ContractErrors,
            >(ContractErrors::InvalidDeadline)
            &&& (s.core is Some && listed && !s.games.contains_key(id) && now + MIN_DEADLINE_DELAY
                <= deadline <= target_date && target_date < now + MIN_TARGET_DELAY) ==> r == Err::<
                (),
                ContractErrors,
            >(ContractErrors::InvalidTargetDate)
            &&& r is Err ==> t == s
        }),
{
}

/// A second prediction by the same player on the same game is refused and
/// changes nothing, so the game's counters hold the first stake alone; it is
/// refused as AlreadyPredicted whenever its amount is valid and it comes
/// before the deadline.
pub proof fn lemma_second_prediction_rejected(
    s: ContractView,
    game_id: Bytes32,
    caller: Bytes32,
    now1: u64,
    side1: GameResult,
    deposit1: u128,
    now2: u64,
    side2: GameResult,
    deposit2: u128,
)
    requires
        valid_state(s),
        predict_spec(s, now1, game_id, caller, side1, deposit1).1 is Ok,
    ensures
        ({
            let s1 = predict_spec(s, now1, game_id, caller, side1, deposit1).0;
            let (s2, r2) = predict_spec(s1, now2, game_id, caller, side2, deposit2);
            &&& s1.games[game_id] == with_stake(s.games[game_id], side1, deposit1)
            &&& r2 is Err
            &&& s2 == s1
            &&& (deposit2 >= MIN_DEPOSIT && now2 < s1.games[game_id].deadline) ==> r2 == Err::<
                crate::contract::Transfer,
                ContractErrors,
            >(ContractErrors::AlreadyPredicted)
        }),
{
}

/// A due game with nobody on the Higher side is cancelled: no fee, no prize
/// and no payment, whatever the oracle says.
pub proof fn lemma_cancel_without_highs(
    s: ContractView,
    now: u64,
    game_id: Bytes32,
    latest: Option<PriceData>,
)
    requires
        valid_state(s),
        s.core is Some,
        s.games.contains_key(game_id),
        s.games[game_id].result == GameResult::Unresolved,
        now >= s.games[game_id].target_date,
        s.games[game_id].highs_participants == 0,
    ensures
        ({
            let (t, r) = execute_spec(s, now, game_id, latest);
            &&& r == Ok::<Option<Settlement>, ContractErrors>(None)
            &&& t.games[game_id].result == GameResult::Cancelled
            &&& t.games[game_id].fee == 0
            &&& t.games[game_id].prize == 0
            &&& t.games[game_id].executed_at == now
        }),
{
}

/// A second withdrawal by the same winner is refused as
/// PredictionAlreadyClaimed, changes nothing and pays nothing; the prediction
/// stays claimed.
pub proof fn lemma_withdraw_twice(s: ContractView, game_id: Bytes32, caller: Bytes32)
    requires
        valid_state(s),
        withdraw_spec(s, game_id, caller).1 is Ok,
    ensures
        ({
            let s1 = withdraw_spec(s, game_id, caller).0;
            &&& s1.predictions[prediction_key(game_id, caller)].claimed
            &&& withdraw_spec(s1, game_id, caller) == (s1, Err::<
                crate::contract::Transfer,
                ContractErrors,
            >(ContractErrors::PredictionAlreadyClaimed))
        }),
{
}

/// A game cannot be executed before its target date.
pub proof fn lemma_execute_too_early(
    s: ContractView,
    now: u64,
    game_id: Bytes32,
    latest: Option<PriceData>,
)
    requires
        s.core is Some,
        s.games.contains_key(game_id),
        s.games[game_id].result == GameResult::Unresolved,
        now < s.games[game_id].target_date,
    ensures
        execute_spec(s, now, game_id, latest) == (s, Err::<Option<Settlement>, ContractErrors>(
            ContractErrors::GameCantBeExecuted,
        )),
{
}

/// A game that was executed cannot be executed again.
pub proof fn lemma_execute_once(
    s: ContractView,
    now1: u64,
    now2: u64,
    game_id: Bytes32,
    latest1: Option<PriceData>,
    latest2: Option<PriceData>,
)
    requires
        valid_state(s),
        execute_spec(s, now1, game_id, latest1).1 is Ok,
    ensures
        ({
            let s1 = execute_spec(s, now1, game_id, latest1).0;
            execute_spec(s1, now2, game_id, latest2) == (s1, Err::<
                Option<Settlement>,
                ContractErrors,
            >(ContractErrors::GameAlreadyExecuted))
        }),
{
    let s1 = execute_spec(s, now1, game_id, latest1).0;
    assert(s1.games[game_id].result != GameResult::Unresolved);
}

/// A resolved game keeps its funds whole: the host's and the protocol's
/// shares add up to the fee, and the fee and the prize add up to the losing
/// side's pool.
pub proof fn lemma_settlement_conservation(
    s: ContractView,
    now: u64,
    game_id: Bytes32,
    latest: Option<PriceData>,
)
    requires
        valid_state(s),
        execute_fits(s, game_id, latest),
        execute_spec(s, now, game_id, latest).1 matches Ok(Some(_)),
    ensures
        ({
            let (t, r) = execute_spec(s, now, game_id, latest);
            let g = t.games[game_id];
            let st = r->Ok_0->Some_0;
            let loser = if g.result == GameResult::Higher {
                GameResult::Lower
            } else {
                GameResult::Higher
            };
            &&& is_side(g.result)
            &&& st.host_share.amount + st.protocol_share.amount == g.fee
            &&& g.fee + g.prize == side_deposit(g, loser)
        }),
{
    let g0 = s.games[game_id];
    let p = latest->Some_0;
    let loser = crate::contract::losing_pool(g0, p);
    let rate = s.core->Some_0.fee as int;
    lemma_fee_within_pool(loser, rate);
    lemma_fee_split(crate::payout::fee_of(loser, rate));
}

/// However many winners of a resolved game withdraw, their stakes and
/// rewards together never exceed the winning side's pool plus the prize; once
/// all have withdrawn, what rounding leaves behind is less than
/// `prize / SCALE + 1` smallest units per winner.
pub proof fn lemma_winners_within_pool(s: ContractView, game_id: Bytes32, deposits: Seq<u128>)
    requires
        s.games.contains_key(game_id),
        is_side(s.games[game_id].result),
        total_of(deposits) == side_deposit(s.games[game_id], s.games[game_id].result),
        total_of(deposits) > 0,
    ensures
        withdrawals_of(
            deposits,
            side_deposit(s.games[game_id], s.games[game_id].result),
            s.games[game_id].prize as int,
        ) <= side_deposit(s.games[game_id], s.games[game_id].result)
            + s.games[game_id].prize,
        (side_deposit(s.games[game_id], s.games[game_id].result) + s.games[game_id].prize
            - withdrawals_of(
            deposits,
            side_deposit(s.games[game_id], s.games[game_id].result),
            s.games[game_id].prize as int,
        )) * (SCALE as int) < deposits.len() * (s.games[game_id].prize + SCALE as int),
{
    let g = s.games[game_id];
    lemma_withdrawals_within_pool(deposits, side_deposit(g, g.result), g.prize as int);
    assert(deposits.len() > 0);
    lemma_residue_per_winner(deposits, side_deposit(g, g.result), g.prize as int);
}

} // verus!
