use price_betting::contract::{PricePredictionContract, Transfer};
use price_betting::errors::ContractErrors;
use price_betting::oracle::{get_latest_price, is_below, validate_asset, Asset, PriceData};
use price_betting::payout::{compute_fee, compute_reward, split_fee};
use price_betting::storage::{Core, CoreData, CoreUpdateAddress, Game, GameResult, Prediction, Predictions};
use price_betting::table::{same_bytes, Bytes32, PredictionKey, Table};

const UNIT: u128 = 10_000_000;
const NOW: u64 = 1_000_000;

fn id(n: u8) -> Bytes32 {
    let mut b = [0u8; 32];
    b[0] = n;
    b[31] = n;
    b
}

fn symbol(s: &str) -> Bytes32 {
    let mut b = [0u8; 32];
    b[..s.len()].copy_from_slice(s.as_bytes());
    b
}

fn assets() -> Vec<Asset> {
    vec![Asset::Stellar(id(90)), Asset::Other(symbol("BTC")), Asset::Other(symbol("XLM"))]
}

const GAME: u8 = 10;
const HOST: u8 = 5;
const FEE_TAKER: u8 = 2;

/// An initialised market at 10% with one game on BTC, due a day after NOW.
fn market() -> PricePredictionContract {
    let mut c = PricePredictionContract::new();
    c.init(id(1), id(FEE_TAKER), 1_000_000, id(3), id(4)).unwrap();
    c.create_game(NOW, &assets(), id(GAME), id(HOST), symbol("BTC"), NOW + 3600, NOW + 86400, 100)
        .unwrap();
    c
}

fn price(p: i128, at: u64) -> Option<PriceData> {
    Some(PriceData { price: p, timestamp: at })
}

#[test]
fn error_codes_are_stable() {
    assert_eq!(ContractErrors::AlreadyInitiated.code(), 0);
    assert_eq!(ContractErrors::InvalidPredictionAmount.code(), 10);
    assert_eq!(ContractErrors::GameCantBeExecuted.code(), 19);
    assert_eq!(ContractErrors::GameAlreadyExecuted.code(), 22);
}

#[test]
fn init_once() {
    let mut c = PricePredictionContract::new();
    assert_eq!(c.core_data().is_none(), true);
    assert_eq!(c.init(id(1), id(2), 5, id(3), id(4)), Ok(()));
    assert_eq!(c.init(id(9), id(9), 9, id(9), id(9)), Err(ContractErrors::AlreadyInitiated));
    let d = c.core_data().unwrap();
    assert_eq!(d.admin, id(1));
    assert_eq!(d.fee, 5);
}

#[test]
fn update_address_replaces_one_field() {
    let mut c = PricePredictionContract::new();
    c.init(id(1), id(2), 5, id(3), id(4)).unwrap();
    c.update_address(CoreUpdateAddress::FeeTaker, id(7));
    c.update_address(CoreUpdateAddress::Oracle, id(8));
    let d = c.core_data().unwrap();
    assert_eq!((d.admin, d.fee_taker, d.paying_asset, d.oracle), (id(1), id(7), id(3), id(8)));
    c.update_address(CoreUpdateAddress::Admin, id(6));
    c.update_address(CoreUpdateAddress::PayingAsset, id(11));
    let d = c.core_data().unwrap();
    assert_eq!((d.admin, d.paying_asset), (id(6), id(11)));
}

#[test]
fn create_game_errors() {
    let mut c = PricePredictionContract::new();
    let a = assets();
    let btc = symbol("BTC");
    assert_eq!(
        c.create_game(NOW, &a, id(GAME), id(HOST), btc, NOW + 3600, NOW + 86400, 1),
        Err(ContractErrors::NotInitiated)
    );
    c.init(id(1), id(2), 0, id(3), id(4)).unwrap();
    assert_eq!(
        c.create_game(NOW, &a, id(GAME), id(HOST), symbol("ETH"), NOW + 3600, NOW + 86400, 1),
        Err(ContractErrors::InvalidAsset)
    );
    assert_eq!(
        c.create_game(NOW, &a, id(GAME), id(HOST), btc, NOW + 3599, NOW + 86400, 1),
        Err(ContractErrors::InvalidDeadline)
    );
    assert_eq!(
        c.create_game(NOW, &a, id(GAME), id(HOST), btc, NOW + 90000, NOW + 86400, 1),
        Err(ContractErrors::InvalidDeadline)
    );
    assert_eq!(
        c.create_game(NOW, &a, id(GAME), id(HOST), btc, NOW + 3600, NOW + 86399, 1),
        Err(ContractErrors::InvalidTargetDate)
    );
    assert!(c.game(&id(GAME)).is_none());
    assert_eq!(c.create_game(NOW, &a, id(GAME), id(HOST), btc, NOW + 3600, NOW + 86400, 1), Ok(()));
    assert_eq!(
        c.create_game(NOW, &a, id(GAME), id(HOST), btc, NOW + 3600, NOW + 86400, 1),
        Err(ContractErrors::GameAlreadyExists)
    );
    let g = c.game(&id(GAME)).unwrap();
    assert!(g.deadline <= g.target_date);
    assert!(g.target_date >= NOW + 86400);
    assert_eq!(g.result, GameResult::Unresolved);
    assert_eq!((g.highs_deposit, g.lows_deposit, g.fee, g.prize), (0, 0, 0, 0));
}

#[test]
fn deadline_may_equal_target_date() {
    let mut c = PricePredictionContract::new();
    c.init(id(1), id(2), 0, id(3), id(4)).unwrap();
    assert_eq!(
        c.create_game(NOW, &assets(), id(GAME), id(HOST), symbol("XLM"), NOW + 86400, NOW + 86400, 1),
        Ok(())
    );
}

#[test]
fn minimum_deposit_boundary() {
    let mut c = market();
    assert_eq!(
        c.predict(NOW, id(GAME), id(20), GameResult::Higher, 9_999_999).map(|_| ()),
        Err(ContractErrors::InvalidPredictionAmount)
    );
    let t = c.predict(NOW, id(GAME), id(20), GameResult::Higher, 10_000_000).unwrap();
    assert_eq!((t.counterparty, t.incoming, t.amount), (id(20), true, 10_000_000));
    assert_eq!(t.on_failure, ContractErrors::FailedToDeposit);
    let p = c.prediction(&id(GAME), &id(20)).unwrap();
    assert_eq!((p.deposit, p.date, p.claimed, p.prize), (10_000_000, NOW, false, 0));
}

#[test]
fn second_prediction_is_refused() {
    let mut c = market();
    c.predict(NOW, id(GAME), id(20), GameResult::Higher, 2 * UNIT).unwrap();
    assert_eq!(
        c.predict(NOW + 1, id(GAME), id(20), GameResult::Lower, 5 * UNIT).map(|_| ()),
        Err(ContractErrors::AlreadyPredicted)
    );
    let g = c.game(&id(GAME)).unwrap();
    assert_eq!((g.highs_deposit, g.highs_participants), (2 * UNIT, 1));
    assert_eq!((g.lows_deposit, g.lows_participants), (0, 0));
}

#[test]
fn predict_errors() {
    let mut c = PricePredictionContract::new();
    assert_eq!(
        c.predict(NOW, id(GAME), id(20), GameResult::Higher, UNIT).map(|_| ()),
        Err(ContractErrors::NotInitiated)
    );
    let mut c = market();
    assert_eq!(
        c.predict(NOW, id(99), id(20), GameResult::Higher, UNIT).map(|_| ()),
        Err(ContractErrors::GameDoesntExist)
    );
    assert_eq!(
        c.predict(NOW + 3600, id(GAME), id(20), GameResult::Higher, UNIT).map(|_| ()),
        Err(ContractErrors::GameDeadlineReached)
    );
    assert_eq!(
        c.predict(NOW, id(GAME), id(20), GameResult::Cancelled, UNIT).map(|_| ()),
        Err(ContractErrors::InvalidPredictionResult)
    );
    assert_eq!(
        c.predict(NOW, id(GAME), id(20), GameResult::Unresolved, UNIT).map(|_| ()),
        Err(ContractErrors::InvalidPredictionResult)
    );
    assert!(c.prediction(&id(GAME), &id(20)).is_none());
    assert!(c.predict(NOW + 3599, id(GAME), id(20), GameResult::Lower, UNIT).is_ok());
}

#[test]
fn fee_scenario_arithmetic() {
    let fee = compute_fee(300, 1_000_000);
    assert_eq!(fee, 30);
    assert_eq!(300 - fee, 270);
    assert_eq!(split_fee(fee), (15, 15));
    assert_eq!(compute_reward(700, 700, 270), 270);
    assert_eq!(700 + compute_reward(700, 700, 270), 970);
}

#[test]
fn fee_rounds_up_and_protocol_takes_odd_unit() {
    assert_eq!(compute_fee(301, 1_000_000), 31);
    assert_eq!(compute_fee(0, 1_000_000), 0);
    assert_eq!(split_fee(31), (15, 16));
    assert_eq!(compute_reward(1, 3, 100), 33);
}

#[test]
fn lower_wins_scenario() {
    let mut c = market();
    c.predict(NOW, id(GAME), id(20), GameResult::Higher, 300 * UNIT).unwrap();
    c.predict(NOW, id(GAME), id(21), GameResult::Lower, 700 * UNIT).unwrap();
    assert!(c.price_needed(NOW + 86400, &id(GAME)));
    let st = c.execute(NOW + 86400, id(GAME), price(99, NOW + 86400)).unwrap().unwrap();
    let g = c.game(&id(GAME)).unwrap();
    assert_eq!(g.result, GameResult::Lower);
    assert_eq!(g.fee, 30 * UNIT);
    assert_eq!(g.prize, 270 * UNIT);
    assert_eq!(g.executed_at, NOW + 86400);
    assert_eq!((st.host_share.counterparty, st.host_share.amount), (id(HOST), 15 * UNIT));
    assert_eq!((st.protocol_share.counterparty, st.protocol_share.amount), (id(FEE_TAKER), 15 * UNIT));
    assert_eq!(st.host_share.on_failure, ContractErrors::FailedToPayHostShare);
    assert_eq!(st.protocol_share.on_failure, ContractErrors::FailedToPayProtocolShare);
    let t: Transfer = c.withdraw(id(GAME), id(21)).unwrap();
    assert_eq!((t.counterparty, t.incoming, t.amount), (id(21), false, 970 * UNIT));
    assert_eq!(t.on_failure, ContractErrors::FailedToWithdrawFunds);
    let p = c.prediction(&id(GAME), &id(21)).unwrap();
    assert_eq!((p.claimed, p.prize), (true, 270 * UNIT));
    assert_eq!(c.withdraw(id(GAME), id(20)).map(|_| ()), Err(ContractErrors::PredictionWasIncorrect));
}

#[test]
fn equal_price_means_higher() {
    let mut c = market();
    c.predict(NOW, id(GAME), id(20), GameResult::Higher, UNIT).unwrap();
    c.predict(NOW, id(GAME), id(21), GameResult::Lower, 3 * UNIT).unwrap();
    c.execute(NOW + 86400, id(GAME), price(100, NOW + 90000)).unwrap();
    let g = c.game(&id(GAME)).unwrap();
    assert_eq!(g.result, GameResult::Higher);
    assert_eq!((g.fee, g.prize), (3_000_000, 27_000_000));
    assert!(is_below(-1, 0));
    assert!(!is_below(100, 100));
}

#[test]
fn empty_side_cancels() {
    let mut c = market();
    c.predict(NOW, id(GAME), id(21), GameResult::Lower, 3 * UNIT).unwrap();
    assert!(!c.price_needed(NOW + 86400, &id(GAME)));
    assert_eq!(c.execute(NOW + 86400, id(GAME), None).map(|s| s.is_none()), Ok(true));
    let g = c.game(&id(GAME)).unwrap();
    assert_eq!((g.result, g.fee, g.prize, g.executed_at), (GameResult::Cancelled, 0, 0, NOW + 86400));
    assert_eq!(c.withdraw(id(GAME), id(21)).map(|_| ()), Err(ContractErrors::GameHasNotBeenExecuted));
}

#[test]
fn withdraw_twice_pays_once() {
    let mut c = market();
    c.predict(NOW, id(GAME), id(20), GameResult::Higher, 4 * UNIT).unwrap();
    c.predict(NOW, id(GAME), id(21), GameResult::Lower, 2 * UNIT).unwrap();
    c.execute(NOW + 86400, id(GAME), price(150, NOW + 86400)).unwrap();
    let t = c.withdraw(id(GAME), id(20)).unwrap();
    assert_eq!(t.amount, 4 * UNIT + 18_000_000);
    assert_eq!(c.withdraw(id(GAME), id(20)).map(|_| ()), Err(ContractErrors::PredictionAlreadyClaimed));
    assert!(c.prediction(&id(GAME), &id(20)).unwrap().claimed);
}

#[test]
fn execute_timing() {
    let mut c = market();
    c.predict(NOW, id(GAME), id(20), GameResult::Higher, UNIT).unwrap();
    c.predict(NOW, id(GAME), id(21), GameResult::Lower, UNIT).unwrap();
    assert_eq!(
        c.execute(NOW + 86399, id(GAME), price(1, NOW + 86400)).map(|_| ()),
        Err(ContractErrors::GameCantBeExecuted)
    );
    assert_eq!(
        c.execute(NOW + 86400, id(GAME), None).map(|_| ()),
        Err(ContractErrors::AssetPriceNotFound)
    );
    assert_eq!(
        c.execute(NOW + 86400, id(GAME), price(1, NOW + 86399)).map(|_| ()),
        Err(ContractErrors::AssetPriceIsNotUpdated)
    );
    assert_eq!(c.game(&id(GAME)).unwrap().result, GameResult::Unresolved);
    assert!(c.execute(NOW + 86400, id(GAME), price(1, NOW + 86400)).is_ok());
    assert_eq!(
        c.execute(NOW + 90000, id(GAME), price(1, NOW + 90000)).map(|_| ()),
        Err(ContractErrors::GameAlreadyExecuted)
    );
}

#[test]
fn execute_and_withdraw_errors() {
    let mut c = PricePredictionContract::new();
    assert_eq!(c.execute(NOW, id(GAME), None).map(|_| ()), Err(ContractErrors::NotInitiated));
    assert_eq!(c.withdraw(id(GAME), id(20)).map(|_| ()), Err(ContractErrors::NotInitiated));
    let mut c = market();
    assert_eq!(c.execute(NOW, id(99), None).map(|_| ()), Err(ContractErrors::GameDoesntExist));
    assert_eq!(c.withdraw(id(99), id(20)).map(|_| ()), Err(ContractErrors::GameDoesntExist));
    assert_eq!(c.withdraw(id(GAME), id(20)).map(|_| ()), Err(ContractErrors::GameHasNotBeenExecuted));
    c.predict(NOW, id(GAME), id(20), GameResult::Higher, UNIT).unwrap();
    c.predict(NOW, id(GAME), id(21), GameResult::Lower, UNIT).unwrap();
    c.execute(NOW + 86400, id(GAME), price(500, NOW + 86400)).unwrap();
    assert_eq!(c.withdraw(id(GAME), id(22)).map(|_| ()), Err(ContractErrors::PredictionDoesntExist));
}

#[test]
fn winners_share_within_pool() {
    let mut c = market();
    c.predict(NOW, id(GAME), id(20), GameResult::Higher, UNIT).unwrap();
    c.predict(NOW, id(GAME), id(21), GameResult::Higher, UNIT).unwrap();
    c.predict(NOW, id(GAME), id(22), GameResult::Higher, UNIT).unwrap();
    c.predict(NOW, id(GAME), id(23), GameResult::Lower, 10 * UNIT + 1).unwrap();
    c.execute(NOW + 86400, id(GAME), price(100, NOW + 86400)).unwrap();
    let g = c.game(&id(GAME)).unwrap();
    assert_eq!(g.fee + g.prize, 10 * UNIT + 1);
    let mut paid: u128 = 0;
    for p in [20u8, 21, 22] {
        paid += c.withdraw(id(GAME), id(p)).unwrap().amount;
    }
    assert!(paid <= g.highs_deposit + g.prize);
    assert_eq!(g.prize, 90_000_000);
    assert_eq!(g.highs_deposit + g.prize - paid, 9);
}

#[test]
fn overflow_guards() {
    let mut c = market();
    assert!(c.predict_fits(&id(GAME), GameResult::Higher, u128::MAX));
    c.predict(NOW, id(GAME), id(20), GameResult::Higher, UNIT).unwrap();
    assert!(!c.predict_fits(&id(GAME), GameResult::Higher, u128::MAX));
    assert!(c.predict_fits(&id(GAME), GameResult::Lower, u128::MAX));
    c.predict(NOW, id(GAME), id(21), GameResult::Lower, u128::MAX / 1_000_000 + 1).unwrap();
    assert!(!c.execute_fits(&id(GAME), price(200, NOW + 86400)));
    assert!(c.execute_fits(&id(GAME), price(50, NOW + 86400)));
    assert!(c.withdraw_fits(&id(GAME), &id(20)));
}

#[test]
fn restore_checks_records() {
    let c = market();
    let g = c.game(&id(GAME)).unwrap();
    let p = Prediction {
        game_id: id(GAME),
        player: id(20),
        result: GameResult::Higher,
        date: NOW,
        deposit: UNIT,
        prize: 0,
        claimed: false,
    };
    assert!(PricePredictionContract::restore(c.core_data(), Some(g), Some(p)).is_none());
    let staked = Game { highs_deposit: UNIT, highs_participants: 1, ..g };
    let r = PricePredictionContract::restore(c.core_data(), Some(staked), Some(p)).unwrap();
    assert_eq!(r.prediction(&id(GAME), &id(20)).unwrap().deposit, UNIT);
    assert!(PricePredictionContract::restore(None, None, Some(p)).is_none());
    let bad = Game { deadline: g.target_date + 1, ..g };
    assert!(PricePredictionContract::restore(None, Some(bad), None).is_none());
}

#[test]
fn oracle_helpers() {
    assert_eq!(validate_asset(&assets(), &symbol("XLM")), Ok(()));
    assert_eq!(validate_asset(&assets(), &id(90)), Err(ContractErrors::InvalidAsset));
    assert_eq!(validate_asset(&Vec::new(), &symbol("BTC")), Err(ContractErrors::InvalidAsset));
    assert_eq!(get_latest_price(None).map(|p| p.price), Err(ContractErrors::AssetPriceNotFound));
    assert_eq!(get_latest_price(price(7, 8)).map(|p| (p.price, p.timestamp)), Ok((7, 8)));
}

#[test]
fn storage_tables() {
    let mut core = Core::new();
    assert!(core.data().is_none());
    core.set_data(&CoreData { admin: id(1), fee_taker: id(2), fee: 3, paying_asset: id(4), oracle: id(5) });
    assert_eq!(core.data().unwrap().fee, 3);
    let mut t: Table<Bytes32, u64> = Table::new();
    t.set(id(1), 10);
    t.set(id(2), 20);
    t.set(id(1), 11);
    assert_eq!((t.get(&id(1)), t.get(&id(2)), t.get(&id(3))), (Some(11), Some(20), None));
    let mut k: Table<PredictionKey, u8> = Table::new();
    k.set(PredictionKey { game_id: id(1), player: id(2) }, 7);
    assert_eq!(k.get(&PredictionKey { game_id: id(2), player: id(1) }), None);
    assert_eq!(k.get(&PredictionKey { game_id: id(1), player: id(2) }), Some(7));
    assert!(same_bytes(&id(3), &id(3)));
    assert!(!same_bytes(&id(3), &id(4)));
    let mut l = Predictions::new();
    assert!(l.game(&id(1)).is_none());
    let c = market();
    l.set_game(&c.game(&id(GAME)).unwrap());
    assert_eq!(l.game(&id(GAME)).unwrap().target_price, 100);
}
