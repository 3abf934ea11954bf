use vstd::prelude::*;
use crate::errors::ContractErrors;
use crate::table::{same_bytes, Bytes32};

verus! {

/// An asset as the price oracle names it.
#[derive(Copy, Clone, Debug)]
pub enum Asset {
    Stellar(Bytes32),
    Other(Bytes32),
}

/// The oracle's latest price of an asset and when it was observed.
#[derive(Copy, Clone, Debug)]
pub struct PriceData {
    pub price: i128,
    pub timestamp: u64,
}

/// Whether the oracle lists the asset with symbol `symbol`.
pub open spec fn asset_listed(assets: Seq<Asset>, symbol: Bytes32) -> bool {
    exists|i: int| 0 <= i < assets.len() && assets[i] == Asset::Other(symbol)
}

/// Accepts `asset` only if it is among the assets that the oracle supports.
pub fn validate_asset(assets: &Vec<Asset>, asset: &Bytes32) -> (r: Result<(), ContractErrors>)
    ensures
        r == (if asset_listed(assets@, *asset) {
            Ok(())
        } else {
            Err(ContractErrors::InvalidAsset)
        }),
{
    let mut i: usize = 0;
    while i < assets.len()
        invariant
            i <= assets@.len(),
            forall|j: int| 0 <= j < i ==> assets@[j] != Asset::Other(*asset),
        decreases assets@.len() - i,
    {
        match &assets[i] {
            Asset::Other(symbol) => {
                if same_bytes(symbol, asset) {
                    return Ok(());
                }
            },
            Asset::Stellar(_) => {},
        }
        i = i + 1;
    }
    Err(ContractErrors::InvalidAsset)
}

/// The oracle's answer for an asset, or AssetPriceNotFound where it has none.
pub fn get_latest_price(latest: Option<PriceData>) -> (r: Result<PriceData, ContractErrors>)
    ensures
        r == (match latest {
            Some(p) => Ok(p),
            None => Err(ContractErrors::AssetPriceNotFound),
        }),
{
    match latest {
        Some(p) => Ok(p),
        None => Err(ContractErrors::AssetPriceNotFound),
    }
}

/// Whether an observed price lies below the target price.
pub open spec fn price_below(price: i128, target: u128) -> bool {
    (price as int) < (target as int)
}

/// Compares a signed oracle price with an unsigned target; a negative price
/// lies below every target.
pub fn is_below(price: i128, target: u128) -> (r: bool)
    ensures
        r == price_below(price, target),
{
    price < 0 || (price as u128) < target
}

} // verus!
