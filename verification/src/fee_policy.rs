//! Which side of a trade the fee is taken from.

use vstd::prelude::*;
use crate::request::AssetId;

verus! {

/// The number of the base asset, against which the other assets are priced.
pub const BASE_ASSET: u32 = 0;

/// The fee is taken from the destination side for a pair that holds the base
/// asset, and from the source side for a pair of two other assets.
pub open spec fn fee_from_destination(asset_a: AssetId, asset_b: AssetId) -> bool {
    asset_a.0 == BASE_ASSET || asset_b.0 == BASE_ASSET
}

/// Decides the fee direction for a pair of assets. The answer belongs to the
/// pair: it does not change when source and destination trade places.
pub fn decide_fee_from_destination(asset_a: AssetId, asset_b: AssetId) -> (r: bool)
    ensures
        r == fee_from_destination(asset_a, asset_b),
        r == fee_from_destination(asset_b, asset_a),
{
    asset_a.0 == BASE_ASSET || asset_b.0 == BASE_ASSET
}

/// The fee direction of a pair does not depend on the order in which its two
/// assets are named.
pub proof fn lemma_fee_direction_symmetric(asset_a: AssetId, asset_b: AssetId)
    ensures
        fee_from_destination(asset_a, asset_b) == fee_from_destination(asset_b, asset_a),
{
}

} // verus!
