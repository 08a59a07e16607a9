//! The trade request and what the host reports about the pool.

use vstd::prelude::*;
use crate::bounds::Bounds;
use crate::pricing::Amount;

verus! {

/// The number under which the host knows an asset.
#[derive(Clone, Copy, Debug, PartialEq, Eq, Hash, Structural)]
pub struct AssetId(pub u32);

/// The number under which the host knows an account that holds balances.
#[derive(Clone, Copy, Debug, PartialEq, Eq, Hash, Structural)]
pub struct AccountId(pub u64);

/// One side of a trade: an asset and what is known of its amount.
#[derive(Clone, Copy, Debug, PartialEq, Eq)]
pub struct SwapLeg {
    pub asset: AssetId,
    pub amount: Bounds<Amount>,
}

/// A trade of one asset for another against one pool.
///
/// A caller fills in what it knows and leaves the rest open; validation
/// fills in the open fields. The two assets are meant to differ.
#[derive(Clone, Copy, Debug, PartialEq, Eq)]
pub struct SwapRequest {
    /// What the trader hands in.
    pub source: SwapLeg,
    /// What the trader receives.
    pub destination: SwapLeg,
    /// The account that holds the pool's reserves.
    pub pool_account: AccountId,
    /// The account that pays; the caller where it is left open.
    pub client_account: Option<AccountId>,
    /// The account that is paid; the paying account where it is left open.
    pub receiver_account: Option<AccountId>,
    /// The account that collects the fee; the pool's own fee account where it
    /// is left open.
    pub fee_account: Option<AccountId>,
    /// Whether the fee is taken from the destination asset; decided once, by
    /// the fee policy, where it is left open.
    pub get_fee_from_destination: Option<bool>,
    /// The fee the caller offers; the recommended fee where it is left open.
    pub fee: Option<Amount>,
}

/// What the host holds for a pool.
#[derive(Clone, Copy, Debug, PartialEq, Eq)]
pub struct PoolState {
    /// The pool's balance of the request's source asset.
    pub reserve_source: Amount,
    /// The pool's balance of the request's destination asset.
    pub reserve_destination: Amount,
    /// The account that collects this pool's fees.
    pub fee_account: AccountId,
}

/// What the host reads before a request is validated.
#[derive(Clone, Copy, Debug, PartialEq, Eq)]
pub struct Snapshot {
    /// The pool behind the request's pool account; `None` where that account
    /// is not a pool for the source asset.
    pub pool: Option<PoolState>,
    /// The caller's spendable balance of the source asset; `None` where there
    /// is no caller or the host knows no such balance.
    pub payer_balance: Option<Amount>,
}

/// Why a request is refused.
#[derive(Clone, Copy, Debug, PartialEq, Eq, Structural)]
pub enum ValidationError {
    /// The request names a paying account that is not the caller.
    AccountMismatch,
    /// The pool account is not a pool for the source asset.
    InvalidPool,
    /// Both reserves are zero.
    PoolIsEmpty,
    /// One reserve is zero and the other is not.
    PoolIsInvalid,
    /// The caller holds nothing of the source asset.
    AccountBalanceIsInvalid,
    /// An exact amount is zero.
    ZeroAmount,
    /// Two exact amounts do not lie on the pool's curve.
    RatioMismatch,
    /// The resolved amount is below the floor or above the ceiling.
    BoundsViolation,
    /// The bounds do not determine the amounts.
    UnderspecifiedTrade,
    /// The curve gives no quote for the amounts.
    OutOfRange,
    /// The fee account is not the pool's fee account.
    InvalidFeeAccount,
    /// The offered fee is below the recommended fee.
    FeeTooLow,
    /// The caller holds less than the source amount.
    SourceBalanceIsNotLargeEnough,
    /// The pool holds less than the destination amount.
    TargetBalanceIsNotLargeEnough,
    /// The trade would move the pool's price further than tolerated.
    PoolInvariantViolated,
}

impl SwapRequest {
    /// A request marks itself as an examination only by leaving an amount
    /// unset.
    pub open spec fn is_abstract(&self) -> bool {
        self.source.amount is Unset || self.destination.amount is Unset
    }

    /// Whether the request leaves an amount unset, so that it can only be
    /// examined and not carried out.
    #[verifier::when_used_as_spec(is_abstract)]
    pub fn is_abstract_checking(&self) -> (r: bool)
        ensures
            r == self.is_abstract(),
    {
        self.source.amount.is_unset() || self.destination.amount.is_unset()
    }

    /// Whether what the trade yields is handed over as part of carrying it
    /// out: always.
    pub fn instant_auto_claim_used(&self) -> (r: bool)
        ensures
            r,
    {
        true
    }

    /// Whether what the trade yields is handed over on a later trigger:
    /// never.
    pub fn triggered_auto_claim_used(&self) -> (r: bool)
        ensures
            !r,
    {
        false
    }

    /// Whether what the trade yields can be claimed: always.
    pub fn is_able_to_claim(&self) -> (r: bool)
        ensures
            r,
    {
        true
    }

    /// Claims what the trade yields for `account`. Nothing is left to hand
    /// over once the trade is carried out, so every claim is granted.
    pub fn claim(&self, account: AccountId) -> (r: bool)
        ensures
            r,
    {
        true
    }

    /// The source amount, once it is known.
    pub open spec fn source_amount(&self) -> Option<Amount> {
        self.source.amount.spec_value()
    }

    /// The destination amount, once it is known.
    pub open spec fn destination_amount(&self) -> Option<Amount> {
        self.destination.amount.spec_value()
    }
}

} // verus!
