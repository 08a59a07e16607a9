//! Validation of a trade request against what the host reports.
//!
//! Validation runs in a fixed order: accounts, pool, caller's balance, fee
//! direction, amounts, fee account, fee, balances, price. The first check
//! that fails ends it, and the request keeps what was filled in up to then.
//! A request is carried out only where a caller is given and both amounts
//! say something; otherwise it is examined, and the checks on balances and on
//! the price are left out.

use vstd::prelude::*;
use crate::bounds::Bounds;
use crate::fee_policy::{decide_fee_from_destination, fee_from_destination};
use crate::pricing::{
    fee_for_input,
    fee_for_output,
    input_for_output,
    input_quotable,
    output_for_input,
    output_quotable,
    quote_input_for_exact_output,
    quote_output_for_exact_input,
    Amount,
};
use crate::request::{AccountId, PoolState, Snapshot, SwapLeg, SwapRequest, ValidationError};
use crate::wide::Wide;

verus! {

/// The largest tolerated square of the relative change of the pool's price.
/// The price is the source reserve over the destination reserve; a trade
/// raises it. With this bound the price after a trade is at most
/// `MAX_PRICE_GROWTH` times the price before it.
pub const MAX_SQUARED_DEVIATION: u128 = 100;

/// One more than the square root of `MAX_SQUARED_DEVIATION`.
pub const MAX_PRICE_GROWTH: u128 = 11;

/// Whether a trade that adds `amount_in` to the source reserve and takes
/// `amount_out` from the destination reserve keeps the price within the
/// tolerance. With `n = (reserve_source + amount_in) * reserve_destination`
/// and `d = reserve_source * (reserve_destination - amount_out)` the price
/// after the trade is `n / d` times the price before it, so the relative
/// change is `(n - d) / d`. A trade that empties the destination reserve has
/// `d == 0` and is not tolerated.
pub open spec fn price_move_tolerated(
    reserve_source: int,
    reserve_destination: int,
    amount_in: int,
    amount_out: int,
) -> bool {
    let n = (reserve_source + amount_in) * reserve_destination;
    let d = reserve_source * (reserve_destination - amount_out);
    (n - d) * (n - d) <= MAX_SQUARED_DEVIATION * (d * d)
}

/// The tolerance on the squared relative change is a bound on the change.
proof fn lemma_tolerance_linear(n: int, d: int)
    by (nonlinear_arith)
    requires
        0 <= d <= n,
    ensures
        (n - d) * (n - d) <= 100 * (d * d) <==> n <= 11 * d,
{
    let e = n - d;
    if e <= 10 * d {
        assert(e * e <= (10 * d) * (10 * d));
    } else {
        assert(e * e >= (10 * d + 1) * (10 * d + 1));
    }
}

/// Decides whether a trade keeps the pool's price within the tolerance.
pub fn price_move_within_tolerance(
    reserve_source: Amount,
    reserve_destination: Amount,
    amount_in: Amount,
    amount_out: Amount,
) -> (r: bool)
    requires
        reserve_source + amount_in <= u128::MAX,
        amount_out <= reserve_destination,
    ensures
        r == price_move_tolerated(
            reserve_source as int,
            reserve_destination as int,
            amount_in as int,
            amount_out as int,
        ),
{
    let n = Wide::product(reserve_source + amount_in, reserve_destination);
    let d = Wide::product(reserve_source, reserve_destination - amount_out);
    proof {
        assert(0 <= d@ <= n@) by (nonlinear_arith)
            requires
                n@ == (reserve_source + amount_in) * reserve_destination,
                d@ == reserve_source * (reserve_destination - amount_out),
                amount_out <= reserve_destination,
        ;
        lemma_tolerance_linear(n@, d@);
    }
    n.le_scaled(&d, MAX_PRICE_GROWTH)
}

/// What the pool check finds wrong with the host's report, if anything.
pub open spec fn pool_error(snapshot: Snapshot) -> Option<ValidationError> {
    match snapshot.pool {
        None => Some(ValidationError::InvalidPool),
        Some(pool) => if pool.reserve_source == 0 && pool.reserve_destination == 0 {
            Some(ValidationError::PoolIsEmpty)
        } else if pool.reserve_source == 0 || pool.reserve_destination == 0 {
            Some(ValidationError::PoolIsInvalid)
        } else {
            None
        },
    }
}

/// Whether the caller is known to hold something of the source asset.
pub open spec fn payer_has_funds(snapshot: Snapshot) -> bool {
    snapshot.payer_balance is Some && snapshot.payer_balance->0 > 0
}

impl SwapRequest {
    /// Whether the request is to be carried out: there is a caller and both
    /// amounts say something.
    pub open spec fn is_concrete(&self, caller: Option<AccountId>) -> bool {
        caller is Some && !self.is_abstract()
    }

    /// Whether the request names a paying account other than the caller.
    pub open spec fn account_mismatch(&self, caller: Option<AccountId>) -> bool {
        caller is Some && self.client_account is Some && self.client_account != caller
    }

    /// The request with its open accounts filled in: the caller pays where
    /// no payer is named, and the payer is paid where no receiver is named.
    pub open spec fn with_accounts(&self, caller: Option<AccountId>) -> SwapRequest {
        let client = if self.client_account is Some {
            self.client_account
        } else {
            caller
        };
        let receiver = if self.receiver_account is Some {
            self.receiver_account
        } else {
            client
        };
        SwapRequest { client_account: client, receiver_account: receiver, ..*self }
    }

    /// The request with its fee direction decided where it was left open.
    pub open spec fn with_fee_direction(&self) -> SwapRequest {
        if self.get_fee_from_destination is Some {
            *self
        } else {
            SwapRequest {
                get_fee_from_destination: Some(
                    fee_from_destination(self.source.asset, self.destination.asset),
                ),
                ..*self
            }
        }
    }

    /// The request with its amounts resolved on the pool's curve, and the fee
    /// that the curve recommends for them.
    ///
    /// Two exact amounts must be each other's quote, fee included. An exact
    /// source amount with a floor resolves the destination amount, an exact
    /// destination amount with a ceiling resolves the source amount. No other
    /// pair of bounds determines the amounts.
    pub open spec fn with_amounts(&self, pool: PoolState) -> Result<
        (SwapRequest, Amount),
        ValidationError,
    > {
        let rs = pool.reserve_source as int;
        let rd = pool.reserve_destination as int;
        let f = self.get_fee_from_destination->0;
        match (self.source.amount, self.destination.amount) {
            (Bounds::Desired(sa), Bounds::Desired(ta)) => if sa == 0 || ta == 0 {
                Err(ValidationError::ZeroAmount)
            } else if !output_quotable(rs, rd, sa as int) || !input_quotable(
                rs,
                rd,
                ta as int,
                f,
            ) {
                Err(ValidationError::OutOfRange)
            } else if output_for_input(rs, rd, sa as int, f) != ta || input_for_output(
                rs,
                rd,
                ta as int,
                f,
            ) != sa || fee_for_input(rs, rd, sa as int, f) != fee_for_output(
                rs,
                rd,
                ta as int,
                f,
            ) {
                Err(ValidationError::RatioMismatch)
            } else {
                Ok((*self, fee_for_input(rs, rd, sa as int, f) as Amount))
            },
            (Bounds::Desired(sa), Bounds::Min(floor)) => if sa == 0 {
                Err(ValidationError::ZeroAmount)
            } else if !output_quotable(rs, rd, sa as int) {
                Err(ValidationError::OutOfRange)
            } else if output_for_input(rs, rd, sa as int, f) < floor {
                Err(ValidationError::BoundsViolation)
            } else {
                Ok(
                    (
                        SwapRequest {
                            destination: SwapLeg {
                                asset: self.destination.asset,
                                amount: Bounds::Calculated(
                                    output_for_input(rs, rd, sa as int, f) as Amount,
                                ),
                            },
                            ..*self
                        },
                        fee_for_input(rs, rd, sa as int, f) as Amount,
                    ),
                )
            },
            (Bounds::Max(ceiling), Bounds::Desired(ta)) => if ta == 0 {
                Err(ValidationError::ZeroAmount)
            } else if !input_quotable(rs, rd, ta as int, f) {
                Err(ValidationError::OutOfRange)
            } else if input_for_output(rs, rd, ta as int, f) > ceiling {
                Err(ValidationError::BoundsViolation)
            } else {
                Ok(
                    (
                        SwapRequest {
                            source: SwapLeg {
                                asset: self.source.asset,
                                amount: Bounds::Calculated(
                                    input_for_output(rs, rd, ta as int, f) as Amount,
                                ),
                            },
                            ..*self
                        },
                        fee_for_output(rs, rd, ta as int, f) as Amount,
                    ),
                )
            },
            _ => Err(ValidationError::UnderspecifiedTrade),
        }
    }

    /// Whether the request names a fee account other than the pool's.
    pub open spec fn fee_account_mismatch(&self, pool: PoolState) -> bool {
        self.fee_account is Some && self.fee_account->0 != pool.fee_account
    }

    /// The request with the pool's fee account.
    pub open spec fn with_fee_account(&self, pool: PoolState) -> SwapRequest {
        SwapRequest { fee_account: Some(pool.fee_account), ..*self }
    }

    /// Whether the request offers less than the recommended fee.
    pub open spec fn fee_too_low(&self, recommended: Amount) -> bool {
        self.fee is Some && self.fee->0 < recommended
    }

    /// The request with the recommended fee where none was offered.
    pub open spec fn with_fee(&self, recommended: Amount) -> SwapRequest {
        if self.fee is Some {
            *self
        } else {
            SwapRequest { fee: Some(recommended), ..*self }
        }
    }

    /// What the checks on the balances and on the price find wrong with a
    /// request whose amounts are resolved, if anything: the caller must hold
    /// the source amount, the pool must hold the destination amount, and the
    /// price must stay within the tolerance.
    pub open spec fn funding_error(&self, snapshot: Snapshot) -> Option<ValidationError> {
        let pool = snapshot.pool->0;
        let sa = self.source_amount()->0;
        let da = self.destination_amount()->0;
        if snapshot.payer_balance->0 < sa {
            Some(ValidationError::SourceBalanceIsNotLargeEnough)
        } else if pool.reserve_destination < da {
            Some(ValidationError::TargetBalanceIsNotLargeEnough)
        } else if !price_move_tolerated(
            pool.reserve_source as int,
            pool.reserve_destination as int,
            sa as int,
            da as int,
        ) {
            Some(ValidationError::PoolInvariantViolated)
        } else {
            None
        }
    }

    /// What validation makes of a request: the request as validation leaves
    /// it, and the verdict.
    pub open spec fn validated(&self, caller: Option<AccountId>, snapshot: Snapshot) -> (
        SwapRequest,
        Result<(), ValidationError>,
    ) {
        if self.account_mismatch(caller) {
            (*self, Err(ValidationError::AccountMismatch))
        } else {
            let named = self.with_accounts(caller);
            if pool_error(snapshot) is Some {
                (named, Err(pool_error(snapshot)->0))
            } else if self.is_concrete(caller) && !payer_has_funds(snapshot) {
                (named, Err(ValidationError::AccountBalanceIsInvalid))
            } else {
                let pool = snapshot.pool->0;
                let directed = named.with_fee_direction();
                match directed.with_amounts(pool) {
                    Err(e) => (directed, Err(e)),
                    Ok((priced, recommended)) => if priced.fee_account_mismatch(pool) {
                        (priced, Err(ValidationError::InvalidFeeAccount))
                    } else {
                        let settled = priced.with_fee_account(pool);
                        if settled.fee_too_low(recommended) {
                            (settled, Err(ValidationError::FeeTooLow))
                        } else {
                            let resolved = settled.with_fee(recommended);
                            if self.is_concrete(caller) && resolved.funding_error(snapshot)
                                is Some {
                                (resolved, Err(resolved.funding_error(snapshot)->0))
                            } else {
                                (resolved, Ok(()))
                            }
                        }
                    },
                }
            }
        }
    }
}

/// Checks the host's report on the pool: it must be a pool, and both of its
/// reserves must be positive.
fn check_pool(snapshot: &Snapshot) -> (r: Result<PoolState, ValidationError>)
    ensures
        match r {
            Ok(pool) => pool_error(*snapshot) is None && snapshot.pool == Some(pool),
            Err(e) => pool_error(*snapshot) == Some(e),
        },
{
    match snapshot.pool {
        None => Err(ValidationError::InvalidPool),
        Some(pool) => {
            if pool.reserve_source == 0 && pool.reserve_destination == 0 {
                Err(ValidationError::PoolIsEmpty)
            } else if pool.reserve_source == 0 || pool.reserve_destination == 0 {
                Err(ValidationError::PoolIsInvalid)
            } else {
                Ok(pool)
            }
        },
    }
}

impl SwapRequest {
    /// Fills in the paying and the receiving account, unless a paying account
    /// is named that is not the caller.
    fn resolve_accounts(&mut self, caller: Option<AccountId>) -> (r: Result<(), ValidationError>)
        ensures
            old(self).account_mismatch(caller) ==> r == Err::<(), ValidationError>(
                ValidationError::AccountMismatch,
            ) && *final(self) == *old(self),
            !old(self).account_mismatch(caller) ==> r == Ok::<(), ValidationError>(())
                && *final(self) == old(self).with_accounts(caller),
    {
        match caller {
            Some(c) => {
                match self.client_account {
                    None => {
                        self.client_account = Some(c);
                    },
                    Some(named) => {
                        if named != c {
                            return Err(ValidationError::AccountMismatch);
                        }
                    },
                }
            },
            None => {},
        }
        if self.receiver_account.is_none() {
            self.receiver_account = self.client_account;
        }
        Ok(())
    }

    /// Decides the fee direction where it is open.
    fn resolve_fee_direction(&mut self)
        ensures
            *final(self) == old(self).with_fee_direction(),
            final(self).get_fee_from_destination is Some,
    {
        if self.get_fee_from_destination.is_none() {
            self.get_fee_from_destination = Some(
                decide_fee_from_destination(self.source.asset, self.destination.asset),
            );
        }
    }

    /// Resolves the amounts on the pool's curve and gives the recommended fee.
    /// The request is changed only where that succeeds.
    fn resolve_amounts(&mut self, pool: &PoolState) -> (r: Result<Amount, ValidationError>)
        requires
            old(self).get_fee_from_destination is Some,
        ensures
            match old(self).with_amounts(*pool) {
                Ok((priced, recommended)) => r == Ok::<Amount, ValidationError>(recommended)
                    && *final(self) == priced,
                Err(e) => r == Err::<Amount, ValidationError>(e) && *final(self) == *old(self),
            },
    {
        let fee_side = self.get_fee_from_destination.unwrap();
        let rs = pool.reserve_source;
        let rd = pool.reserve_destination;
        match (self.source.amount, self.destination.amount) {
            (Bounds::Desired(sa), Bounds::Desired(ta)) => {
                if sa == 0 || ta == 0 {
                    return Err(ValidationError::ZeroAmount);
                }
                let paid = match quote_output_for_exact_input(rs, rd, sa, fee_side) {
                    Ok(q) => q,
                    Err(_) => {
                        return Err(ValidationError::OutOfRange);
                    },
                };
                let owed = match quote_input_for_exact_output(rs, rd, ta, fee_side) {
                    Ok(q) => q,
                    Err(_) => {
                        return Err(ValidationError::OutOfRange);
                    },
                };
                if paid.amount != ta || owed.amount != sa || paid.fee != owed.fee {
                    return Err(ValidationError::RatioMismatch);
                }
                Ok(paid.fee)
            },
            (Bounds::Desired(sa), Bounds::Min(floor)) => {
                if sa == 0 {
                    return Err(ValidationError::ZeroAmount);
                }
                let paid = match quote_output_for_exact_input(rs, rd, sa, fee_side) {
                    Ok(q) => q,
                    Err(_) => {
                        return Err(ValidationError::OutOfRange);
                    },
                };
                if paid.amount < floor {
                    return Err(ValidationError::BoundsViolation);
                }
                self.destination.amount = Bounds::Calculated(paid.amount);
                Ok(paid.fee)
            },
            (Bounds::Max(ceiling), Bounds::Desired(ta)) => {
                if ta == 0 {
                    return Err(ValidationError::ZeroAmount);
                }
                let owed = match quote_input_for_exact_output(rs, rd, ta, fee_side) {
                    Ok(q) => q,
                    Err(_) => {
                        return Err(ValidationError::OutOfRange);
                    },
                };
                if owed.amount > ceiling {
                    return Err(ValidationError::BoundsViolation);
                }
                self.source.amount = Bounds::Calculated(owed.amount);
                Ok(owed.fee)
            },
            _ => Err(ValidationError::UnderspecifiedTrade),
        }
    }

    /// Fills in the pool's fee account, unless another one is named.
    fn resolve_fee_account(&mut self, pool: &PoolState) -> (r: Result<(), ValidationError>)
        ensures
            old(self).fee_account_mismatch(*pool) ==> r == Err::<(), ValidationError>(
                ValidationError::InvalidFeeAccount,
            ) && *final(self) == *old(self),
            !old(self).fee_account_mismatch(*pool) ==> r == Ok::<(), ValidationError>(())
                && *final(self) == old(self).with_fee_account(*pool),
    {
        match self.fee_account {
            Some(named) => {
                if named != pool.fee_account {
                    return Err(ValidationError::InvalidFeeAccount);
                }
            },
            None => {
                self.fee_account = Some(pool.fee_account);
            },
        }
        Ok(())
    }

    /// Fills in the recommended fee, unless a smaller one is offered.
    fn resolve_fee(&mut self, recommended: Amount) -> (r: Result<(), ValidationError>)
        ensures
            old(self).fee_too_low(recommended) ==> r == Err::<(), ValidationError>(
                ValidationError::FeeTooLow,
            ) && *final(self) == *old(self),
            !old(self).fee_too_low(recommended) ==> r == Ok::<(), ValidationError>(())
                && *final(self) == old(self).with_fee(recommended),
    {
        match self.fee {
            Some(offered) => {
                if offered < recommended {
                    return Err(ValidationError::FeeTooLow);
                }
            },
            None => {
                self.fee = Some(recommended);
            },
        }
        Ok(())
    }

    /// Checks that the caller and the pool hold what the trade moves, and
    /// that the trade keeps the price within the tolerance.
    fn check_funding(&self, pool: &PoolState, payer_balance: Amount) -> (r: Result<
        (),
        ValidationError,
    >)
        requires
            self.source_amount() is Some,
            self.destination_amount() is Some,
            pool.reserve_source + self.source_amount()->0 <= u128::MAX,
        ensures
            match self.funding_error(
                Snapshot { pool: Some(*pool), payer_balance: Some(payer_balance) },
            ) {
                Some(e) => r == Err::<(), ValidationError>(e),
                None => r == Ok::<(), ValidationError>(()),
            },
    {
        let sa = self.source.amount.value().unwrap();
        let da = self.destination.amount.value().unwrap();
        if payer_balance < sa {
            return Err(ValidationError::SourceBalanceIsNotLargeEnough);
        }
        if pool.reserve_destination < da {
            return Err(ValidationError::TargetBalanceIsNotLargeEnough);
        }
        if !price_move_within_tolerance(pool.reserve_source, pool.reserve_destination, sa, da) {
            return Err(ValidationError::PoolInvariantViolated);
        }
        Ok(())
    }

    /// Validates the request against the host's report and fills in what it
    /// leaves open.
    ///
    /// The checks run in this order, and the first that fails gives the
    /// error:
    /// 1. a paying account that is named must be the caller;
    /// 2. the pool account must be a pool, with two positive reserves;
    /// 3. a caller who wants the trade carried out must hold something of the
    ///    source asset;
    /// 4. the fee direction is decided where it is open;
    /// 5. the amounts are resolved on the curve;
    /// 6. a fee account that is named must be the pool's;
    /// 7. a fee that is offered must reach the recommended fee;
    /// 8. for a trade to be carried out, the caller must hold the source
    ///    amount, the pool must hold the destination amount, and the price
    ///    must stay within the tolerance.
    ///
    /// On an error the request keeps what was filled in before the failing
    /// check; such a request is to be discarded.
    pub fn prepare_and_validate(&mut self, caller: Option<AccountId>, snapshot: &Snapshot) -> (r:
        Result<(), ValidationError>)
        ensures
            r == old(self).validated(caller, *snapshot).1,
            *final(self) == old(self).validated(caller, *snapshot).0,
            r is Ok ==> {
                &&& final(self).source_amount() is Some
                &&& final(self).destination_amount() is Some
                &&& final(self).on_curve(snapshot.pool->0)
                &&& final(self).fee_account == Some(snapshot.pool->0.fee_account)
                &&& final(self).fee is Some
                &&& final(self).fee->0 >= final(self).recommended_fee(snapshot.pool->0)
                &&& caller is Some ==> final(self).client_account == caller
                    && final(self).receiver_account is Some
            },
    {
        let concrete = caller.is_some() && !self.is_abstract_checking();
        match self.resolve_accounts(caller) {
            Err(e) => {
                return Err(e);
            },
            Ok(()) => {},
        }
        let pool = match check_pool(snapshot) {
            Ok(pool) => pool,
            Err(e) => {
                return Err(e);
            },
        };
        let payer_balance: Amount = match snapshot.payer_balance {
            Some(b) => b,
            None => 0,
        };
        if concrete && payer_balance == 0 {
            return Err(ValidationError::AccountBalanceIsInvalid);
        }
        self.resolve_fee_direction();
        let recommended = match self.resolve_amounts(&pool) {
            Ok(fee) => fee,
            Err(e) => {
                return Err(e);
            },
        };
        match self.resolve_fee_account(&pool) {
            Err(e) => {
                return Err(e);
            },
            Ok(()) => {},
        }
        match self.resolve_fee(recommended) {
            Err(e) => {
                return Err(e);
            },
            Ok(()) => {},
        }
        let verdict = if concrete {
            self.check_funding(&pool, payer_balance)
        } else {
            Ok(())
        };
        proof {
            if verdict is Ok {
                lemma_validated_is_resolved(*old(self), caller, *snapshot);
            }
        }
        verdict
    }
}

impl SwapRequest {
    /// Whether the amounts of the request lie on the pool's curve: the
    /// destination amount is what is paid for an exact source amount, or the
    /// source amount is what is owed for an exact destination amount.
    pub open spec fn on_curve(&self, pool: PoolState) -> bool {
        let rs = pool.reserve_source as int;
        let rd = pool.reserve_destination as int;
        let f = self.get_fee_from_destination->0;
        let sa = self.source_amount()->0 as int;
        let da = self.destination_amount()->0 as int;
        if self.source.amount is Desired {
            output_quotable(rs, rd, sa) && da == output_for_input(rs, rd, sa, f)
        } else {
            input_quotable(rs, rd, da, f) && sa == input_for_output(rs, rd, da, f)
        }
    }

    /// The fee that the curve recommends for the amounts of the request.
    pub open spec fn recommended_fee(&self, pool: PoolState) -> int {
        let rs = pool.reserve_source as int;
        let rd = pool.reserve_destination as int;
        let f = self.get_fee_from_destination->0;
        if self.source.amount is Desired {
            fee_for_input(rs, rd, self.source_amount()->0 as int, f)
        } else {
            fee_for_output(rs, rd, self.destination_amount()->0 as int, f)
        }
    }

    /// Whether the bounds of the request determine its amounts: two exact
    /// amounts, an exact source amount with a floor, or an exact destination
    /// amount with a ceiling.
    pub open spec fn is_determined(&self) -> bool {
        ||| self.source.amount is Desired && self.destination.amount is Desired
        ||| self.source.amount is Desired && self.destination.amount is Min
        ||| self.source.amount is Max && self.destination.amount is Desired
    }
}

/// A request that passes validation is resolved. Its assets and its pool
/// account are as the caller wrote them, both reserves are positive, both
/// amounts are known and lie on the curve, the source amount is positive, the
/// fee account is the pool's, and the fee is the offered one where one was
/// offered and the recommended one otherwise. With a caller, the caller pays
/// and a receiver is named. A request to be carried out is covered by the
/// caller's balance and the pool's reserve, and keeps the price within the
/// tolerance.
pub proof fn lemma_validated_is_resolved(
    request: SwapRequest,
    caller: Option<AccountId>,
    snapshot: Snapshot,
)
    requires
        request.validated(caller, snapshot).1 is Ok,
    ensures
        ({
            let resolved = request.validated(caller, snapshot).0;
            let pool = snapshot.pool->0;
            &&& snapshot.pool is Some
            &&& pool.reserve_source > 0
            &&& pool.reserve_destination > 0
            &&& resolved.source.asset == request.source.asset
            &&& resolved.destination.asset == request.destination.asset
            &&& resolved.pool_account == request.pool_account
            &&& request.is_determined()
            &&& resolved.source_amount() is Some
            &&& resolved.destination_amount() is Some
            &&& resolved.source_amount()->0 > 0
            &&& resolved.destination_amount()->0 < pool.reserve_destination
            &&& pool.reserve_source + resolved.source_amount()->0 <= u128::MAX
            &&& resolved.get_fee_from_destination is Some
            &&& request.get_fee_from_destination is Some ==> resolved.get_fee_from_destination
                == request.get_fee_from_destination
            &&& request.get_fee_from_destination is None ==> resolved.get_fee_from_destination
                == Some(fee_from_destination(request.source.asset, request.destination.asset))
            &&& resolved.on_curve(pool)
            &&& resolved.fee_account == Some(pool.fee_account)
            &&& resolved.fee is Some
            &&& request.fee is Some ==> resolved.fee == request.fee
            &&& request.fee is None ==> resolved.fee->0 == resolved.recommended_fee(pool)
            &&& caller is Some ==> resolved.client_account == caller
                && resolved.receiver_account is Some
            &&& request.is_concrete(caller) ==> {
                &&& snapshot.payer_balance is Some
                &&& snapshot.payer_balance->0 >= resolved.source_amount()->0
                &&& price_move_tolerated(
                    pool.reserve_source as int,
                    pool.reserve_destination as int,
                    resolved.source_amount()->0 as int,
                    resolved.destination_amount()->0 as int,
                )
            }
        }),
{
    let pool = snapshot.pool->0;
    let rs = pool.reserve_source as int;
    let rd = pool.reserve_destination as int;
    let directed = request.with_accounts(caller).with_fee_direction();
    let f = directed.get_fee_from_destination->0;
    let priced = directed.with_amounts(pool)->Ok_0.0;
    let sa = priced.source_amount()->0 as int;
    let da = priced.destination_amount()->0 as int;
    if directed.source.amount is Desired {
        crate::pricing::lemma_output_range(rs, rd, sa, f);
        crate::pricing::lemma_fee_range(sa);
        crate::pricing::lemma_fee_range(crate::pricing::curve_output(rs, rd, sa));
    } else {
        crate::pricing::lemma_input_range(rs, rd, da, f);
        crate::pricing::lemma_fee_range(da);
    }
}

/// A fee that the caller offers is accepted only where it reaches the fee
/// that the curve recommends for the resolved amounts.
pub proof fn lemma_fee_floor(request: SwapRequest, caller: Option<AccountId>, snapshot: Snapshot)
    requires
        request.validated(caller, snapshot).1 is Ok,
    ensures
        ({
            let resolved = request.validated(caller, snapshot).0;
            resolved.fee is Some && resolved.fee->0 >= resolved.recommended_fee(snapshot.pool->0)
        }),
{
    lemma_validated_is_resolved(request, caller, snapshot);
}

/// A request whose bounds do not determine its amounts is refused, whatever
/// the pool holds. It is refused as underspecified unless an earlier check
/// fails: on the paying account, on the pool, or on the caller's balance.
pub proof fn lemma_underspecified_rejected(
    request: SwapRequest,
    caller: Option<AccountId>,
    snapshot: Snapshot,
)
    requires
        !request.is_determined(),
    ensures
        ({
            let verdict = request.validated(caller, snapshot).1;
            let refused_before = request.account_mismatch(caller) || pool_error(snapshot) is Some
                || (request.is_concrete(caller) && !payer_has_funds(snapshot));
            &&& verdict is Err
            &&& !refused_before <==> verdict == Err::<(), ValidationError>(
                ValidationError::UnderspecifiedTrade,
            )
        }),
{
}

/// The curve never pays out the whole destination reserve, so a request whose
/// amounts are resolved on the curve is never refused for want of
/// destination balance in the pool.
pub proof fn lemma_pool_covers_destination(
    request: SwapRequest,
    caller: Option<AccountId>,
    snapshot: Snapshot,
)
    ensures
        request.validated(caller, snapshot).1 != Err::<(), ValidationError>(
            ValidationError::TargetBalanceIsNotLargeEnough,
        ),
{
    let pool = snapshot.pool->0;
    let rs = pool.reserve_source as int;
    let rd = pool.reserve_destination as int;
    let directed = request.with_accounts(caller).with_fee_direction();
    if !request.account_mismatch(caller) && pool_error(snapshot) is None && directed.with_amounts(
        pool,
    ) is Ok {
        let f = directed.get_fee_from_destination->0;
        let priced = directed.with_amounts(pool)->Ok_0.0;
        let sa = priced.source_amount()->0 as int;
        let da = priced.destination_amount()->0 as int;
        if directed.source.amount is Desired {
            crate::pricing::lemma_output_range(rs, rd, sa, f);
        } else {
            crate::pricing::lemma_fee_range(da);
        }
    }
}

} // verus!
