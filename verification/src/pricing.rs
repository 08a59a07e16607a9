//! The pricing curve of a constant-product pool.
//!
//! A pool that holds `reserve_in` of the asset it receives and `reserve_out`
//! of the asset it pays prices a trade so that the product of the two
//! reserves does not fall. A proportional fee is kept back, either from what
//! the trader is paid or from what the trader hands in. Amounts the trader
//! receives round down, amounts the trader owes round up.

use vstd::prelude::*;
use crate::wide::{div_ceil, div_floor, mul_div_ceil, mul_div_floor};

verus! {

/// An asset balance or a traded amount, in the asset's smallest unit.
pub type Amount = u128;

/// The scale of the fee rate.
pub const FEE_DENOMINATOR: u128 = 1000;

/// Parts per `FEE_DENOMINATOR` that remain once the fee is kept back: the fee
/// is three parts in a thousand.
pub const KEEP_NUMERATOR: u128 = 997;

/// The counter-amount of a trade and the fee it carries.
#[derive(Clone, Copy, Debug, PartialEq, Eq, Structural)]
pub struct Quote {
    /// The amount computed for the side that was not given.
    pub amount: Amount,
    /// The fee, in the asset that the fee direction selects.
    pub fee: Amount,
}

/// Why no quote can be given.
#[derive(Clone, Copy, Debug, PartialEq, Eq, Structural)]
pub enum PricingError {
    /// The amount or a reserve is zero, the pool cannot pay the amount, or a
    /// result does not fit in an `Amount`.
    OutOfRange,
}

/// What is left of `x` once the fee is kept back, rounded down.
pub open spec fn net_of_fee(x: int) -> int {
    div_floor(x * KEEP_NUMERATOR, FEE_DENOMINATOR as int)
}

/// The least amount of which `n` or more is left once the fee is kept back.
pub open spec fn gross_for_net(n: int) -> int {
    div_ceil(n * FEE_DENOMINATOR, KEEP_NUMERATOR as int)
}

/// What the curve pays for `x` handed in, before any fee, rounded down.
pub open spec fn curve_output(reserve_in: int, reserve_out: int, x: int) -> int {
    div_floor(x * reserve_out, reserve_in + x)
}

/// The least amount to hand in for which the curve pays `y` or more, before
/// any fee. Meaningful for `y < reserve_out`.
pub open spec fn curve_input(reserve_in: int, reserve_out: int, y: int) -> int {
    div_ceil(reserve_in * y, reserve_out - y)
}

/// The amount paid for `amount_in`, after the fee.
pub open spec fn output_for_input(
    reserve_in: int,
    reserve_out: int,
    amount_in: int,
    fee_from_destination: bool,
) -> int {
    if fee_from_destination {
        net_of_fee(curve_output(reserve_in, reserve_out, amount_in))
    } else {
        curve_output(reserve_in, reserve_out, net_of_fee(amount_in))
    }
}

/// The fee kept back when `amount_in` is handed in.
pub open spec fn fee_for_input(
    reserve_in: int,
    reserve_out: int,
    amount_in: int,
    fee_from_destination: bool,
) -> int {
    if fee_from_destination {
        curve_output(reserve_in, reserve_out, amount_in) - net_of_fee(
            curve_output(reserve_in, reserve_out, amount_in),
        )
    } else {
        amount_in - net_of_fee(amount_in)
    }
}

/// The least amount to hand in so that `amount_out` or more is paid after the
/// fee.
pub open spec fn input_for_output(
    reserve_in: int,
    reserve_out: int,
    amount_out: int,
    fee_from_destination: bool,
) -> int {
    if fee_from_destination {
        curve_input(reserve_in, reserve_out, gross_for_net(amount_out))
    } else {
        gross_for_net(curve_input(reserve_in, reserve_out, amount_out))
    }
}

/// The fee kept back when `amount_out` is to be paid.
pub open spec fn fee_for_output(
    reserve_in: int,
    reserve_out: int,
    amount_out: int,
    fee_from_destination: bool,
) -> int {
    if fee_from_destination {
        gross_for_net(amount_out) - amount_out
    } else {
        gross_for_net(curve_input(reserve_in, reserve_out, amount_out)) - curve_input(
            reserve_in,
            reserve_out,
            amount_out,
        )
    }
}

/// What the pool has to release, before any fee, so that `amount_out` is
/// paid.
pub open spec fn release_for_output(amount_out: int, fee_from_destination: bool) -> int {
    if fee_from_destination {
        gross_for_net(amount_out)
    } else {
        amount_out
    }
}

/// The inputs for which an output can be quoted: a positive amount, positive
/// reserves, and an input reserve that stays representable once the amount
/// is added.
pub open spec fn output_quotable(reserve_in: int, reserve_out: int, amount_in: int) -> bool {
    &&& amount_in > 0
    &&& reserve_in > 0
    &&& reserve_out > 0
    &&& reserve_in + amount_in <= u128::MAX
}

/// The inputs for which an input can be quoted: a positive amount, positive
/// reserves, an output reserve that is larger than what the pool has to
/// release, and a required input that keeps the input reserve representable.
pub open spec fn input_quotable(
    reserve_in: int,
    reserve_out: int,
    amount_out: int,
    fee_from_destination: bool,
) -> bool {
    &&& amount_out > 0
    &&& reserve_in > 0
    &&& reserve_out > 0
    &&& release_for_output(amount_out, fee_from_destination) < reserve_out
    &&& reserve_in + input_for_output(reserve_in, reserve_out, amount_out, fee_from_destination)
        <= u128::MAX
}

/// A rounded-down quotient is the greatest `q` with `q * d <= n`.
pub proof fn lemma_floor_bound(n: int, d: int, q: int)
    requires
        d > 0,
    ensures
        q <= div_floor(n, d) <==> q * d <= n,
{
    vstd::arithmetic::div_mod::lemma_fundamental_div_mod(n, d);
    vstd::arithmetic::div_mod::lemma_mod_bound(n, d);
    let k = n / d;
    let r = n % d;
    assert(q <= k ==> q * d <= k * d) by (nonlinear_arith)
        requires
            d > 0,
    ;
    assert(q >= k + 1 ==> q * d >= k * d + d) by (nonlinear_arith)
        requires
            d > 0,
    ;
    assert(d * k == k * d) by (nonlinear_arith);
}

/// A rounded-up quotient is the least `x` with `n <= x * d`.
pub proof fn lemma_ceil_bound(n: int, d: int, x: int)
    requires
        d > 0,
    ensures
        div_ceil(n, d) <= x <==> n <= x * d,
{
    lemma_floor_bound(n + d - 1, d, x + 1);
    assert((x + 1) * d == x * d + d) by (nonlinear_arith);
}

/// Keeping the fee back and grossing up are adjoint: `g` leaves at least `n`
/// exactly when `g` is at least the gross amount for `n`.
pub proof fn lemma_fee_adjoint(n: int, g: int)
    ensures
        gross_for_net(n) <= g <==> n <= net_of_fee(g),
{
    lemma_ceil_bound(n * 1000, 997, g);
    lemma_floor_bound(g * 997, 1000, n);
}

/// The curve pays less than the output reserve, and never a negative amount.
pub proof fn lemma_curve_output_range(reserve_in: int, reserve_out: int, x: int)
    requires
        reserve_in > 0,
        reserve_out > 0,
        x >= 0,
    ensures
        0 <= curve_output(reserve_in, reserve_out, x) < reserve_out,
        curve_output(reserve_in, reserve_out, 0) == 0,
{
    let d = reserve_in + x;
    lemma_floor_bound(x * reserve_out, d, 0);
    lemma_floor_bound(x * reserve_out, d, reserve_out);
    assert(0 * d <= x * reserve_out) by (nonlinear_arith)
        requires
            x >= 0,
            reserve_out > 0,
    ;
    assert(reserve_out * d > x * reserve_out) by (nonlinear_arith)
        requires
            d == reserve_in + x,
            reserve_in > 0,
            reserve_out > 0,
    ;
    assert(0 * reserve_out == 0);
    lemma_floor_bound(0, reserve_in, 1);
}

/// The two directions of the curve are adjoint: handing in `x` pays at least
/// `y` exactly when `x` is at least the input that the curve asks for `y`.
pub proof fn lemma_curve_adjoint(reserve_in: int, reserve_out: int, x: int, y: int)
    requires
        reserve_in > 0,
        reserve_out > 0,
        x >= 0,
        0 <= y < reserve_out,
    ensures
        curve_input(reserve_in, reserve_out, y) <= x <==> y <= curve_output(
            reserve_in,
            reserve_out,
            x,
        ),
{
    lemma_ceil_bound(reserve_in * y, reserve_out - y, x);
    lemma_floor_bound(x * reserve_out, reserve_in + x, y);
    assert(reserve_in * y <= x * (reserve_out - y) <==> y * (reserve_in + x) <= x * reserve_out)
        by (nonlinear_arith);
}

/// A trade that adds `x` to the input reserve and takes `y` from the output
/// reserve keeps the product of the reserves from falling exactly when `x` is
/// at least the input that the curve asks for `y`.
pub proof fn lemma_product_kept_iff(reserve_in: int, reserve_out: int, x: int, y: int)
    requires
        reserve_in > 0,
        0 <= y < reserve_out,
    ensures
        (reserve_in + x) * (reserve_out - y) >= reserve_in * reserve_out <==> x >= curve_input(
            reserve_in,
            reserve_out,
            y,
        ),
{
    lemma_ceil_bound(reserve_in * y, reserve_out - y, x);
    assert((reserve_in + x) * (reserve_out - y) - reserve_in * reserve_out == x * (reserve_out - y)
        - reserve_in * y) by (nonlinear_arith);
}

/// Keeping the fee back never adds to an amount, and grossing up never takes
/// from it.
pub proof fn lemma_fee_range(x: int)
    requires
        x >= 0,
    ensures
        0 <= net_of_fee(x) <= x,
        x <= gross_for_net(x),
        net_of_fee(gross_for_net(x)) == x,
{
    lemma_floor_bound(x * 997, 1000, 0);
    lemma_floor_bound(x * 997, 1000, x + 1);
    lemma_fee_adjoint(x, x - 1);
    if x >= 1 {
        lemma_floor_bound((x - 1) * 997, 1000, x);
    } else {
        lemma_floor_bound((x - 1) * 997, 1000, 0);
    }
    let g = gross_for_net(x);
    lemma_fee_adjoint(x, g);
    lemma_fee_adjoint(x + 1, g);
    lemma_ceil_bound((x + 1) * 1000, 997, g);
    lemma_ceil_bound(x * 1000, 997, g - 1);
}

/// The input that the curve asks for is never negative, and positive for a
/// positive output.
pub proof fn lemma_curve_input_range(reserve_in: int, reserve_out: int, y: int)
    requires
        reserve_in > 0,
        0 <= y < reserve_out,
    ensures
        0 <= curve_input(reserve_in, reserve_out, y),
        y > 0 ==> 0 < curve_input(reserve_in, reserve_out, y),
{
    lemma_ceil_bound(reserve_in * y, reserve_out - y, -1);
    lemma_ceil_bound(reserve_in * y, reserve_out - y, 0);
    assert(reserve_in * y >= 0) by (nonlinear_arith)
        requires
            reserve_in > 0,
            y >= 0,
    ;
    assert(y > 0 ==> reserve_in * y > 0) by (nonlinear_arith)
        requires
            reserve_in > 0,
    ;
    assert((-1) * (reserve_out - y) < 0) by (nonlinear_arith)
        requires
            y < reserve_out,
    ;
    assert(0 * (reserve_out - y) == 0);
}

/// The two quotes are adjoint: handing in `x` pays at least `o` after the fee
/// exactly when `x` is at least the input quoted for `o`. The input quote is
/// thus the least input that buys the output.
pub proof fn lemma_quote_adjoint(
    reserve_in: int,
    reserve_out: int,
    x: int,
    o: int,
    fee_from_destination: bool,
)
    requires
        reserve_in > 0,
        reserve_out > 0,
        x >= 0,
        o >= 0,
        release_for_output(o, fee_from_destination) < reserve_out,
    ensures
        input_for_output(reserve_in, reserve_out, o, fee_from_destination) <= x <==> o
            <= output_for_input(reserve_in, reserve_out, x, fee_from_destination),
{
    if fee_from_destination {
        lemma_fee_range(o);
        lemma_curve_adjoint(reserve_in, reserve_out, x, gross_for_net(o));
        lemma_fee_adjoint(o, curve_output(reserve_in, reserve_out, x));
    } else {
        lemma_fee_range(x);
        lemma_fee_adjoint(curve_input(reserve_in, reserve_out, o), x);
        lemma_curve_adjoint(reserve_in, reserve_out, net_of_fee(x), o);
    }
}

/// What is paid, and what the pool releases for it, stay inside the output
/// reserve; the fee is never negative.
pub proof fn lemma_output_range(
    reserve_in: int,
    reserve_out: int,
    x: int,
    fee_from_destination: bool,
)
    requires
        reserve_in > 0,
        reserve_out > 0,
        x >= 0,
    ensures
        0 <= output_for_input(reserve_in, reserve_out, x, fee_from_destination) < reserve_out,
        release_for_output(
            output_for_input(reserve_in, reserve_out, x, fee_from_destination),
            fee_from_destination,
        ) < reserve_out,
        0 <= fee_for_input(reserve_in, reserve_out, x, fee_from_destination),
        output_for_input(reserve_in, reserve_out, 0, fee_from_destination) == 0,
{
    lemma_fee_range(0);
    lemma_curve_output_range(reserve_in, reserve_out, 0);
    if fee_from_destination {
        let raw = curve_output(reserve_in, reserve_out, x);
        lemma_curve_output_range(reserve_in, reserve_out, x);
        lemma_fee_range(raw);
        lemma_fee_adjoint(net_of_fee(raw), raw);
    } else {
        lemma_fee_range(x);
        lemma_curve_output_range(reserve_in, reserve_out, net_of_fee(x));
    }
}

/// A larger input is never paid less. Because the amount paid rounds down,
/// two inputs can be paid the same: the smaller input is paid strictly less
/// exactly when it lies below the least input that is paid as much as the
/// larger one.
pub proof fn lemma_output_monotonic(
    reserve_in: int,
    reserve_out: int,
    a1: int,
    a2: int,
    fee_from_destination: bool,
)
    requires
        reserve_in > 0,
        reserve_out > 0,
        0 <= a1 <= a2,
    ensures
        output_for_input(reserve_in, reserve_out, a1, fee_from_destination) <= output_for_input(
            reserve_in,
            reserve_out,
            a2,
            fee_from_destination,
        ),
        output_for_input(reserve_in, reserve_out, a1, fee_from_destination) < output_for_input(
            reserve_in,
            reserve_out,
            a2,
            fee_from_destination,
        ) <==> a1 < input_for_output(
            reserve_in,
            reserve_out,
            output_for_input(reserve_in, reserve_out, a2, fee_from_destination),
            fee_from_destination,
        ),
{
    let o = output_for_input(reserve_in, reserve_out, a1, fee_from_destination);
    lemma_output_range(reserve_in, reserve_out, a1, fee_from_destination);
    lemma_quote_adjoint(reserve_in, reserve_out, a1, o, fee_from_destination);
    lemma_quote_adjoint(reserve_in, reserve_out, a2, o, fee_from_destination);
    let p = output_for_input(reserve_in, reserve_out, a2, fee_from_destination);
    lemma_output_range(reserve_in, reserve_out, a2, fee_from_destination);
    lemma_quote_adjoint(reserve_in, reserve_out, a1, p, fee_from_destination);
}

/// The input quote is never negative, and positive for a positive output.
pub proof fn lemma_input_range(
    reserve_in: int,
    reserve_out: int,
    o: int,
    fee_from_destination: bool,
)
    requires
        reserve_in > 0,
        reserve_out > 0,
        o >= 0,
        release_for_output(o, fee_from_destination) < reserve_out,
    ensures
        0 <= input_for_output(reserve_in, reserve_out, o, fee_from_destination),
        o > 0 ==> 0 < input_for_output(reserve_in, reserve_out, o, fee_from_destination),
        0 <= fee_for_output(reserve_in, reserve_out, o, fee_from_destination),
{
    lemma_fee_range(o);
    if fee_from_destination {
        lemma_curve_input_range(reserve_in, reserve_out, gross_for_net(o));
    } else {
        lemma_curve_input_range(reserve_in, reserve_out, o);
        lemma_fee_range(curve_input(reserve_in, reserve_out, o));
    }
}

/// A larger output never asks for a smaller input. Because the required
/// input rounds up, two outputs can ask for the same input: the larger output
/// asks for strictly more exactly when the input for the smaller one is paid
/// less than the larger output.
pub proof fn lemma_input_monotonic(
    reserve_in: int,
    reserve_out: int,
    o1: int,
    o2: int,
    fee_from_destination: bool,
)
    requires
        reserve_in > 0,
        reserve_out > 0,
        0 <= o1 <= o2,
        release_for_output(o2, fee_from_destination) < reserve_out,
    ensures
        release_for_output(o1, fee_from_destination) <= release_for_output(
            o2,
            fee_from_destination,
        ),
        input_for_output(reserve_in, reserve_out, o1, fee_from_destination) <= input_for_output(
            reserve_in,
            reserve_out,
            o2,
            fee_from_destination,
        ),
        input_for_output(reserve_in, reserve_out, o1, fee_from_destination) < input_for_output(
            reserve_in,
            reserve_out,
            o2,
            fee_from_destination,
        ) <==> output_for_input(
            reserve_in,
            reserve_out,
            input_for_output(reserve_in, reserve_out, o1, fee_from_destination),
            fee_from_destination,
        ) < o2,
{
    lemma_fee_range(o2);
    lemma_fee_adjoint(o1, gross_for_net(o2));
    let x = input_for_output(reserve_in, reserve_out, o2, fee_from_destination);
    lemma_input_range(reserve_in, reserve_out, o2, fee_from_destination);
    lemma_quote_adjoint(reserve_in, reserve_out, x, o2, fee_from_destination);
    lemma_quote_adjoint(reserve_in, reserve_out, x, o1, fee_from_destination);
    let w = input_for_output(reserve_in, reserve_out, o1, fee_from_destination);
    lemma_input_range(reserve_in, reserve_out, o1, fee_from_destination);
    lemma_quote_adjoint(reserve_in, reserve_out, w, o2, fee_from_destination);
}

/// Quoting the input for a quoted output gives the least input that is paid
/// that output. It is the input that the output was quoted for exactly when
/// handing in one unit less would have been paid less; otherwise rounding has
/// absorbed the difference and the quote is smaller.
pub proof fn lemma_round_trip(
    reserve_in: int,
    reserve_out: int,
    amount_in: int,
    fee_from_destination: bool,
)
    requires
        output_quotable(reserve_in, reserve_out, amount_in),
        output_for_input(reserve_in, reserve_out, amount_in, fee_from_destination) > 0,
    ensures
        ({
            let paid = output_for_input(reserve_in, reserve_out, amount_in, fee_from_destination);
            let back = input_for_output(reserve_in, reserve_out, paid, fee_from_destination);
            &&& input_quotable(reserve_in, reserve_out, paid, fee_from_destination)
            &&& 0 < back <= amount_in
            &&& output_for_input(reserve_in, reserve_out, back, fee_from_destination) == paid
            &&& back == amount_in <==> output_for_input(
                reserve_in,
                reserve_out,
                amount_in - 1,
                fee_from_destination,
            ) < paid
        }),
{
    let paid = output_for_input(reserve_in, reserve_out, amount_in, fee_from_destination);
    let back = input_for_output(reserve_in, reserve_out, paid, fee_from_destination);
    lemma_output_range(reserve_in, reserve_out, amount_in, fee_from_destination);
    lemma_input_range(reserve_in, reserve_out, paid, fee_from_destination);
    lemma_quote_adjoint(reserve_in, reserve_out, amount_in, paid, fee_from_destination);
    lemma_quote_adjoint(reserve_in, reserve_out, back, paid, fee_from_destination);
    lemma_output_monotonic(reserve_in, reserve_out, back, amount_in, fee_from_destination);
    lemma_quote_adjoint(reserve_in, reserve_out, amount_in - 1, paid, fee_from_destination);
}

/// The fee of the input quote against the fee of the output quote that it
/// answers. With the fee on the destination side the input quote never
/// carries the larger fee, and carries the same fee exactly when the curve's
/// payment, before the fee, is the least that leaves the amount paid. With
/// the fee on the source side, an input quote that gives the input back never
/// carries the smaller fee, and carries the same fee exactly when the input,
/// after the fee, is the least that the curve pays that amount for.
pub proof fn lemma_round_trip_fee(
    reserve_in: int,
    reserve_out: int,
    amount_in: int,
    fee_from_destination: bool,
)
    requires
        output_quotable(reserve_in, reserve_out, amount_in),
        output_for_input(reserve_in, reserve_out, amount_in, fee_from_destination) > 0,
    ensures
        ({
            let paid = output_for_input(reserve_in, reserve_out, amount_in, fee_from_destination);
            let back = input_for_output(reserve_in, reserve_out, paid, fee_from_destination);
            let fee_there = fee_for_input(reserve_in, reserve_out, amount_in, fee_from_destination);
            let fee_back = fee_for_output(reserve_in, reserve_out, paid, fee_from_destination);
            if fee_from_destination {
                let raw = curve_output(reserve_in, reserve_out, amount_in);
                &&& fee_back <= fee_there
                &&& fee_back == fee_there <==> net_of_fee(raw - 1) < paid
            } else {
                let kept = net_of_fee(amount_in);
                back == amount_in ==> {
                    &&& fee_back >= fee_there
                    &&& fee_back == fee_there <==> curve_output(reserve_in, reserve_out, kept - 1)
                        < paid
                }
            }
        }),
{
    let paid = output_for_input(reserve_in, reserve_out, amount_in, fee_from_destination);
    lemma_output_range(reserve_in, reserve_out, amount_in, fee_from_destination);
    lemma_fee_range(amount_in);
    if fee_from_destination {
        let raw = curve_output(reserve_in, reserve_out, amount_in);
        lemma_curve_output_range(reserve_in, reserve_out, amount_in);
        lemma_fee_adjoint(paid, raw);
        lemma_fee_adjoint(paid, raw - 1);
    } else {
        let kept = net_of_fee(amount_in);
        lemma_curve_adjoint(reserve_in, reserve_out, kept, paid);
        if kept >= 1 {
            lemma_curve_adjoint(reserve_in, reserve_out, kept - 1, paid);
        } else {
            lemma_curve_output_range(reserve_in, reserve_out, 0);
        }
    }
}

/// Quotes what is paid for handing in exactly `amount_in`, and the fee.
///
/// With the fee on the destination side the curve prices the whole input and
/// the fee is kept back from what it pays; with the fee on the source side
/// the fee is kept back from the input and the curve prices the rest.
pub fn quote_output_for_exact_input(
    reserve_in: Amount,
    reserve_out: Amount,
    amount_in: Amount,
    fee_from_destination: bool,
) -> (r: Result<Quote, PricingError>)
    ensures
        match r {
            Ok(q) => {
                &&& output_quotable(reserve_in as int, reserve_out as int, amount_in as int)
                &&& q.amount == output_for_input(
                    reserve_in as int,
                    reserve_out as int,
                    amount_in as int,
                    fee_from_destination,
                )
                &&& q.fee == fee_for_input(
                    reserve_in as int,
                    reserve_out as int,
                    amount_in as int,
                    fee_from_destination,
                )
            },
            Err(e) => !output_quotable(reserve_in as int, reserve_out as int, amount_in as int),
        },
{
    if amount_in == 0 || reserve_in == 0 || reserve_out == 0 {
        return Err(PricingError::OutOfRange);
    }
    if reserve_in.checked_add(amount_in).is_none() {
        return Err(PricingError::OutOfRange);
    }
    proof {
        lemma_output_range(
            reserve_in as int,
            reserve_out as int,
            amount_in as int,
            fee_from_destination,
        );
        lemma_fee_range(amount_in as int);
        lemma_fee_range(curve_output(reserve_in as int, reserve_out as int, amount_in as int));
        lemma_curve_output_range(reserve_in as int, reserve_out as int, amount_in as int);
    }
    if fee_from_destination {
        let raw = mul_div_floor(amount_in, reserve_out, reserve_in + amount_in).unwrap();
        let net = mul_div_floor(raw, KEEP_NUMERATOR, FEE_DENOMINATOR).unwrap();
        Ok(Quote { amount: net, fee: raw - net })
    } else {
        let net_in = mul_div_floor(amount_in, KEEP_NUMERATOR, FEE_DENOMINATOR).unwrap();
        let paid = mul_div_floor(net_in, reserve_out, reserve_in + net_in).unwrap();
        Ok(Quote { amount: paid, fee: amount_in - net_in })
    }
}

/// Quotes what has to be handed in so that exactly `amount_out` is paid, and
/// the fee.
///
/// With the fee on the destination side the pool releases the amount grossed
/// up by the fee and the curve prices that release; with the fee on the
/// source side the curve prices the amount and the input is grossed up.
pub fn quote_input_for_exact_output(
    reserve_in: Amount,
    reserve_out: Amount,
    amount_out: Amount,
    fee_from_destination: bool,
) -> (r: Result<Quote, PricingError>)
    ensures
        match r {
            Ok(q) => {
                &&& input_quotable(
                    reserve_in as int,
                    reserve_out as int,
                    amount_out as int,
                    fee_from_destination,
                )
                &&& q.amount == input_for_output(
                    reserve_in as int,
                    reserve_out as int,
                    amount_out as int,
                    fee_from_destination,
                )
                &&& q.fee == fee_for_output(
                    reserve_in as int,
                    reserve_out as int,
                    amount_out as int,
                    fee_from_destination,
                )
            },
            Err(e) => !input_quotable(
                reserve_in as int,
                reserve_out as int,
                amount_out as int,
                fee_from_destination,
            ),
        },
{
    if amount_out == 0 || reserve_in == 0 || reserve_out == 0 {
        return Err(PricingError::OutOfRange);
    }
    proof {
        lemma_fee_range(amount_out as int);
    }
    if fee_from_destination {
        let gross = match mul_div_ceil(amount_out, FEE_DENOMINATOR, KEEP_NUMERATOR) {
            Some(v) => v,
            None => {
                return Err(PricingError::OutOfRange);
            },
        };
        if gross >= reserve_out {
            return Err(PricingError::OutOfRange);
        }
        let amount_in = match mul_div_ceil(reserve_in, gross, reserve_out - gross) {
            Some(v) => v,
            None => {
                return Err(PricingError::OutOfRange);
            },
        };
        if reserve_in.checked_add(amount_in).is_none() {
            return Err(PricingError::OutOfRange);
        }
        Ok(Quote { amount: amount_in, fee: gross - amount_out })
    } else {
        if amount_out >= reserve_out {
            return Err(PricingError::OutOfRange);
        }
        proof {
            lemma_curve_input_range(reserve_in as int, reserve_out as int, amount_out as int);
            lemma_fee_range(curve_input(reserve_in as int, reserve_out as int, amount_out as int));
        }
        let net_in = match mul_div_ceil(reserve_in, amount_out, reserve_out - amount_out) {
            Some(v) => v,
            None => {
                return Err(PricingError::OutOfRange);
            },
        };
        let amount_in = match mul_div_ceil(net_in, FEE_DENOMINATOR, KEEP_NUMERATOR) {
            Some(v) => v,
            None => {
                return Err(PricingError::OutOfRange);
            },
        };
        if reserve_in.checked_add(amount_in).is_none() {
            return Err(PricingError::OutOfRange);
        }
        Ok(Quote { amount: amount_in, fee: amount_in - net_in })
    }
}

} // verus!
