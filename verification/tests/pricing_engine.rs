use pool_xyk::pricing::{
    quote_input_for_exact_output, quote_output_for_exact_input, PricingError, Quote,
};

const MAX: u128 = u128::MAX;

fn paid(reserve_in: u128, reserve_out: u128, amount_in: u128, fee_from_destination: bool) -> Quote {
    quote_output_for_exact_input(reserve_in, reserve_out, amount_in, fee_from_destination).unwrap()
}

fn owed(reserve_in: u128, reserve_out: u128, amount_out: u128, fee_from_destination: bool) -> Quote {
    quote_input_for_exact_output(reserve_in, reserve_out, amount_out, fee_from_destination).unwrap()
}

#[test]
fn output_with_fee_from_destination() {
    assert_eq!(paid(1_000_000, 1_000_000, 1000, true), Quote { amount: 996, fee: 3 });
    assert_eq!(paid(5_000, 20_000, 123, true), Quote { amount: 478, fee: 2 });
    assert_eq!(paid(10, 1000, 1, true), Quote { amount: 89, fee: 1 });
}

#[test]
fn output_with_fee_from_source() {
    assert_eq!(paid(1_000_000, 1_000_000, 1000, false), Quote { amount: 996, fee: 3 });
    assert_eq!(paid(5_000, 20_000, 123, false), Quote { amount: 476, fee: 1 });
    assert_eq!(paid(10, 10, 100, false), Quote { amount: 9, fee: 1 });
}

#[test]
fn output_rounds_down_to_nothing_for_a_tiny_input() {
    assert_eq!(paid(1, 1, 1, true), Quote { amount: 0, fee: 0 });
    assert_eq!(paid(1000, 1000, 1, false), Quote { amount: 0, fee: 1 });
}

#[test]
fn output_is_refused_for_zero_amount_or_reserve() {
    assert_eq!(quote_output_for_exact_input(10, 10, 0, true), Err(PricingError::OutOfRange));
    assert_eq!(quote_output_for_exact_input(0, 10, 5, true), Err(PricingError::OutOfRange));
    assert_eq!(quote_output_for_exact_input(10, 0, 5, false), Err(PricingError::OutOfRange));
}

#[test]
fn output_is_refused_when_the_input_reserve_would_overflow() {
    assert_eq!(quote_output_for_exact_input(MAX, MAX, 1, true), Err(PricingError::OutOfRange));
    assert_eq!(quote_output_for_exact_input(MAX, MAX, 1, false), Err(PricingError::OutOfRange));
    assert_eq!(paid(MAX - 1, MAX, 1, true), Quote { amount: 0, fee: 1 });
    assert_eq!(paid(MAX - 1, MAX, 1, false), Quote { amount: 0, fee: 1 });
}

#[test]
fn output_on_balances_whose_product_needs_two_words() {
    let half: u128 = 1u128 << 127;
    let quarter: u128 = 1u128 << 126;
    assert_eq!(
        paid(half, half, quarter, true),
        Quote {
            amount: 56543586636695941345497413934912151136,
            fee: 170141183460469231731687303715884106,
        }
    );
    assert_eq!(
        paid(half, half, quarter, false),
        Quote {
            amount: 56600186823519460806303717652564715852,
            fee: 255211775190703847597530955573826159,
        }
    );
    let e29: u128 = 100_000_000_000_000_000_000_000_000_000;
    assert_eq!(
        paid(10 * e29, 30 * e29, e29, true),
        Quote { amount: 271909090909090909090909090908, fee: 818181818181818181818181819 }
    );
    assert_eq!(
        paid(10 * e29, 30 * e29, e29, false),
        Quote { amount: 271983268164044739474402109666, fee: 300000000000000000000000000 }
    );
}

#[test]
fn input_with_fee_from_destination() {
    assert_eq!(owed(1_000_000, 1_000_000, 996, true), Quote { amount: 1000, fee: 3 });
    assert_eq!(owed(10, 10, 8, true), Quote { amount: 90, fee: 1 });
    assert_eq!(owed(1000, 1000, 996, true), Quote { amount: 999_000, fee: 3 });
}

#[test]
fn input_with_fee_from_source() {
    assert_eq!(owed(1_000_000, 1_000_000, 996, false), Quote { amount: 1000, fee: 3 });
    assert_eq!(owed(1_000_000, 1_000_000, 995, false), Quote { amount: 999, fee: 3 });
    assert_eq!(owed(10, 10, 9, false), Quote { amount: 91, fee: 1 });
    assert_eq!(owed(1000, 1000, 999, false), Quote { amount: 1_002_007, fee: 3007 });
}

#[test]
fn input_rounds_up() {
    assert_eq!(owed(10, 1000, 1, true), Quote { amount: 1, fee: 1 });
    assert_eq!(owed(10, 1000, 2, true), Quote { amount: 1, fee: 1 });
    assert_eq!(owed(10, 1000, 1, false), Quote { amount: 2, fee: 1 });
    assert_eq!(owed(10, 1000, 2, false), Quote { amount: 2, fee: 1 });
}

#[test]
fn input_is_refused_for_zero_amount_or_reserve() {
    assert_eq!(quote_input_for_exact_output(10, 10, 0, true), Err(PricingError::OutOfRange));
    assert_eq!(quote_input_for_exact_output(0, 10, 5, false), Err(PricingError::OutOfRange));
    assert_eq!(quote_input_for_exact_output(10, 0, 5, true), Err(PricingError::OutOfRange));
}

#[test]
fn input_is_refused_when_the_pool_cannot_pay() {
    assert_eq!(quote_input_for_exact_output(1000, 1000, 1000, false), Err(PricingError::OutOfRange));
    assert_eq!(quote_input_for_exact_output(1000, 1000, 997, true), Err(PricingError::OutOfRange));
    assert_eq!(quote_input_for_exact_output(10, 10, 9, true), Err(PricingError::OutOfRange));
    assert_eq!(quote_input_for_exact_output(MAX, MAX, MAX, true), Err(PricingError::OutOfRange));
}

#[test]
fn input_is_refused_when_it_does_not_fit() {
    let half: u128 = 1u128 << 127;
    assert_eq!(quote_input_for_exact_output(half, half, half - 1, false), Err(PricingError::OutOfRange));
    assert_eq!(quote_input_for_exact_output(half, half, 1u128 << 126, true), Err(PricingError::OutOfRange));
    assert_eq!(quote_input_for_exact_output(MAX, MAX, MAX - 1, false), Err(PricingError::OutOfRange));
}

#[test]
fn input_on_balances_whose_product_needs_two_words() {
    let e29: u128 = 100_000_000_000_000_000_000_000_000_000;
    assert_eq!(
        owed(10 * e29, 30 * e29, e29, true),
        Quote { amount: 34590107229332410930473884470, fee: 300902708124373119358074223 }
    );
    assert_eq!(
        owed(10 * e29, 30 * e29, e29, false),
        Quote { amount: 34586518175215301075640715250, fee: 103759554525645903226922146 }
    );
}

#[test]
fn round_trip_gives_the_input_back_where_one_unit_less_is_paid_less() {
    for side in [true, false] {
        let there = paid(1_000_000, 1_000_000, 1000, side);
        assert!(paid(1_000_000, 1_000_000, 999, side).amount < there.amount);
        let back = owed(1_000_000, 1_000_000, there.amount, side);
        assert_eq!(back.amount, 1000);
        assert_eq!(back.fee, there.fee);
        let again = paid(5_000, 20_000, 123, side);
        assert_eq!(owed(5_000, 20_000, again.amount, side).amount, 123);
    }
}

#[test]
fn round_trip_gives_the_least_input_where_rounding_absorbs_the_rest() {
    let there = paid(10, 10, 100, true);
    assert_eq!(paid(10, 10, 99, true).amount, there.amount);
    let back = owed(10, 10, there.amount, true);
    assert_eq!(back.amount, 90);
    assert_eq!(paid(10, 10, back.amount, true).amount, there.amount);
    assert!(paid(10, 10, back.amount - 1, true).amount < there.amount);

    let other = paid(10, 10, 100, false);
    let least = owed(10, 10, other.amount, false);
    assert_eq!(least.amount, 91);
    assert_eq!(paid(10, 10, least.amount, false).amount, other.amount);
    assert!(paid(10, 10, least.amount - 1, false).amount < other.amount);
}

#[test]
fn output_never_falls_when_the_input_grows() {
    for side in [true, false] {
        let mut last = 0u128;
        for amount in 1..400u128 {
            let q = paid(50, 70, amount, side);
            assert!(q.amount >= last);
            assert!(q.amount < 70);
            last = q.amount;
        }
    }
    assert_eq!(paid(10, 10, 90, true).amount, paid(10, 10, 100, true).amount);
}

#[test]
fn input_never_falls_when_the_output_grows() {
    for side in [true, false] {
        let mut last = 0u128;
        for amount in 1..60u128 {
            let q = owed(500, 70, amount, side);
            assert!(q.amount >= last);
            assert!(q.amount >= 1);
            last = q.amount;
        }
    }
    assert_eq!(owed(10, 1000, 1, true).amount, owed(10, 1000, 2, true).amount);
}

#[test]
fn input_quote_is_the_least_input_that_buys_the_output() {
    for side in [true, false] {
        for wanted in 1..40u128 {
            let q = owed(300, 60, wanted, side);
            assert!(paid(300, 60, q.amount, side).amount >= wanted);
            if q.amount > 1 {
                assert!(paid(300, 60, q.amount - 1, side).amount < wanted);
            }
        }
    }
}

#[test]
fn quoted_trades_keep_the_product_of_the_reserves() {
    for amount in 1..300u128 {
        let q = paid(1000, 800, amount, true);
        assert!((1000 + amount) * (800 - q.amount) >= 1000 * 800);
        let s = paid(1000, 800, amount, false);
        assert!((1000 + amount - s.fee) * (800 - s.amount) >= 1000 * 800);
    }
}
