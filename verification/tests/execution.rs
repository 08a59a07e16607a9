use std::collections::HashMap;

use pool_xyk::bounds::Bounds;
use pool_xyk::executor::{Execution, HostCall, HostReply, Phase, Transfer, TransferError};
use pool_xyk::request::{AccountId, AssetId, PoolState, Snapshot, SwapLeg, SwapRequest};

const POOL: AccountId = AccountId(100);
const FEES: AccountId = AccountId(101);
const ALICE: AccountId = AccountId(1);
const BOB: AccountId = AccountId(2);
const BASE: AssetId = AssetId(0);
const OTHER: AssetId = AssetId(7);

type Ledger = HashMap<(AccountId, AssetId), u128>;

fn ledger(reserve_source: u128, reserve_destination: u128, payer_balance: u128) -> Ledger {
    let mut l = Ledger::new();
    l.insert((POOL, BASE), reserve_source);
    l.insert((POOL, OTHER), reserve_destination);
    l.insert((ALICE, BASE), payer_balance);
    l
}

fn balance(l: &Ledger, account: AccountId, asset: AssetId) -> u128 {
    l.get(&(account, asset)).copied().unwrap_or(0)
}

fn snapshot(l: &Ledger) -> Snapshot {
    Snapshot {
        pool: Some(PoolState {
            reserve_source: balance(l, POOL, BASE),
            reserve_destination: balance(l, POOL, OTHER),
            fee_account: FEES,
        }),
        payer_balance: Some(balance(l, ALICE, BASE)),
    }
}

fn request(source: Bounds<u128>, destination: Bounds<u128>, fee_side: bool) -> SwapRequest {
    SwapRequest {
        source: SwapLeg { asset: BASE, amount: source },
        destination: SwapLeg { asset: OTHER, amount: destination },
        pool_account: POOL,
        client_account: None,
        receiver_account: None,
        fee_account: None,
        get_fee_from_destination: Some(fee_side),
        fee: None,
    }
}

fn movement(l: &mut Ledger, t: &Transfer) -> HostReply {
    let held = balance(l, t.from, t.asset);
    if held < t.amount {
        return HostReply::Failed;
    }
    l.insert((t.from, t.asset), held - t.amount);
    let got = balance(l, t.to, t.asset);
    l.insert((t.to, t.asset), got + t.amount);
    HostReply::Done
}

/// Runs a trade on the ledger as a host would: inside one unit of work that
/// is kept on `Publish` and undone on `RollBack`. Gives back the calls that
/// were made and the reserves that were published.
fn carry_out(
    l: &mut Ledger,
    mut execution: Execution,
    first: HostCall,
) -> (Execution, Vec<HostCall>, Option<(u128, u128)>) {
    let saved = l.clone();
    let mut calls = vec![first];
    let mut published = None;
    let mut call = Some(first);
    while let Some(c) = call {
        let reply = match c {
            HostCall::Transfer(t) => movement(l, &t),
            HostCall::ReadReserves { pool_account, source_asset, destination_asset } => {
                HostReply::Reserves {
                    source: balance(l, pool_account, source_asset),
                    destination: balance(l, pool_account, destination_asset),
                }
            }
            HostCall::Publish { reserve_source, reserve_destination, .. } => {
                published = Some((reserve_source, reserve_destination));
                break;
            }
            HostCall::RollBack => {
                *l = saved.clone();
                break;
            }
        };
        call = execution.advance(reply);
        if let Some(next) = call {
            calls.push(next);
        }
    }
    (execution, calls, published)
}

#[test]
fn trade_with_fee_from_destination_moves_and_publishes() {
    let mut l = ledger(1_000_000, 1_000_000, 5000);
    let mut r = request(Bounds::Desired(1000), Bounds::Min(0), true);
    assert_eq!(r.prepare_and_validate(Some(ALICE), &snapshot(&l)), Ok(()));
    let calculated = r.destination.amount.value().unwrap();
    assert_eq!(r.destination.amount, Bounds::Calculated(996));
    assert!(calculated < 1000);

    let (execution, first) = r.execute(ALICE).unwrap();
    assert_eq!(execution.phase(), Phase::Moving(0));
    assert_eq!(execution.outcome(), None);
    assert_eq!(
        execution.transfers(),
        &vec![
            Transfer { asset: BASE, from: ALICE, to: POOL, amount: 1000 },
            Transfer { asset: OTHER, from: POOL, to: FEES, amount: 3 },
            Transfer { asset: OTHER, from: POOL, to: ALICE, amount: 993 },
        ]
    );
    let (execution, calls, published) = carry_out(&mut l, execution, first);
    assert_eq!(calls.len(), 5);
    assert_eq!(calls[0], HostCall::Transfer(Transfer { asset: BASE, from: ALICE, to: POOL, amount: 1000 }));
    assert_eq!(
        calls[3],
        HostCall::ReadReserves { pool_account: POOL, source_asset: BASE, destination_asset: OTHER }
    );
    assert_eq!(
        calls[4],
        HostCall::Publish {
            source_asset: BASE,
            destination_asset: OTHER,
            reserve_source: 1_001_000,
            reserve_destination: 1_000_000 - calculated,
        }
    );
    assert_eq!(published, Some((1_001_000, 999_004)));
    assert_eq!(execution.outcome(), Some(Ok(())));
    assert_eq!(execution.phase(), Phase::Finished(Ok(())));
    assert_eq!(balance(&l, ALICE, BASE), 4000);
    assert_eq!(balance(&l, ALICE, OTHER), 993);
    assert_eq!(balance(&l, FEES, OTHER), 3);
    assert_eq!(balance(&l, POOL, BASE), 1_001_000);
    assert_eq!(balance(&l, POOL, OTHER), 999_004);
}

#[test]
fn trade_with_fee_from_source_moves_and_publishes() {
    let mut l = ledger(5_000, 20_000, 123);
    let mut r = request(Bounds::Desired(123), Bounds::Min(0), false);
    r.receiver_account = Some(BOB);
    assert_eq!(r.prepare_and_validate(Some(ALICE), &snapshot(&l)), Ok(()));
    let (execution, first) = r.execute(ALICE).unwrap();
    assert_eq!(
        execution.transfers(),
        &vec![
            Transfer { asset: BASE, from: ALICE, to: POOL, amount: 122 },
            Transfer { asset: BASE, from: ALICE, to: FEES, amount: 1 },
            Transfer { asset: OTHER, from: POOL, to: BOB, amount: 476 },
        ]
    );
    let (execution, _, published) = carry_out(&mut l, execution, first);
    assert_eq!(execution.outcome(), Some(Ok(())));
    assert_eq!(published, Some((5_122, 19_524)));
    assert_eq!(balance(&l, ALICE, BASE), 0);
    assert_eq!(balance(&l, FEES, BASE), 1);
    assert_eq!(balance(&l, BOB, OTHER), 476);
    assert!(5_122u128 * 19_524 >= 5_000 * 20_000);
}

#[test]
fn trade_for_an_exact_destination_amount() {
    let mut l = ledger(1_000_000, 1_000_000, 5000);
    let mut r = request(Bounds::Max(1200), Bounds::Desired(996), true);
    assert_eq!(r.prepare_and_validate(Some(ALICE), &snapshot(&l)), Ok(()));
    assert_eq!(r.source.amount, Bounds::Calculated(1000));
    let (execution, first) = r.execute(ALICE).unwrap();
    let (execution, _, published) = carry_out(&mut l, execution, first);
    assert_eq!(execution.outcome(), Some(Ok(())));
    assert_eq!(published, Some((1_001_000, 999_004)));
    assert!(1_001_000u128 * 999_004 >= 1_000_000 * 1_000_000);
}

#[test]
fn product_of_reserves_does_not_fall_over_many_trades() {
    for side in [true, false] {
        let mut l = ledger(40_000, 90_000, 1_000_000);
        for amount in [1u128, 7, 50, 333, 1000, 2500, 9, 12_000] {
            let before = balance(&l, POOL, BASE) * balance(&l, POOL, OTHER);
            let mut r = request(Bounds::Desired(amount), Bounds::Min(0), side);
            assert_eq!(r.prepare_and_validate(Some(ALICE), &snapshot(&l)), Ok(()));
            match r.execute(ALICE) {
                Ok((execution, first)) => {
                    let (execution, _, published) = carry_out(&mut l, execution, first);
                    assert_eq!(execution.outcome(), Some(Ok(())));
                    let (a, b) = published.unwrap();
                    assert_eq!((a, b), (balance(&l, POOL, BASE), balance(&l, POOL, OTHER)));
                    assert!(a * b >= before);
                }
                Err(e) => {
                    assert_eq!(e, TransferError::FeeExceedsAmount);
                    assert!(r.fee.unwrap() > r.destination.amount.value().unwrap());
                }
            }
        }
    }
}

#[test]
fn overpaid_fee_from_source_comes_out_of_what_the_pool_receives() {
    let mut l = ledger(1_000_000, 1_000_000, 5000);
    let mut r = request(Bounds::Desired(1000), Bounds::Min(0), false);
    r.fee = Some(1000);
    assert_eq!(r.prepare_and_validate(Some(ALICE), &snapshot(&l)), Ok(()));
    assert_eq!(r.fee, Some(1000));
    let (execution, first) = r.execute(ALICE).unwrap();
    let (execution, _, published) = carry_out(&mut l, execution, first);
    assert_eq!(execution.outcome(), Some(Ok(())));
    assert_eq!(published, Some((1_000_000, 999_004)));
    assert_eq!(balance(&l, FEES, BASE), 1000);
}

#[test]
fn fee_larger_than_its_amount_is_refused() {
    let l = ledger(1_000_000, 1_000_000, 5000);
    let mut from_source = request(Bounds::Desired(1000), Bounds::Min(0), false);
    from_source.fee = Some(1001);
    assert_eq!(from_source.prepare_and_validate(Some(ALICE), &snapshot(&l)), Ok(()));
    assert_eq!(from_source.execute(ALICE).err(), Some(TransferError::FeeExceedsAmount));

    let mut from_destination = request(Bounds::Desired(1000), Bounds::Min(0), true);
    from_destination.fee = Some(997);
    assert_eq!(from_destination.prepare_and_validate(Some(ALICE), &snapshot(&l)), Ok(()));
    assert_eq!(from_destination.execute(ALICE).err(), Some(TransferError::FeeExceedsAmount));

    let mut all = request(Bounds::Desired(1000), Bounds::Min(0), true);
    all.fee = Some(996);
    assert_eq!(all.prepare_and_validate(Some(ALICE), &snapshot(&l)), Ok(()));
    let (execution, _) = all.execute(ALICE).unwrap();
    assert_eq!(execution.transfers()[1].amount, 996);
    assert_eq!(execution.transfers()[2].amount, 0);
}

#[test]
fn payer_must_be_the_paying_account() {
    let l = ledger(1_000_000, 1_000_000, 5000);
    let mut r = request(Bounds::Desired(1000), Bounds::Min(0), true);
    assert_eq!(r.prepare_and_validate(Some(ALICE), &snapshot(&l)), Ok(()));
    assert_eq!(r.execute(BOB).err(), Some(TransferError::AccountMismatch));
    assert!(r.execute(ALICE).is_ok());

    let mut quoted = request(Bounds::Desired(1000), Bounds::Min(0), true);
    quoted.receiver_account = Some(BOB);
    assert_eq!(quoted.prepare_and_validate(None, &snapshot(&l)), Ok(()));
    assert!(quoted.is_resolved());
    assert_eq!(quoted.execute(ALICE).err(), Some(TransferError::AccountMismatch));
}

#[test]
fn failed_movement_rolls_everything_back() {
    let mut l = ledger(1_000_000, 1_000_000, 5000);
    let mut r = request(Bounds::Desired(1000), Bounds::Min(0), true);
    assert_eq!(r.prepare_and_validate(Some(ALICE), &snapshot(&l)), Ok(()));
    // The pool is drained between validation and execution.
    l.insert((POOL, OTHER), 500);
    let before = l.clone();
    let (execution, first) = r.execute(ALICE).unwrap();
    let (mut execution, calls, published) = carry_out(&mut l, execution, first);
    assert_eq!(calls.len(), 4);
    assert_eq!(calls[3], HostCall::RollBack);
    assert_eq!(published, None);
    assert_eq!(execution.outcome(), Some(Err(TransferError::TransferFailed)));
    assert_eq!(l, before);
    assert_eq!(execution.advance(HostReply::Done), None);
    assert_eq!(execution.outcome(), Some(Err(TransferError::TransferFailed)));
}

#[test]
fn first_movement_failing_rolls_back_at_once() {
    let l = ledger(1_000_000, 1_000_000, 5000);
    let mut r = request(Bounds::Desired(1000), Bounds::Min(0), true);
    assert_eq!(r.prepare_and_validate(Some(ALICE), &snapshot(&l)), Ok(()));
    let (mut execution, _) = r.execute(ALICE).unwrap();
    assert_eq!(execution.advance(HostReply::Failed), Some(HostCall::RollBack));
    assert_eq!(execution.phase(), Phase::Finished(Err(TransferError::TransferFailed)));
    assert_eq!(execution.advance(HostReply::Reserves { source: 1, destination: 2 }), None);
    assert_eq!(execution.phase(), Phase::Finished(Err(TransferError::TransferFailed)));
}

#[test]
fn unexpected_report_during_movements_rolls_back() {
    let l = ledger(1_000_000, 1_000_000, 5000);
    let mut r = request(Bounds::Desired(1000), Bounds::Min(0), true);
    assert_eq!(r.prepare_and_validate(Some(ALICE), &snapshot(&l)), Ok(()));
    let (mut execution, _) = r.execute(ALICE).unwrap();
    assert!(matches!(execution.advance(HostReply::Done), Some(HostCall::Transfer(_))));
    assert_eq!(execution.phase(), Phase::Moving(1));
    assert_eq!(
        execution.advance(HostReply::Reserves { source: 1, destination: 2 }),
        Some(HostCall::RollBack)
    );
    assert_eq!(execution.outcome(), Some(Err(TransferError::TransferFailed)));
}

#[test]
fn unreadable_reserves_roll_everything_back() {
    let l = ledger(1_000_000, 1_000_000, 5000);
    let mut r = request(Bounds::Desired(1000), Bounds::Min(0), true);
    assert_eq!(r.prepare_and_validate(Some(ALICE), &snapshot(&l)), Ok(()));
    for bad in [HostReply::Failed, HostReply::Done] {
        let (mut execution, _) = r.execute(ALICE).unwrap();
        assert!(matches!(execution.advance(HostReply::Done), Some(HostCall::Transfer(_))));
        assert!(matches!(execution.advance(HostReply::Done), Some(HostCall::Transfer(_))));
        assert!(matches!(execution.advance(HostReply::Done), Some(HostCall::ReadReserves { .. })));
        assert_eq!(execution.phase(), Phase::Reading);
        assert_eq!(execution.outcome(), None);
        assert_eq!(execution.advance(bad), Some(HostCall::RollBack));
        assert_eq!(execution.outcome(), Some(Err(TransferError::ReservesUnavailable)));
    }
}

#[test]
fn published_reserves_are_the_balances_that_were_read() {
    let l = ledger(1_000_000, 1_000_000, 5000);
    let mut r = request(Bounds::Desired(1000), Bounds::Min(0), true);
    assert_eq!(r.prepare_and_validate(Some(ALICE), &snapshot(&l)), Ok(()));
    let (mut execution, _) = r.execute(ALICE).unwrap();
    execution.advance(HostReply::Done);
    execution.advance(HostReply::Done);
    execution.advance(HostReply::Done);
    assert_eq!(
        execution.advance(HostReply::Reserves { source: 11, destination: 22 }),
        Some(HostCall::Publish {
            source_asset: BASE,
            destination_asset: OTHER,
            reserve_source: 11,
            reserve_destination: 22,
        })
    );
    assert_eq!(execution.outcome(), Some(Ok(())));
    assert_eq!(execution.advance(HostReply::Failed), None);
    assert_eq!(execution.outcome(), Some(Ok(())));
}
