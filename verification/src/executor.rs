//! Carrying out a validated trade.
//!
//! The engine does not move balances itself. It lays down the movements of a
//! trade in order and asks the host for one at a time; the host reports how
//! each one went. When every movement has gone through, the engine asks for
//! the pool's balances and then for their publication as the pool's new
//! reserves. When anything fails, it asks for all movements to be undone, and
//! nothing is published.

use vstd::prelude::*;
use crate::pricing::{
    curve_input,
    curve_output,
    gross_for_net,
    lemma_curve_adjoint,
    lemma_curve_input_range,
    lemma_fee_range,
    lemma_product_kept_iff,
    net_of_fee,
    Amount,
};
use crate::request::{AccountId, AssetId, Snapshot, SwapRequest};
use crate::validation::lemma_validated_is_resolved;

verus! {

/// One movement of an asset from one account to another.
#[derive(Clone, Copy, Debug, PartialEq, Eq)]
pub struct Transfer {
    pub asset: AssetId,
    pub from: AccountId,
    pub to: AccountId,
    pub amount: Amount,
}

/// Why a trade was not carried out.
#[derive(Clone, Copy, Debug, PartialEq, Eq, Structural)]
pub enum TransferError {
    /// The payer is not the paying account of the request.
    AccountMismatch,
    /// The fee is larger than the amount it is taken from.
    FeeExceedsAmount,
    /// The host could not make one of the movements.
    TransferFailed,
    /// The host could not read the pool's balances after the movements.
    ReservesUnavailable,
}

/// What the engine asks of the host.
#[derive(Clone, Copy, Debug, PartialEq, Eq)]
pub enum HostCall {
    /// Make this movement and report how it went.
    Transfer(Transfer),
    /// Read the pool's balances of the two assets and report them.
    ReadReserves { pool_account: AccountId, source_asset: AssetId, destination_asset: AssetId },
    /// Publish these balances as the pool's reserves and keep the movements.
    /// This ends the trade.
    Publish {
        source_asset: AssetId,
        destination_asset: AssetId,
        reserve_source: Amount,
        reserve_destination: Amount,
    },
    /// Undo every movement made for this trade. This ends the trade.
    RollBack,
}

/// What the host reports back.
#[derive(Clone, Copy, Debug, PartialEq, Eq)]
pub enum HostReply {
    /// The movement was made.
    Done,
    /// The movement or the reading failed.
    Failed,
    /// The pool's balances of the source and of the destination asset.
    Reserves { source: Amount, destination: Amount },
}

/// How far a trade has come.
#[derive(Clone, Copy, Debug, PartialEq, Eq)]
pub enum Phase {
    /// The movements before this one were made; this one is asked for.
    Moving(usize),
    /// Every movement was made; the pool's balances are asked for.
    Reading,
    /// The trade has ended, with this result.
    Finished(Result<(), TransferError>),
}

impl SwapRequest {
    /// Whether everything that the movements need is filled in: both
    /// amounts, the fee and its direction, the fee account and the receiver.
    pub open spec fn spec_is_resolved(&self) -> bool {
        &&& self.source_amount() is Some
        &&& self.destination_amount() is Some
        &&& self.fee is Some
        &&& self.fee_account is Some
        &&& self.receiver_account is Some
        &&& self.get_fee_from_destination is Some
    }

    /// Whether everything that the movements need is filled in: both
    /// amounts, the fee and its direction, the fee account and the receiver.
    #[verifier::when_used_as_spec(spec_is_resolved)]
    pub fn is_resolved(&self) -> (r: bool)
        ensures
            r == self.spec_is_resolved(),
    {
        self.source.amount.value().is_some() && self.destination.amount.value().is_some()
            && self.fee.is_some() && self.fee_account.is_some() && self.receiver_account.is_some()
            && self.get_fee_from_destination.is_some()
    }

    /// Whether the fee fits in the amount that it is taken from.
    pub open spec fn fee_payable(&self) -> bool {
        if self.get_fee_from_destination->0 {
            self.fee->0 <= self.destination_amount()->0
        } else {
            self.fee->0 <= self.source_amount()->0
        }
    }

    /// The movements of the trade, in the order in which they are made.
    ///
    /// With the fee on the destination side the payer hands the source amount
    /// to the pool, and the pool pays the fee to the fee account and the rest
    /// of the destination amount to the receiver. With the fee on the source
    /// side the payer hands the source amount less the fee to the pool and
    /// the fee to the fee account, and the pool pays the destination amount
    /// to the receiver.
    pub open spec fn transfers(&self, payer: AccountId) -> Seq<Transfer> {
        let sa = self.source_amount()->0;
        let da = self.destination_amount()->0;
        let fee = self.fee->0;
        if self.get_fee_from_destination->0 {
            seq![
                Transfer {
                    asset: self.source.asset,
                    from: payer,
                    to: self.pool_account,
                    amount: sa,
                },
                Transfer {
                    asset: self.destination.asset,
                    from: self.pool_account,
                    to: self.fee_account->0,
                    amount: fee,
                },
                Transfer {
                    asset: self.destination.asset,
                    from: self.pool_account,
                    to: self.receiver_account->0,
                    amount: (da - fee) as Amount,
                },
            ]
        } else {
            seq![
                Transfer {
                    asset: self.source.asset,
                    from: payer,
                    to: self.pool_account,
                    amount: (sa - fee) as Amount,
                },
                Transfer {
                    asset: self.source.asset,
                    from: payer,
                    to: self.fee_account->0,
                    amount: fee,
                },
                Transfer {
                    asset: self.destination.asset,
                    from: self.pool_account,
                    to: self.receiver_account->0,
                    amount: da,
                },
            ]
        }
    }

    /// Why the trade cannot be started for this payer, if it cannot.
    pub open spec fn start_error(&self, payer: AccountId) -> Option<TransferError> {
        if self.client_account != Some(payer) {
            Some(TransferError::AccountMismatch)
        } else if !self.fee_payable() {
            Some(TransferError::FeeExceedsAmount)
        } else {
            None
        }
    }
}

/// A trade that is being carried out, as the laws of this module see it.
pub struct Trade {
    /// The movements of the trade, in order.
    pub plan: Seq<Transfer>,
    /// The account that holds the pool's reserves.
    pub pool_account: AccountId,
    /// The asset that the pool receives.
    pub source_asset: AssetId,
    /// The asset that the pool pays.
    pub destination_asset: AssetId,
    /// How far the trade has come.
    pub phase: Phase,
}

impl Trade {
    /// A movement that is asked for is one of the trade's movements.
    pub open spec fn wf(&self) -> bool {
        &&& self.plan.len() <= usize::MAX
        &&& match self.phase {
            Phase::Moving(i) => i < self.plan.len(),
            _ => true,
        }
    }

    /// The phase that follows on `reply`, and what the host is asked to do
    /// next.
    ///
    /// While movements are asked for, a movement that was made leads to the
    /// next one, or after the last one to the reading of the pool's balances;
    /// anything else ends the trade with a roll-back. While the balances are
    /// asked for, balances that are reported are published and end the trade
    /// with success; anything else ends it with a roll-back. Once the trade
    /// has ended nothing changes any more.
    pub open spec fn step(&self, reply: HostReply) -> (Phase, Option<HostCall>) {
        match self.phase {
            Phase::Moving(i) => if reply is Done {
                if i + 1 < self.plan.len() {
                    (Phase::Moving((i + 1) as usize), Some(HostCall::Transfer(self.plan[i + 1])))
                } else {
                    (
                        Phase::Reading,
                        Some(
                            HostCall::ReadReserves {
                                pool_account: self.pool_account,
                                source_asset: self.source_asset,
                                destination_asset: self.destination_asset,
                            },
                        ),
                    )
                }
            } else {
                (Phase::Finished(Err(TransferError::TransferFailed)), Some(HostCall::RollBack))
            },
            Phase::Reading => match reply {
                HostReply::Reserves { source, destination } => (
                    Phase::Finished(Ok(())),
                    Some(
                        HostCall::Publish {
                            source_asset: self.source_asset,
                            destination_asset: self.destination_asset,
                            reserve_source: source,
                            reserve_destination: destination,
                        },
                    ),
                ),
                _ => (
                    Phase::Finished(Err(TransferError::ReservesUnavailable)),
                    Some(HostCall::RollBack),
                ),
            },
            Phase::Finished(r) => (Phase::Finished(r), None),
        }
    }

    /// The same trade in another phase.
    pub open spec fn at(&self, phase: Phase) -> Trade {
        Trade { phase, ..*self }
    }

    /// The trade after the host has given `reply`.
    pub open spec fn after(&self, reply: HostReply) -> Trade {
        self.at(self.step(reply).0)
    }

    /// The phase that the trade is in after the host has given `replies`,
    /// one after the other.
    pub open spec fn run(&self, replies: Seq<HostReply>) -> Phase
        decreases replies.len(),
    {
        if replies.len() == 0 {
            self.phase
        } else {
            self.after(replies[0]).run(replies.drop_first())
        }
    }
}

/// A trade that is being carried out.
#[derive(Debug)]
pub struct Execution {
    transfers: Vec<Transfer>,
    pool_account: AccountId,
    source_asset: AssetId,
    destination_asset: AssetId,
    phase: Phase,
}

impl View for Execution {
    type V = Trade;

    closed spec fn view(&self) -> Trade {
        Trade {
            plan: self.transfers@,
            pool_account: self.pool_account,
            source_asset: self.source_asset,
            destination_asset: self.destination_asset,
            phase: self.phase,
        }
    }
}

impl Execution {
    /// A trade that is being carried out is always well-formed.
    #[verifier::type_invariant]
    spec fn well_formed(&self) -> bool {
        self@.wf()
    }

    /// How far the trade has come.
    pub fn phase(&self) -> (r: Phase)
        ensures
            r == self@.phase,
            self@.wf(),
    {
        proof {
            use_type_invariant(self);
        }
        self.phase
    }

    /// The movements of the trade, in order.
    pub fn transfers(&self) -> (r: &Vec<Transfer>)
        ensures
            r@ == self@.plan,
    {
        &self.transfers
    }

    /// The result of the trade, once it has ended.
    pub fn outcome(&self) -> (r: Option<Result<(), TransferError>>)
        ensures
            r == match self@.phase {
                Phase::Finished(result) => Some(result),
                _ => None::<Result<(), TransferError>>,
            },
    {
        match self.phase {
            Phase::Finished(result) => Some(result),
            _ => None,
        }
    }

    /// Takes the host's report on what was last asked of it, and says what
    /// the host is to do next; `None` once the trade has ended.
    pub fn advance(&mut self, reply: HostReply) -> (r: Option<HostCall>)
        ensures
            old(self)@.wf(),
            final(self)@.wf(),
            final(self)@ == old(self)@.after(reply),
            r == old(self)@.step(reply).1,
    {
        proof {
            use_type_invariant(&*self);
        }
        match self.phase {
            Phase::Moving(i) => {
                match reply {
                    HostReply::Done => {
                        let count = self.transfers.len();
                        if i + 1 < count {
                            self.phase = Phase::Moving(i + 1);
                            Some(HostCall::Transfer(self.transfers[i + 1]))
                        } else {
                            self.phase = Phase::Reading;
                            Some(
                                HostCall::ReadReserves {
                                    pool_account: self.pool_account,
                                    source_asset: self.source_asset,
                                    destination_asset: self.destination_asset,
                                },
                            )
                        }
                    },
                    _ => {
                        self.phase = Phase::Finished(Err(TransferError::TransferFailed));
                        Some(HostCall::RollBack)
                    },
                }
            },
            Phase::Reading => {
                match reply {
                    HostReply::Reserves { source, destination } => {
                        self.phase = Phase::Finished(Ok(()));
                        Some(
                            HostCall::Publish {
                                source_asset: self.source_asset,
                                destination_asset: self.destination_asset,
                                reserve_source: source,
                                reserve_destination: destination,
                            },
                        )
                    },
                    _ => {
                        self.phase = Phase::Finished(Err(TransferError::ReservesUnavailable));
                        Some(HostCall::RollBack)
                    },
                }
            },
            Phase::Finished(_) => None,
        }
    }
}

impl SwapRequest {
    /// Starts carrying out a validated trade for `payer`: lays down the
    /// movements and asks for the first.
    ///
    /// The payer must be the paying account of the request, and the fee must
    /// fit in the amount that it is taken from.
    pub fn execute(&self, payer: AccountId) -> (r: Result<(Execution, HostCall), TransferError>)
        requires
            self.is_resolved(),
        ensures
            match r {
                Ok((execution, call)) => {
                    &&& self.start_error(payer) is None
                    &&& execution@ == (Trade {
                        plan: self.transfers(payer),
                        pool_account: self.pool_account,
                        source_asset: self.source.asset,
                        destination_asset: self.destination.asset,
                        phase: Phase::Moving(0),
                    })
                    &&& execution@.wf()
                    &&& call == HostCall::Transfer(self.transfers(payer)[0])
                },
                Err(e) => self.start_error(payer) == Some(e),
            },
    {
        match self.client_account {
            Some(client) => {
                if client != payer {
                    return Err(TransferError::AccountMismatch);
                }
            },
            None => {
                return Err(TransferError::AccountMismatch);
            },
        }
        let sa = self.source.amount.value().unwrap();
        let da = self.destination.amount.value().unwrap();
        let fee = self.fee.unwrap();
        let fee_account = self.fee_account.unwrap();
        let receiver = self.receiver_account.unwrap();
        let fee_side = self.get_fee_from_destination.unwrap();
        let mut transfers: Vec<Transfer> = Vec::new();
        if fee_side {
            if fee > da {
                return Err(TransferError::FeeExceedsAmount);
            }
            transfers.push(
                Transfer { asset: self.source.asset, from: payer, to: self.pool_account, amount: sa },
            );
            transfers.push(
                Transfer {
                    asset: self.destination.asset,
                    from: self.pool_account,
                    to: fee_account,
                    amount: fee,
                },
            );
            transfers.push(
                Transfer {
                    asset: self.destination.asset,
                    from: self.pool_account,
                    to: receiver,
                    amount: da - fee,
                },
            );
        } else {
            if fee > sa {
                return Err(TransferError::FeeExceedsAmount);
            }
            transfers.push(
                Transfer {
                    asset: self.source.asset,
                    from: payer,
                    to: self.pool_account,
                    amount: sa - fee,
                },
            );
            transfers.push(
                Transfer { asset: self.source.asset, from: payer, to: fee_account, amount: fee },
            );
            transfers.push(
                Transfer {
                    asset: self.destination.asset,
                    from: self.pool_account,
                    to: receiver,
                    amount: da,
                },
            );
        }
        proof {
            assert(transfers@ =~= self.transfers(payer));
        }
        let first = transfers[0];
        Ok(
            (
                Execution {
                    transfers,
                    pool_account: self.pool_account,
                    source_asset: self.source.asset,
                    destination_asset: self.destination.asset,
                    phase: Phase::Moving(0),
                },
                HostCall::Transfer(first),
            ),
        )
    }
}

/// Whether the host reports `movements` movements as made and then the
/// pool's balances.
pub open spec fn all_succeed(replies: Seq<HostReply>, movements: nat) -> bool {
    &&& replies.len() > movements
    &&& forall|k: int| 0 <= k < movements ==> (#[trigger] replies[k]) is Done
    &&& replies[movements as int] is Reserves
}

/// A trade that has ended stays as it is.
proof fn lemma_finished_stays(t: Trade, replies: Seq<HostReply>)
    requires
        t.phase is Finished,
    ensures
        t.run(replies) == t.phase,
    decreases replies.len(),
{
    if replies.len() > 0 {
        lemma_finished_stays(t.after(replies[0]), replies.drop_first());
    }
}

/// While the balances are asked for, only their report ends the trade with
/// success.
proof fn lemma_run_from_reading(t: Trade, replies: Seq<HostReply>)
    requires
        t.phase == Phase::Reading,
    ensures
        t.run(replies) == Phase::Finished(Ok(())) <==> all_succeed(replies, 0),
{
    if replies.len() > 0 {
        lemma_finished_stays(t.after(replies[0]), replies.drop_first());
    }
}

/// While movements are asked for, the trade ends with success exactly when
/// the movements that are left are all made and the balances are reported.
proof fn lemma_run_from_moving(t: Trade, replies: Seq<HostReply>)
    requires
        t.wf(),
        t.phase is Moving,
    ensures
        t.run(replies) == Phase::Finished(Ok(())) <==> all_succeed(
            replies,
            (t.plan.len() - t.phase->Moving_0) as nat,
        ),
    decreases replies.len(),
{
    let i = t.phase->Moving_0;
    let left = (t.plan.len() - i) as nat;
    if replies.len() > 0 {
        let next = t.after(replies[0]);
        let rest = replies.drop_first();
        if replies[0] is Done {
            if i + 1 < t.plan.len() {
                lemma_run_from_moving(next, rest);
            } else {
                lemma_run_from_reading(next, rest);
            }
            let fewer = (left - 1) as nat;
            if all_succeed(replies, left) {
                assert forall|k: int| 0 <= k < fewer implies (#[trigger] rest[k]) is Done by {
                    assert(replies[k + 1] is Done);
                }
                assert(rest[fewer as int] == replies[left as int]);
            }
            if all_succeed(rest, fewer) {
                assert forall|k: int| 0 <= k < left implies (#[trigger] replies[k]) is Done by {
                    if k > 0 {
                        assert(rest[k - 1] is Done);
                    }
                }
                assert(rest[fewer as int] == replies[left as int]);
            }
        } else {
            lemma_finished_stays(next, rest);
        }
    }
}

/// A trade ends with success exactly when the host reports every movement as
/// made and then reports the pool's balances. Until then nothing is
/// published, and the first report of another kind ends the trade with a
/// roll-back.
pub proof fn lemma_all_or_nothing(t: Trade, replies: Seq<HostReply>)
    requires
        t.wf(),
        t.phase == Phase::Moving(0),
    ensures
        t.run(replies) == Phase::Finished(Ok(())) <==> all_succeed(replies, t.plan.len()),
{
    lemma_run_from_moving(t, replies);
}

/// The host is asked to publish exactly when a trade ends with success, and
/// then what it is asked to publish are the balances that it has just
/// reported; it is asked to roll back exactly when a trade ends with an
/// error.
pub proof fn lemma_last_call(t: Trade, reply: HostReply)
    requires
        t.wf(),
        !(t.phase is Finished),
    ensures
        ({
            let (phase, call) = t.step(reply);
            &&& call is Some
            &&& phase == Phase::Finished(Ok(())) <==> call->0 is Publish
            &&& phase is Finished && phase != Phase::Finished(Ok(())) <==> call->0 == HostCall::RollBack
            &&& call->0 is Publish ==> t.phase == Phase::Reading && reply == (HostReply::Reserves {
                source: call->0->reserve_source,
                destination: call->0->reserve_destination,
            })
        }),
{
}

/// The balance that `account` holds of `asset` in `ledger`; nothing where
/// the ledger has no entry.
pub open spec fn balance_of(
    ledger: Map<(AccountId, AssetId), nat>,
    account: AccountId,
    asset: AssetId,
) -> nat {
    if ledger.dom().contains((account, asset)) {
        ledger[(account, asset)]
    } else {
        0
    }
}

/// The ledger after one movement; `None` where the giving account holds less
/// than the amount.
pub open spec fn moved(ledger: Map<(AccountId, AssetId), nat>, t: Transfer) -> Option<
    Map<(AccountId, AssetId), nat>,
> {
    if balance_of(ledger, t.from, t.asset) < t.amount {
        None
    } else {
        let taken = ledger.insert(
            (t.from, t.asset),
            (balance_of(ledger, t.from, t.asset) - t.amount) as nat,
        );
        Some(taken.insert((t.to, t.asset), (balance_of(taken, t.to, t.asset) + t.amount) as nat))
    }
}

/// The ledger after the movements of `plan`, made in order; `None` where one
/// of them cannot be made.
pub open spec fn moved_all(ledger: Map<(AccountId, AssetId), nat>, plan: Seq<Transfer>) -> Option<
    Map<(AccountId, AssetId), nat>,
>
    decreases plan.len(),
{
    if plan.len() == 0 {
        Some(ledger)
    } else {
        match moved(ledger, plan[0]) {
            None => None,
            Some(next) => moved_all(next, plan.drop_first()),
        }
    }
}

impl SwapRequest {
    /// What the pool receives of the source asset: the source amount, less
    /// the fee where the fee is taken from the source side.
    pub open spec fn pool_gain(&self) -> int {
        if self.get_fee_from_destination->0 {
            self.source_amount()->0 as int
        } else {
            self.source_amount()->0 - self.fee->0
        }
    }

    /// Whether the pool account is none of the other accounts of the trade,
    /// and the two assets differ.
    pub open spec fn pool_is_apart(&self, payer: AccountId) -> bool {
        &&& self.source.asset != self.destination.asset
        &&& self.pool_account != payer
        &&& self.pool_account != self.fee_account->0
        &&& self.pool_account != self.receiver_account->0
    }
}

/// Unfolds the movements of a trade, which are three.
proof fn lemma_three_movements(ledger: Map<(AccountId, AssetId), nat>, plan: Seq<Transfer>)
    requires
        plan.len() == 3,
    ensures
        moved_all(ledger, plan) == match moved(ledger, plan[0]) {
            None => None,
            Some(first) => match moved(first, plan[1]) {
                None => None,
                Some(second) => moved(second, plan[2]),
            },
        },
{
    let two = plan.drop_first();
    let one = two.drop_first();
    assert(two[0] == plan[1]);
    assert(one[0] == plan[2]);
    assert(one.drop_first().len() == 0);
    reveal_with_fuel(moved_all, 4);
}

/// Where the movements of a trade can all be made, they add the pool's gain to
/// the pool's balance of the source asset and take the destination amount from
/// its balance of the destination asset, whichever side the fee is on.
pub proof fn lemma_pool_after_trade(
    request: SwapRequest,
    payer: AccountId,
    ledger: Map<(AccountId, AssetId), nat>,
)
    requires
        request.is_resolved(),
        request.fee_payable(),
        request.pool_is_apart(payer),
        moved_all(ledger, request.transfers(payer)) is Some,
    ensures
        ({
            let after = moved_all(ledger, request.transfers(payer))->0;
            &&& balance_of(after, request.pool_account, request.source.asset) == balance_of(
                ledger,
                request.pool_account,
                request.source.asset,
            ) + request.pool_gain()
            &&& balance_of(after, request.pool_account, request.destination.asset) == balance_of(
                ledger,
                request.pool_account,
                request.destination.asset,
            ) - request.destination_amount()->0
        }),
{
    lemma_three_movements(ledger, request.transfers(payer));
}

/// A trade that passed validation to be carried out can be carried out on the
/// balances that validation saw: the payer's balance covers what the payer
/// gives, fee included, and the pool's reserve covers what the pool pays.
pub proof fn lemma_validated_trade_is_covered(
    request: SwapRequest,
    payer: AccountId,
    snapshot: Snapshot,
    ledger: Map<(AccountId, AssetId), nat>,
)
    requires
        request.is_concrete(Some(payer)),
        request.validated(Some(payer), snapshot).1 is Ok,
        request.validated(Some(payer), snapshot).0.fee_payable(),
        request.validated(Some(payer), snapshot).0.pool_is_apart(payer),
        balance_of(ledger, request.pool_account, request.source.asset)
            == snapshot.pool->0.reserve_source,
        balance_of(ledger, request.pool_account, request.destination.asset)
            == snapshot.pool->0.reserve_destination,
        balance_of(ledger, payer, request.source.asset) == snapshot.payer_balance->0,
    ensures
        moved_all(ledger, request.validated(Some(payer), snapshot).0.transfers(payer)) is Some,
{
    let resolved = request.validated(Some(payer), snapshot).0;
    lemma_validated_is_resolved(request, Some(payer), snapshot);
    lemma_three_movements(ledger, resolved.transfers(payer));
}

/// Carrying out a validated trade does not let the product of the pool's
/// reserves fall, where the fee is taken from the destination side or is the
/// recommended fee. A fee on the source side comes out of what the pool
/// receives: offered above the recommended fee, it keeps the product exactly
/// when what is left for the pool still is the input that the curve asks for
/// the destination amount.
pub proof fn lemma_product_kept(
    request: SwapRequest,
    caller: Option<AccountId>,
    snapshot: Snapshot,
    payer: AccountId,
    ledger: Map<(AccountId, AssetId), nat>,
)
    requires
        request.validated(caller, snapshot).1 is Ok,
        request.validated(caller, snapshot).0.is_resolved(),
        request.validated(caller, snapshot).0.fee_payable(),
        request.validated(caller, snapshot).0.pool_is_apart(payer),
        balance_of(ledger, request.pool_account, request.source.asset)
            == snapshot.pool->0.reserve_source,
        balance_of(ledger, request.pool_account, request.destination.asset)
            == snapshot.pool->0.reserve_destination,
        moved_all(ledger, request.validated(caller, snapshot).0.transfers(payer)) is Some,
    ensures
        ({
            let resolved = request.validated(caller, snapshot).0;
            let pool = snapshot.pool->0;
            let after = moved_all(ledger, resolved.transfers(payer))->0;
            let after_source = balance_of(after, request.pool_account, request.source.asset);
            let after_destination = balance_of(
                after,
                request.pool_account,
                request.destination.asset,
            );
            let kept = after_source * after_destination >= pool.reserve_source
                * pool.reserve_destination;
            &&& after_source == pool.reserve_source + resolved.pool_gain()
            &&& after_destination == pool.reserve_destination - resolved.destination_amount()->0
            &&& kept <==> resolved.pool_gain() >= curve_input(
                pool.reserve_source as int,
                pool.reserve_destination as int,
                resolved.destination_amount()->0 as int,
            )
            &&& resolved.get_fee_from_destination->0 ==> kept
            &&& resolved.fee->0 == resolved.recommended_fee(pool) ==> kept
        }),
{
    let resolved = request.validated(caller, snapshot).0;
    let pool = snapshot.pool->0;
    let rs = pool.reserve_source as int;
    let rd = pool.reserve_destination as int;
    let sa = resolved.source_amount()->0 as int;
    let da = resolved.destination_amount()->0 as int;
    lemma_validated_is_resolved(request, caller, snapshot);
    lemma_pool_after_trade(resolved, payer, ledger);
    lemma_product_kept_iff(rs, rd, resolved.pool_gain(), da);
    lemma_fee_range(sa);
    lemma_fee_range(da);
    if resolved.source.amount is Desired {
        if resolved.get_fee_from_destination->0 {
            lemma_fee_range(curve_output(rs, rd, sa));
            lemma_curve_adjoint(rs, rd, sa, da);
        } else {
            lemma_curve_adjoint(rs, rd, net_of_fee(sa), da);
        }
    } else {
        if resolved.get_fee_from_destination->0 {
            lemma_curve_input_range(rs, rd, gross_for_net(da));
            lemma_curve_adjoint(rs, rd, sa, gross_for_net(da));
            lemma_curve_adjoint(rs, rd, sa, da);
        } else {
            lemma_curve_input_range(rs, rd, da);
        }
    }
}

} // verus!
