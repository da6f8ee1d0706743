use vstd::prelude::*;
use crate::identity::{blake2_256_of, htlc_id_of};
use crate::ledger::{account_of, lemma_release_held, release_spec, transfer_spec, AccountData};
use crate::pallet::{
    claim_effect, dst_holds, escrows_commitment, intents_commitment,
    lemma_escrows_bound, lemma_intents_nonneg, refund_effect, stamped, Pallet,
};
use crate::types::{AccountId, Balance, BlockNumber, Error, HoldReason, Htlc, HtlcStatus, HtlcType, Immutables, Timelocks};

verus! {

/// A destination escrow is created exactly when the taker calls with a large enough
/// safety deposit, ordered timelocks that end no later than the source side's
/// cancellation, funds to hold, and no escrow of the same content yet; creating it again
/// with the same content then fails with `HtlcAlreadyExists`.
pub proof fn lemma_create_dst_once(
    p: Pallet,
    q: Pallet,
    who: AccountId,
    imm: Immutables,
    src_cancellation: BlockNumber,
)
    ensures
        p.create_dst_outcome(who, imm, src_cancellation) is Ok <==> {
            let s = stamped(imm, p.now());
            &&& who == imm.taker
            &&& imm.safety_deposit >= p.settings().min_safety_deposit
            &&& s.timelocks.cancellation_after <= src_cancellation
            &&& s.timelocks.well_ordered()
            &&& !p.escrows().contains_key(htlc_id_of(s))
            &&& dst_holds(p.ledger(), s) is Some
        },
        p.create_dst_outcome(who, imm, src_cancellation) is Ok && p.dst_created(q, imm)
            ==> q.create_dst_outcome(who, imm, src_cancellation) == Err::<(), Error>(
            Error::HtlcAlreadyExists,
        ),
{
}

/// An intent backs at most one source escrow: once a resolver has taken it up, every
/// further `create_src_htlc` on it fails with `IntentNotActive`, whoever calls and with
/// whatever timelocks.
pub proof fn lemma_create_src_once(
    p: Pallet,
    q: Pallet,
    who: AccountId,
    maker: AccountId,
    nonce: u64,
    timelocks: Timelocks,
    safety_deposit: Balance,
    who2: AccountId,
    timelocks2: Timelocks,
    safety_deposit2: Balance,
)
    requires
        p.create_src_outcome(who, maker, nonce, timelocks, safety_deposit) is Ok,
        p.src_created(q, who, maker, nonce, timelocks, safety_deposit),
        safety_deposit2 >= q.settings().min_safety_deposit,
    ensures
        q.create_src_outcome(who2, maker, nonce, timelocks2, safety_deposit2) == Err::<(), Error>(
            Error::IntentNotActive,
        ),
{
}

/// On an active escrow whose payout the ledger can make, `withdraw` succeeds exactly when
/// the secret hashes to the hashlock, the height lies in
/// `[withdrawal_after, cancellation_after)` and the caller is the taker; each failed
/// condition gives its own error.
pub proof fn lemma_withdraw_conditions(p: Pallet, who: AccountId, imm: Immutables, secret: Seq<u8>)
    requires
        p.escrows().contains_key(htlc_id_of(imm)),
        p.escrows()[htlc_id_of(imm)].status == HtlcStatus::Active,
        p.escrows()[htlc_id_of(imm)].immutables == imm,
        claim_effect(p.ledger(), p.escrows()[htlc_id_of(imm)], None) is Some,
    ensures
        p.claim_outcome(who, imm, secret, false) is Ok <==> {
            &&& blake2_256_of(secret) == imm.hashlock.0@
            &&& imm.timelocks.withdrawal_after <= p.now() < imm.timelocks.cancellation_after
            &&& who == imm.taker
        },
        blake2_256_of(secret) != imm.hashlock.0@ ==> p.claim_outcome(who, imm, secret, false)
            == Err::<(), Error>(Error::InvalidSecret),
        blake2_256_of(secret) == imm.hashlock.0@ && who != imm.taker ==> p.claim_outcome(
            who,
            imm,
            secret,
            false,
        ) == Err::<(), Error>(Error::InvalidCaller),
        blake2_256_of(secret) == imm.hashlock.0@ && who == imm.taker && p.now()
            < imm.timelocks.withdrawal_after ==> p.claim_outcome(who, imm, secret, false)
            == Err::<(), Error>(Error::EarlyWithdrawal),
        blake2_256_of(secret) == imm.hashlock.0@ && who == imm.taker && imm.timelocks.withdrawal_after
            <= p.now() && p.now() >= imm.timelocks.cancellation_after
            ==> p.claim_outcome(who, imm, secret, false) == Err::<(), Error>(Error::LateWithdrawal),
{
}

/// `public_withdraw` never succeeds before `public_withdrawal_after`, nor for the taker.
pub proof fn lemma_public_withdraw_guard(p: Pallet, who: AccountId, imm: Immutables, secret: Seq<u8>)
    ensures
        p.claim_outcome(who, imm, secret, true) is Ok ==> who != imm.taker && p.now()
            >= imm.timelocks.public_withdrawal_after,
{
}

/// An escrow that is completed or cancelled refuses every later withdrawal, public
/// withdrawal and cancellation with `HtlcNotActive`.
pub proof fn lemma_terminal_refuses(p: Pallet, who: AccountId, imm: Immutables, secret: Seq<u8>, public: bool)
    requires
        p.escrows().contains_key(htlc_id_of(imm)),
        p.escrows()[htlc_id_of(imm)].status != HtlcStatus::Active,
    ensures
        p.claim_outcome(who, imm, secret, public) == Err::<(), Error>(Error::HtlcNotActive),
        p.cancel_outcome(who, imm) == Err::<(), Error>(Error::HtlcNotActive),
{
}

/// After a withdrawal or a cancellation the escrow is terminal: every later call on it
/// fails with `HtlcNotActive`.
pub proof fn lemma_no_second_transition(
    p: Pallet,
    q: Pallet,
    who: AccountId,
    imm: Immutables,
    secret: Seq<u8>,
    public: bool,
    who2: AccountId,
    secret2: Seq<u8>,
    public2: bool,
)
    requires
        p.claimed(q, who, imm, secret, public) || p.cancelled(q, imm),
    ensures
        q.claim_outcome(who2, imm, secret2, public2) == Err::<(), Error>(Error::HtlcNotActive),
        q.cancel_outcome(who2, imm) == Err::<(), Error>(Error::HtlcNotActive),
{
    lemma_terminal_refuses(q, who2, imm, secret2, public2);
}

/// A withdrawal takes off hold exactly the escrow's funds: the swap amount from whoever
/// put it on hold and the safety deposit from the taker. Where those holds were the
/// escrow's alone, they are back to zero.
pub proof fn lemma_claim_releases_holds(
    m: Map<AccountId, AccountData>,
    h: Htlc,
    fee_to: Option<AccountId>,
)
    requires
        claim_effect(m, h, fee_to) is Some,
    ensures
        ({
            let m2 = claim_effect(m, h, fee_to)->0;
            let imm = h.immutables;
            &&& account_of(m2, imm.taker).held(HoldReason::SafetyDeposit) == account_of(
                m,
                imm.taker,
            ).held(HoldReason::SafetyDeposit) - imm.safety_deposit
            &&& h.htlc_type == HtlcType::Destination ==> account_of(m2, imm.taker).held(
                HoldReason::SwapAmount,
            ) == account_of(m, imm.taker).held(HoldReason::SwapAmount) - imm.amount
            &&& h.htlc_type == HtlcType::Source ==> account_of(m2, imm.maker).held(
                HoldReason::MakerSwapIntentAmount,
            ) == account_of(m, imm.maker).held(HoldReason::MakerSwapIntentAmount) - imm.amount
        }),
{
}

/// A cancellation takes off hold exactly the escrow's funds, as a withdrawal does.
pub proof fn lemma_refund_releases_holds(m: Map<AccountId, AccountData>, h: Htlc)
    requires
        refund_effect(m, h) is Some,
    ensures
        ({
            let m2 = refund_effect(m, h)->0;
            let imm = h.immutables;
            &&& account_of(m2, imm.taker).held(HoldReason::SafetyDeposit) == account_of(
                m,
                imm.taker,
            ).held(HoldReason::SafetyDeposit) - imm.safety_deposit
            &&& h.htlc_type == HtlcType::Destination ==> account_of(m2, imm.taker).held(
                HoldReason::SwapAmount,
            ) == account_of(m, imm.taker).held(HoldReason::SwapAmount) - imm.amount
            &&& h.htlc_type == HtlcType::Source ==> account_of(m2, imm.maker).held(
                HoldReason::MakerSwapIntentAmount,
            ) == account_of(m, imm.maker).held(HoldReason::MakerSwapIntentAmount) - imm.amount
        }),
{
}

/// The funds of an active escrow stay on hold until it ends, so its taker can always
/// cancel it once `cancellation_after` is reached, whichever side it is on; anyone else,
/// or the taker too early, gets the specific error.
pub proof fn lemma_cancel_always_possible(p: Pallet, who: AccountId, imm: Immutables)
    requires
        p.wf(),
        p.escrows().contains_key(htlc_id_of(imm)),
        p.escrows()[htlc_id_of(imm)].status == HtlcStatus::Active,
        p.escrows()[htlc_id_of(imm)].immutables == imm,
    ensures
        p.cancel_outcome(who, imm) is Ok <==> who == imm.taker && p.now()
            >= imm.timelocks.cancellation_after,
        who != imm.taker ==> p.cancel_outcome(who, imm) == Err::<(), Error>(Error::InvalidCaller),
        who == imm.taker && p.now() < imm.timelocks.cancellation_after ==> p.cancel_outcome(
            who,
            imm,
        ) == Err::<(), Error>(Error::EarlyCancellation),
{
    let id = htlc_id_of(imm);
    let h = p.escrows()[id];
    let m = p.ledger();
    let i = p.lemma_escrow_record(id);
    let (r0, a0) = match h.htlc_type {
        HtlcType::Destination => (HoldReason::SwapAmount, imm.taker),
        HtlcType::Source => (HoldReason::MakerSwapIntentAmount, imm.maker),
    };
    lemma_escrows_bound(p.escrow_records(), i, r0, a0);
    lemma_intents_nonneg(p.intent_records(), r0, a0);
    assert(account_of(m, a0).held(r0) >= escrows_commitment(p.escrow_records(), r0, a0)
        + intents_commitment(p.intent_records(), r0, a0));
    lemma_escrows_bound(p.escrow_records(), i, HoldReason::SafetyDeposit, imm.taker);
    lemma_intents_nonneg(p.intent_records(), HoldReason::SafetyDeposit, imm.taker);
    assert(account_of(m, imm.taker).held(HoldReason::SafetyDeposit) >= escrows_commitment(
        p.escrow_records(),
        HoldReason::SafetyDeposit,
        imm.taker,
    ) + intents_commitment(p.intent_records(), HoldReason::SafetyDeposit, imm.taker));
    assert(release_spec(m, r0, a0, imm.amount) is Some);
    lemma_release_held(m, r0, a0, imm.amount, HoldReason::SafetyDeposit, imm.taker);
    assert(refund_effect(m, h) is Some);
}

/// On a destination escrow, a withdrawal that meets its conditions succeeds: the maker
/// gains the swap amount, the safety deposit goes back to the taker, or to the third
/// party that withdrew publicly, and the taker's holds shrink by exactly the escrow's
/// funds (to zero where they were this escrow's alone). This presumes distinct maker,
/// taker and caller, and receivers whose totals stay within a balance.
pub proof fn lemma_destination_claim_pays(
    p: Pallet,
    who: AccountId,
    imm: Immutables,
    secret: Seq<u8>,
    public: bool,
)
    requires
        p.wf(),
        p.escrows().contains_key(htlc_id_of(imm)),
        p.escrows()[htlc_id_of(imm)].status == HtlcStatus::Active,
        p.escrows()[htlc_id_of(imm)].immutables == imm,
        p.escrows()[htlc_id_of(imm)].htlc_type == HtlcType::Destination,
        blake2_256_of(secret) == imm.hashlock.0@,
        p.now() < imm.timelocks.cancellation_after,
        !public ==> who == imm.taker && imm.timelocks.withdrawal_after <= p.now(),
        public ==> who != imm.taker && who != imm.maker && imm.timelocks.public_withdrawal_after
            <= p.now(),
        imm.maker != imm.taker,
        account_of(p.ledger(), imm.maker).total() + imm.amount <= Balance::MAX,
        public ==> account_of(p.ledger(), who).total() + imm.safety_deposit <= Balance::MAX,
    ensures
        p.claim_outcome(who, imm, secret, public) is Ok,
        ({
            let m = p.ledger();
            let m2 = claim_effect(m, p.escrows()[htlc_id_of(imm)], Pallet::fee_to(who, public))->0;
            &&& account_of(m2, imm.maker).free == account_of(m, imm.maker).free + imm.amount
            &&& account_of(m2, imm.taker).held(HoldReason::SwapAmount) == account_of(
                m,
                imm.taker,
            ).held(HoldReason::SwapAmount) - imm.amount
            &&& account_of(m2, imm.taker).held(HoldReason::SafetyDeposit) == account_of(
                m,
                imm.taker,
            ).held(HoldReason::SafetyDeposit) - imm.safety_deposit
            &&& !public ==> account_of(m2, imm.taker).free == account_of(m, imm.taker).free
                + imm.safety_deposit
            &&& public ==> account_of(m2, imm.taker).free == account_of(m, imm.taker).free
            &&& public ==> account_of(m2, who).free == account_of(m, who).free
                + imm.safety_deposit
        }),
{
    let id = htlc_id_of(imm);
    let h = p.escrows()[id];
    let m = p.ledger();
    let i = p.lemma_escrow_record(id);
    lemma_escrows_bound(p.escrow_records(), i, HoldReason::SwapAmount, imm.taker);
    lemma_intents_nonneg(p.intent_records(), HoldReason::SwapAmount, imm.taker);
    assert(account_of(m, imm.taker).held(HoldReason::SwapAmount) >= escrows_commitment(
        p.escrow_records(),
        HoldReason::SwapAmount,
        imm.taker,
    ) + intents_commitment(p.intent_records(), HoldReason::SwapAmount, imm.taker));
    lemma_escrows_bound(p.escrow_records(), i, HoldReason::SafetyDeposit, imm.taker);
    lemma_intents_nonneg(p.intent_records(), HoldReason::SafetyDeposit, imm.taker);
    assert(account_of(m, imm.taker).held(HoldReason::SafetyDeposit) >= escrows_commitment(
        p.escrow_records(),
        HoldReason::SafetyDeposit,
        imm.taker,
    ) + intents_commitment(p.intent_records(), HoldReason::SafetyDeposit, imm.taker));
    assert(account_of(m, imm.taker).total() <= Balance::MAX);
    let t = account_of(m, imm.taker);
    let m1 = release_spec(m, HoldReason::SwapAmount, imm.taker, imm.amount)->0;
    assert(account_of(m1, imm.taker) == t.with_free((t.free + imm.amount) as Balance).with_held(
        HoldReason::SwapAmount,
        (t.held_swap_amount - imm.amount) as Balance,
    ));
    assert(account_of(m1, imm.taker).free == t.free + imm.amount);
    assert(account_of(m1, imm.maker) == account_of(m, imm.maker));
    let m2 = transfer_spec(m1, imm.taker, imm.maker, imm.amount)->0;
    assert(transfer_spec(m1, imm.taker, imm.maker, imm.amount) is Some);
    assert(account_of(m2, imm.taker).free == t.free);
    assert(account_of(m2, imm.maker).free == account_of(m, imm.maker).free + imm.amount);
    assert(account_of(m2, imm.taker).held(HoldReason::SafetyDeposit) == t.held_safety_deposit);
    let m3 = release_spec(m2, HoldReason::SafetyDeposit, imm.taker, imm.safety_deposit)->0;
    assert(release_spec(m2, HoldReason::SafetyDeposit, imm.taker, imm.safety_deposit) is Some);
    assert(account_of(m3, imm.taker).free == t.free + imm.safety_deposit);
    assert(account_of(m3, imm.maker) == account_of(m2, imm.maker));
    if public {
        assert(account_of(m3, who) == account_of(m, who));
        assert(transfer_spec(m3, imm.taker, who, imm.safety_deposit) is Some);
    }
    assert(claim_effect(m, h, Pallet::fee_to(who, public)) is Some);
}

/// On a destination escrow, a cancellation that meets its conditions returns the swap
/// amount and the safety deposit to the taker's free balance and leaves the maker's
/// untouched.
pub proof fn lemma_destination_cancel_refunds(p: Pallet, imm: Immutables)
    requires
        p.wf(),
        p.escrows().contains_key(htlc_id_of(imm)),
        p.escrows()[htlc_id_of(imm)].status == HtlcStatus::Active,
        p.escrows()[htlc_id_of(imm)].immutables == imm,
        p.escrows()[htlc_id_of(imm)].htlc_type == HtlcType::Destination,
        p.now() >= imm.timelocks.cancellation_after,
        imm.maker != imm.taker,
    ensures
        p.cancel_outcome(imm.taker, imm) is Ok,
        ({
            let m = p.ledger();
            let m2 = refund_effect(m, p.escrows()[htlc_id_of(imm)])->0;
            &&& account_of(m2, imm.taker).free == account_of(m, imm.taker).free + imm.amount
                + imm.safety_deposit
            &&& account_of(m2, imm.maker) == account_of(m, imm.maker)
        }),
{
    lemma_cancel_always_possible(p, imm.taker, imm);
    let m = p.ledger();
    assert(account_of(m, imm.taker).total() <= Balance::MAX);
    let t = account_of(m, imm.taker);
    let m1 = release_spec(m, HoldReason::SwapAmount, imm.taker, imm.amount)->0;
    assert(account_of(m1, imm.taker).free == t.free + imm.amount);
    assert(account_of(m1, imm.taker).held(HoldReason::SafetyDeposit) == t.held_safety_deposit);
    assert(account_of(m1, imm.maker) == account_of(m, imm.maker));
    let m2 = release_spec(m1, HoldReason::SafetyDeposit, imm.taker, imm.safety_deposit)->0;
    assert(account_of(m2, imm.taker).free == t.free + imm.amount + imm.safety_deposit);
}

} // verus!
