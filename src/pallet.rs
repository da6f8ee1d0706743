use vstd::prelude::*;
use crate::identity::{blake2_256, blake2_256_of, hash_immutables, htlc_id_of, intent_key, intent_key_of};
use crate::ledger::{
    account_of, hold_spec, lemma_hold_held, lemma_release_held, lemma_transfer_held, release_spec,
    transfer_spec, AccountData, Balances,
};
use crate::registry::Registry;
use crate::types::{
    AccountId, Balance, BlockNumber, Error, Event, H256, HoldReason, Htlc, HtlcStatus, HtlcType,
    Immutables, IntentStatus, StoredSwapIntent, SwapIntent, Timelocks,
};

verus! {

/// Settings of the escrow engine.
#[derive(Clone, Copy, Debug, PartialEq, Eq, Structural)]
pub struct Config {
    /// Smallest safety deposit that a resolver may post when creating an escrow.
    pub min_safety_deposit: Balance,
}

/// The escrow engine: escrow and intent registries, the custody ledger, the clock and
/// the log of notifications.
pub struct Pallet {
    config: Config,
    balances: Balances,
    htlcs: Registry<Htlc>,
    swap_intents: Registry<StoredSwapIntent>,
    /// Current ledger height.
    block_number: BlockNumber,
    /// One notification per successful call, oldest first.
    events: Vec<Event>,
}

/// `imm` with its deployment height set to `now`.
pub open spec fn stamped(imm: Immutables, now: BlockNumber) -> Immutables {
    Immutables { timelocks: Timelocks { deployed_at: now, ..imm.timelocks }, ..imm }
}

/// Holds the swap amount, then the safety deposit, from the taker of a destination escrow.
pub open spec fn dst_holds(m: Map<AccountId, AccountData>, imm: Immutables) -> Option<
    Map<AccountId, AccountData>,
> {
    match hold_spec(m, HoldReason::SwapAmount, imm.taker, imm.amount) {
        Some(m1) => hold_spec(m1, HoldReason::SafetyDeposit, imm.taker, imm.safety_deposit),
        None => None,
    }
}

/// Pays out a withdrawn escrow: the swap amount leaves its hold and goes to the
/// beneficiary, the safety deposit leaves its hold, and goes on to `fee_to` where a third
/// party performed the withdrawal.
pub open spec fn claim_effect(
    m: Map<AccountId, AccountData>,
    h: Htlc,
    fee_to: Option<AccountId>,
) -> Option<Map<AccountId, AccountData>> {
    let imm = h.immutables;
    let paid = match h.htlc_type {
        HtlcType::Destination => match release_spec(
            m,
            HoldReason::SwapAmount,
            imm.taker,
            imm.amount,
        ) {
            Some(m1) => transfer_spec(m1, imm.taker, imm.maker, imm.amount),
            None => None,
        },
        HtlcType::Source => match release_spec(
            m,
            HoldReason::MakerSwapIntentAmount,
            imm.maker,
            imm.amount,
        ) {
            Some(m1) => transfer_spec(m1, imm.maker, imm.taker, imm.amount),
            None => None,
        },
    };
    match paid {
        Some(m2) => match release_spec(m2, HoldReason::SafetyDeposit, imm.taker, imm.safety_deposit) {
            Some(m3) => match fee_to {
                Some(c) => transfer_spec(m3, imm.taker, c, imm.safety_deposit),
                None => Some(m3),
            },
            None => None,
        },
        None => None,
    }
}

/// Who receives the swap amount of a withdrawn escrow.
pub open spec fn beneficiary_of(h: Htlc) -> AccountId {
    match h.htlc_type {
        HtlcType::Destination => h.immutables.maker,
        HtlcType::Source => h.immutables.taker,
    }
}

/// Whether `e` announces the creation of the escrow `id` with `imm`.
pub open spec fn is_created_event(e: Event, id: Seq<u8>, imm: Immutables) -> bool {
    match e {
        Event::HtlcCreated { htlc_id, hashlock, maker, taker, amount, safety_deposit } => {
            &&& htlc_id.0@ == id
            &&& hashlock == imm.hashlock
            &&& maker == imm.maker
            &&& taker == imm.taker
            &&& amount == imm.amount
            &&& safety_deposit == imm.safety_deposit
        },
        _ => false,
    }
}

/// Whether `e` announces the withdrawal of the escrow `id` of `h`, revealing `secret`.
pub open spec fn is_withdrawn_event(
    e: Event,
    id: Seq<u8>,
    h: Htlc,
    secret: Seq<u8>,
    recipient: AccountId,
) -> bool {
    match e {
        Event::HtlcWithdrawn {
            htlc_id,
            secret: s,
            amount,
            beneficiary,
            safety_deposit_recipient,
        } => {
            &&& htlc_id.0@ == id
            &&& s@ == secret
            &&& amount == h.immutables.amount
            &&& beneficiary == beneficiary_of(h)
            &&& safety_deposit_recipient == recipient
        },
        _ => false,
    }
}

/// Returns the held funds of a cancelled escrow: the swap amount to whoever put it on
/// hold, the safety deposit to the taker.
pub open spec fn refund_effect(m: Map<AccountId, AccountData>, h: Htlc) -> Option<
    Map<AccountId, AccountData>,
> {
    let imm = h.immutables;
    let returned = match h.htlc_type {
        HtlcType::Destination => release_spec(m, HoldReason::SwapAmount, imm.taker, imm.amount),
        HtlcType::Source => release_spec(
            m,
            HoldReason::MakerSwapIntentAmount,
            imm.maker,
            imm.amount,
        ),
    };
    match returned {
        Some(m1) => release_spec(m1, HoldReason::SafetyDeposit, imm.taker, imm.safety_deposit),
        None => None,
    }
}

/// Who gets the swap amount of a cancelled escrow back.
pub open spec fn refund_recipient_of(h: Htlc) -> AccountId {
    match h.htlc_type {
        HtlcType::Destination => h.immutables.taker,
        HtlcType::Source => h.immutables.maker,
    }
}

/// The hash whose bytes are `s`.
pub open spec fn h256_of(s: Seq<u8>) -> H256 {
    H256(choose|a: [u8; 32]| #[trigger] a@ == s)
}

/// A hash is the one named by its own bytes.
pub proof fn lemma_h256_of(h: H256)
    ensures
        h256_of(h.0@) == h,
{
    assert(exists|a: [u8; 32]| #[trigger] a@ == h.0@) by {
        assert(h.0@ == h.0@);
    }
    let a = choose|a: [u8; 32]| #[trigger] a@ == h.0@;
    assert(a =~= h.0) by {
        assert forall|i: int| 0 <= i < 32 implies a[i] == h.0[i] by {
            assert(a@[i] == h.0@[i]);
        }
    }
}

/// The immutables of the source escrow that `who` creates from the intent `s` stored under
/// `key`.
pub open spec fn src_immutables(
    key: Seq<u8>,
    s: StoredSwapIntent,
    who: AccountId,
    timelocks: Timelocks,
    safety_deposit: Balance,
) -> Immutables {
    Immutables {
        order_hash: h256_of(key),
        hashlock: s.intent.hashlock,
        maker: s.intent.maker,
        taker: who,
        amount: s.intent.src_amount,
        safety_deposit,
        timelocks,
    }
}

/// Whether `e` announces the cancellation of the escrow `id`.
pub open spec fn is_cancelled_event(e: Event, id: Seq<u8>, recipient: AccountId) -> bool {
    match e {
        Event::HtlcCancelled { htlc_id, refund_recipient } => htlc_id.0@ == id && refund_recipient
            == recipient,
        _ => false,
    }
}

/// Whether `e` announces the creation of `intent` by its maker.
pub open spec fn is_intent_created_event(e: Event, intent: SwapIntent) -> bool {
    match e {
        Event::SwapIntentCreated { maker, nonce, src_amount, dst_amount, dst_address, hashlock } => {
            &&& maker == intent.maker
            &&& nonce == intent.nonce
            &&& src_amount == intent.src_amount
            &&& dst_amount == intent.dst_amount
            &&& dst_address == intent.dst_address
            &&& hashlock == intent.hashlock
        },
        _ => false,
    }
}

/// Whether `e` announces the cancellation of `intent`, stored under `nonce`.
pub open spec fn is_intent_cancelled_event(e: Event, intent: SwapIntent, key_nonce: u64) -> bool {
    match e {
        Event::SwapIntentCancelled { maker, nonce, src_amount, dst_amount, dst_address, hashlock } => {
            &&& maker == intent.maker
            &&& nonce == key_nonce
            &&& src_amount == intent.src_amount
            &&& dst_amount == intent.dst_amount
            &&& dst_address == intent.dst_address
            &&& hashlock == intent.hashlock
        },
        _ => false,
    }
}

/// What an active escrow keeps on hold under `r` from `a`: the swap amount from
/// whoever funded it, the safety deposit from the taker.
pub open spec fn escrow_commitment(h: Htlc, r: HoldReason, a: AccountId) -> int {
    let imm = h.immutables;
    if h.status != HtlcStatus::Active {
        0
    } else {
        match r {
            HoldReason::SwapAmount => if h.htlc_type == HtlcType::Destination && imm.taker == a {
                imm.amount as int
            } else {
                0
            },
            HoldReason::SafetyDeposit => if imm.taker == a {
                imm.safety_deposit as int
            } else {
                0
            },
            HoldReason::MakerSwapIntentAmount => if h.htlc_type == HtlcType::Source && imm.maker
                == a {
                imm.amount as int
            } else {
                0
            },
        }
    }
}

/// What an active intent keeps on hold under `r` from `a`: its source amount, from its
/// maker.
pub open spec fn intent_commitment(s: StoredSwapIntent, r: HoldReason, a: AccountId) -> int {
    if r == HoldReason::MakerSwapIntentAmount && s.status is Active && s.intent.maker == a {
        s.intent.src_amount as int
    } else {
        0
    }
}

/// What the escrows in `s` keep on hold under `r` from `a`, together.
pub open spec fn escrows_commitment(s: Seq<Htlc>, r: HoldReason, a: AccountId) -> int
    decreases s.len(),
{
    if s.len() == 0 {
        0
    } else {
        escrows_commitment(s.drop_last(), r, a) + escrow_commitment(s.last(), r, a)
    }
}

/// What the intents in `s` keep on hold under `r` from `a`, together.
pub open spec fn intents_commitment(s: Seq<StoredSwapIntent>, r: HoldReason, a: AccountId) -> int
    decreases s.len(),
{
    if s.len() == 0 {
        0
    } else {
        intents_commitment(s.drop_last(), r, a) + intent_commitment(s.last(), r, a)
    }
}

proof fn lemma_escrows_push(s: Seq<Htlc>, h: Htlc, r: HoldReason, a: AccountId)
    ensures
        escrows_commitment(s.push(h), r, a) == escrows_commitment(s, r, a) + escrow_commitment(
            h,
            r,
            a,
        ),
{
    assert(s.push(h).drop_last() =~= s);
}

proof fn lemma_escrows_update(s: Seq<Htlc>, i: int, h: Htlc, r: HoldReason, a: AccountId)
    requires
        0 <= i < s.len(),
    ensures
        escrows_commitment(s.update(i, h), r, a) == escrows_commitment(s, r, a)
            - escrow_commitment(s[i], r, a) + escrow_commitment(h, r, a),
    decreases s.len(),
{
    if i == s.len() - 1 {
        assert(s.update(i, h).drop_last() =~= s.drop_last());
    } else {
        assert(s.update(i, h).drop_last() =~= s.drop_last().update(i, h));
        lemma_escrows_update(s.drop_last(), i, h, r, a);
    }
}

/// The escrows together commit at least what any one of them commits.
pub proof fn lemma_escrows_bound(s: Seq<Htlc>, i: int, r: HoldReason, a: AccountId)
    requires
        0 <= i < s.len(),
    ensures
        escrows_commitment(s, r, a) >= escrow_commitment(s[i], r, a),
    decreases s.len(),
{
    lemma_escrows_nonneg(s.drop_last(), r, a);
    if i < s.len() - 1 {
        lemma_escrows_bound(s.drop_last(), i, r, a);
    }
}

/// No escrow commits a negative amount.
pub proof fn lemma_escrows_nonneg(s: Seq<Htlc>, r: HoldReason, a: AccountId)
    ensures
        escrows_commitment(s, r, a) >= 0,
    decreases s.len(),
{
    if s.len() > 0 {
        lemma_escrows_nonneg(s.drop_last(), r, a);
    }
}

proof fn lemma_intents_push(s: Seq<StoredSwapIntent>, x: StoredSwapIntent, r: HoldReason, a: AccountId)
    ensures
        intents_commitment(s.push(x), r, a) == intents_commitment(s, r, a) + intent_commitment(
            x,
            r,
            a,
        ),
{
    assert(s.push(x).drop_last() =~= s);
}

proof fn lemma_intents_update(
    s: Seq<StoredSwapIntent>,
    i: int,
    x: StoredSwapIntent,
    r: HoldReason,
    a: AccountId,
)
    requires
        0 <= i < s.len(),
    ensures
        intents_commitment(s.update(i, x), r, a) == intents_commitment(s, r, a)
            - intent_commitment(s[i], r, a) + intent_commitment(x, r, a),
    decreases s.len(),
{
    if i == s.len() - 1 {
        assert(s.update(i, x).drop_last() =~= s.drop_last());
    } else {
        assert(s.update(i, x).drop_last() =~= s.drop_last().update(i, x));
        lemma_intents_update(s.drop_last(), i, x, r, a);
    }
}

proof fn lemma_intents_bound(s: Seq<StoredSwapIntent>, i: int, r: HoldReason, a: AccountId)
    requires
        0 <= i < s.len(),
    ensures
        intents_commitment(s, r, a) >= intent_commitment(s[i], r, a),
    decreases s.len(),
{
    lemma_intents_nonneg(s.drop_last(), r, a);
    if i < s.len() - 1 {
        lemma_intents_bound(s.drop_last(), i, r, a);
    }
}

/// No intent commits a negative amount.
pub proof fn lemma_intents_nonneg(s: Seq<StoredSwapIntent>, r: HoldReason, a: AccountId)
    ensures
        intents_commitment(s, r, a) >= 0,
    decreases s.len(),
{
    if s.len() > 0 {
        lemma_intents_nonneg(s.drop_last(), r, a);
    }
}

/// Creating a destination escrow puts on hold exactly what it commits.
pub proof fn lemma_dst_holds_held(m: Map<AccountId, AccountData>, s: Immutables, r: HoldReason, a: AccountId)
    requires
        dst_holds(m, s) is Some,
        account_of(m, s.taker).total() <= Balance::MAX,
    ensures
        account_of(dst_holds(m, s)->0, a).held(r) == account_of(m, a).held(r) + escrow_commitment(
            Htlc { immutables: s, status: HtlcStatus::Active, htlc_type: HtlcType::Destination },
            r,
            a,
        ),
{
    let m1 = hold_spec(m, HoldReason::SwapAmount, s.taker, s.amount)->0;
    lemma_hold_held(m, HoldReason::SwapAmount, s.taker, s.amount, r, a);
    lemma_hold_held(m1, HoldReason::SafetyDeposit, s.taker, s.safety_deposit, r, a);
}

/// Paying out an active escrow takes off hold exactly what it committed.
pub proof fn lemma_claim_held(
    m: Map<AccountId, AccountData>,
    h: Htlc,
    fee_to: Option<AccountId>,
    r: HoldReason,
    a: AccountId,
)
    requires
        h.status == HtlcStatus::Active,
        claim_effect(m, h, fee_to) is Some,
    ensures
        account_of(claim_effect(m, h, fee_to)->0, a).held(r) == account_of(m, a).held(r)
            - escrow_commitment(h, r, a),
{
    let imm = h.immutables;
    let m2 = match h.htlc_type {
        HtlcType::Destination => {
            let m1 = release_spec(m, HoldReason::SwapAmount, imm.taker, imm.amount)->0;
            lemma_release_held(m, HoldReason::SwapAmount, imm.taker, imm.amount, r, a);
            lemma_transfer_held(m1, imm.taker, imm.maker, imm.amount, r, a);
            transfer_spec(m1, imm.taker, imm.maker, imm.amount)->0
        },
        HtlcType::Source => {
            let m1 = release_spec(m, HoldReason::MakerSwapIntentAmount, imm.maker, imm.amount)->0;
            lemma_release_held(m, HoldReason::MakerSwapIntentAmount, imm.maker, imm.amount, r, a);
            lemma_transfer_held(m1, imm.maker, imm.taker, imm.amount, r, a);
            transfer_spec(m1, imm.maker, imm.taker, imm.amount)->0
        },
    };
    let m3 = release_spec(m2, HoldReason::SafetyDeposit, imm.taker, imm.safety_deposit)->0;
    lemma_release_held(m2, HoldReason::SafetyDeposit, imm.taker, imm.safety_deposit, r, a);
    match fee_to {
        Some(c) => lemma_transfer_held(m3, imm.taker, c, imm.safety_deposit, r, a),
        None => {},
    }
}

/// Refunding an active escrow takes off hold exactly what it committed.
pub proof fn lemma_refund_held(m: Map<AccountId, AccountData>, h: Htlc, r: HoldReason, a: AccountId)
    requires
        h.status == HtlcStatus::Active,
        refund_effect(m, h) is Some,
    ensures
        account_of(refund_effect(m, h)->0, a).held(r) == account_of(m, a).held(r)
            - escrow_commitment(h, r, a),
{
    let imm = h.immutables;
    let m1 = match h.htlc_type {
        HtlcType::Destination => {
            lemma_release_held(m, HoldReason::SwapAmount, imm.taker, imm.amount, r, a);
            release_spec(m, HoldReason::SwapAmount, imm.taker, imm.amount)->0
        },
        HtlcType::Source => {
            lemma_release_held(m, HoldReason::MakerSwapIntentAmount, imm.maker, imm.amount, r, a);
            release_spec(m, HoldReason::MakerSwapIntentAmount, imm.maker, imm.amount)->0
        },
    };
    lemma_release_held(m1, HoldReason::SafetyDeposit, imm.taker, imm.safety_deposit, r, a);
}

impl Pallet {
    /// The custody ledger.
    pub closed spec fn ledger(self) -> Map<AccountId, AccountData> {
        self.balances@
    }

    /// The escrow registry, by identifier.
    pub closed spec fn escrows(self) -> Map<Seq<u8>, Htlc> {
        self.htlcs@
    }

    /// The stored escrows, one per identifier.
    pub closed spec fn escrow_records(self) -> Seq<Htlc> {
        self.htlcs.values()
    }

    /// The intent registry, by key.
    pub closed spec fn intents(self) -> Map<Seq<u8>, StoredSwapIntent> {
        self.swap_intents@
    }

    /// The stored intents, one per key.
    pub closed spec fn intent_records(self) -> Seq<StoredSwapIntent> {
        self.swap_intents.values()
    }

    /// The current ledger height.
    pub closed spec fn now(self) -> BlockNumber {
        self.block_number
    }

    pub closed spec fn settings(self) -> Config {
        self.config
    }

    /// The notifications, oldest first.
    pub closed spec fn log(self) -> Seq<Event> {
        self.events@
    }

    pub closed spec fn parts_wf(self) -> bool {
        &&& self.balances.wf()
        &&& self.htlcs.wf()
        &&& self.swap_intents.wf()
    }

    /// Every account holds under each reason at least what the active escrows and
    /// intents have put on hold from it.
    pub open spec fn funds_held(self) -> bool {
        forall|r: HoldReason, a: AccountId|
            #[trigger] account_of(self.ledger(), a).held(r) >= escrows_commitment(
                self.escrow_records(),
                r,
                a,
            ) + intents_commitment(self.intent_records(), r, a)
    }

    /// Each account's total, free and held, fits in a balance.
    pub open spec fn totals_fit(self) -> bool {
        forall|a: AccountId| #[trigger] account_of(self.ledger(), a).total() <= Balance::MAX
    }

    pub open spec fn wf(self) -> bool {
        &&& self.parts_wf()
        &&& self.totals_fit()
        &&& self.funds_held()
    }

    /// The escrow stored under `id` is one of the records.
    pub proof fn lemma_escrow_record(self, id: Seq<u8>) -> (i: int)
        requires
            self.wf(),
            self.escrows().contains_key(id),
        ensures
            0 <= i < self.escrow_records().len(),
            self.escrow_records()[i] == self.escrows()[id],
    {
        self.htlcs.lemma_value_index(id)
    }

    /// Registries, ledger and clock are those of `self`, and one notification was added.
    pub open spec fn same_but_events(self, post: Pallet) -> bool {
        &&& post.settings() == self.settings()
        &&& post.now() == self.now()
        &&& post.log().len() == self.log().len() + 1
        &&& post.log().drop_last() == self.log()
    }

    /// Outcome of `create_dst_htlc`, checks in order.
    pub open spec fn create_dst_outcome(
        self,
        who: AccountId,
        imm: Immutables,
        src_cancellation: BlockNumber,
    ) -> Result<(), Error> {
        let s = stamped(imm, self.now());
        if who != imm.taker {
            Err(Error::InvalidCaller)
        } else if imm.safety_deposit < self.settings().min_safety_deposit {
            Err(Error::HigherSafetyDepositRequired)
        } else if s.timelocks.cancellation_after > src_cancellation {
            Err(Error::InvalidTimelocks)
        } else if !s.timelocks.well_ordered() {
            Err(Error::InvalidTimelocks)
        } else if self.escrows().contains_key(htlc_id_of(s)) {
            Err(Error::HtlcAlreadyExists)
        } else if dst_holds(self.ledger(), s) is None {
            Err(Error::InsufficientBalance)
        } else {
            Ok(())
        }
    }

    /// State after a successful `create_dst_htlc`.
    pub open spec fn dst_created(self, post: Pallet, imm: Immutables) -> bool {
        let s = stamped(imm, self.now());
        let id = htlc_id_of(s);
        &&& post.escrows() == self.escrows().insert(
            id,
            Htlc { immutables: s, status: HtlcStatus::Active, htlc_type: HtlcType::Destination },
        )
        &&& post.intents() == self.intents()
        &&& post.ledger() == dst_holds(self.ledger(), s)->0
        &&& self.same_but_events(post)
        &&& is_created_event(post.log().last(), id, s)
    }

    /// Validation shared by `withdraw` and `public_withdraw`; gives the stored escrow.
    pub open spec fn claim_check(
        self,
        who: AccountId,
        imm: Immutables,
        secret: Seq<u8>,
        public: bool,
    ) -> Result<Htlc, Error> {
        let id = htlc_id_of(imm);
        let h = self.escrows()[id];
        let t = h.immutables.timelocks;
        let now = self.now();
        if !self.escrows().contains_key(id) {
            Err(Error::HtlcDoesNotExist)
        } else if h.status != HtlcStatus::Active {
            Err(Error::HtlcNotActive)
        } else if h.immutables != imm {
            Err(Error::InvalidImmutables)
        } else if h.immutables.hashlock.0@ != blake2_256_of(secret) {
            Err(Error::InvalidSecret)
        } else if !public && who != h.immutables.taker {
            Err(Error::InvalidCaller)
        } else if public && who == h.immutables.taker {
            Err(Error::InvalidCaller)
        } else if !public && now < t.withdrawal_after {
            Err(Error::EarlyWithdrawal)
        } else if !public && now >= t.cancellation_after {
            Err(Error::LateWithdrawal)
        } else if public && now < t.public_withdrawal_after {
            Err(Error::EarlyPublicWithdrawal)
        } else if public && now >= t.cancellation_after {
            Err(Error::LatePublicWithdrawal)
        } else {
            Ok(h)
        }
    }

    /// Who is paid the safety deposit of a public withdrawal by `who`.
    pub open spec fn fee_to(who: AccountId, public: bool) -> Option<AccountId> {
        if public {
            Some(who)
        } else {
            None
        }
    }

    /// Outcome of `withdraw` (`public == false`) or `public_withdraw` (`public == true`).
    pub open spec fn claim_outcome(
        self,
        who: AccountId,
        imm: Immutables,
        secret: Seq<u8>,
        public: bool,
    ) -> Result<(), Error> {
        match self.claim_check(who, imm, secret, public) {
            Err(e) => Err(e),
            Ok(h) => if claim_effect(self.ledger(), h, Self::fee_to(who, public)) is None {
                Err(Error::InsufficientBalance)
            } else {
                Ok(())
            },
        }
    }

    /// State after a successful withdrawal of the escrow with `imm` by `who`.
    pub open spec fn claimed(
        self,
        post: Pallet,
        who: AccountId,
        imm: Immutables,
        secret: Seq<u8>,
        public: bool,
    ) -> bool {
        let id = htlc_id_of(imm);
        let h = self.escrows()[id];
        &&& post.escrows() == self.escrows().insert(id, Htlc { status: HtlcStatus::Completed, ..h })
        &&& post.intents() == self.intents()
        &&& post.ledger() == claim_effect(self.ledger(), h, Self::fee_to(who, public))->0
        &&& self.same_but_events(post)
        &&& is_withdrawn_event(post.log().last(), id, h, secret, who)
    }

    /// Outcome of `cancel`, checks in order.
    pub open spec fn cancel_outcome(self, who: AccountId, imm: Immutables) -> Result<(), Error> {
        let id = htlc_id_of(imm);
        let h = self.escrows()[id];
        if !self.escrows().contains_key(id) {
            Err(Error::HtlcDoesNotExist)
        } else if h.status != HtlcStatus::Active {
            Err(Error::HtlcNotActive)
        } else if h.immutables != imm {
            Err(Error::InvalidImmutables)
        } else if who != h.immutables.taker {
            Err(Error::InvalidCaller)
        } else if self.now() < h.immutables.timelocks.cancellation_after {
            Err(Error::EarlyCancellation)
        } else if refund_effect(self.ledger(), h) is None {
            Err(Error::InsufficientBalance)
        } else {
            Ok(())
        }
    }

    /// State after a successful `cancel`.
    pub open spec fn cancelled(self, post: Pallet, imm: Immutables) -> bool {
        let id = htlc_id_of(imm);
        let h = self.escrows()[id];
        &&& post.escrows() == self.escrows().insert(id, Htlc { status: HtlcStatus::Cancelled, ..h })
        &&& post.intents() == self.intents()
        &&& post.ledger() == refund_effect(self.ledger(), h)->0
        &&& self.same_but_events(post)
        &&& is_cancelled_event(post.log().last(), id, refund_recipient_of(h))
    }

    /// Outcome of `create_swap_intent`, checks in order.
    pub open spec fn create_intent_outcome(self, who: AccountId, intent: SwapIntent) -> Result<
        (),
        Error,
    > {
        if who != intent.maker {
            Err(Error::InvalidCaller)
        } else if self.intents().contains_key(intent_key_of(who, intent.nonce)) {
            Err(Error::IntentAlreadyExists)
        } else if hold_spec(
            self.ledger(),
            HoldReason::MakerSwapIntentAmount,
            who,
            intent.src_amount,
        ) is None {
            Err(Error::InsufficientBalance)
        } else {
            Ok(())
        }
    }

    /// State after a successful `create_swap_intent`.
    pub open spec fn intent_created(self, post: Pallet, intent: SwapIntent) -> bool {
        &&& post.intents() == self.intents().insert(
            intent_key_of(intent.maker, intent.nonce),
            StoredSwapIntent {
                intent,
                status: IntentStatus::Active,
                created_at: self.now(),
            },
        )
        &&& post.escrows() == self.escrows()
        &&& post.ledger() == hold_spec(
            self.ledger(),
            HoldReason::MakerSwapIntentAmount,
            intent.maker,
            intent.src_amount,
        )->0
        &&& self.same_but_events(post)
        &&& is_intent_created_event(post.log().last(), intent)
    }

    /// Outcome of `cancel_swap_intent`, checks in order.
    pub open spec fn cancel_intent_outcome(self, who: AccountId, nonce: u64) -> Result<(), Error> {
        let key = intent_key_of(who, nonce);
        let s = self.intents()[key];
        if !self.intents().contains_key(key) {
            Err(Error::IntentDoesNotExists)
        } else if !(s.status is Active) {
            Err(Error::IntentNotActive)
        } else if who != s.intent.maker {
            Err(Error::InvalidCaller)
        } else if release_spec(
            self.ledger(),
            HoldReason::MakerSwapIntentAmount,
            who,
            s.intent.src_amount,
        ) is None {
            Err(Error::InsufficientBalance)
        } else {
            Ok(())
        }
    }

    /// State after a successful `cancel_swap_intent`.
    pub open spec fn intent_cancelled(self, post: Pallet, who: AccountId, nonce: u64) -> bool {
        let key = intent_key_of(who, nonce);
        let s = self.intents()[key];
        &&& post.intents() == self.intents().insert(
            key,
            StoredSwapIntent { status: IntentStatus::Cancelled, ..s },
        )
        &&& post.escrows() == self.escrows()
        &&& post.ledger() == release_spec(
            self.ledger(),
            HoldReason::MakerSwapIntentAmount,
            who,
            s.intent.src_amount,
        )->0
        &&& self.same_but_events(post)
        &&& is_intent_cancelled_event(post.log().last(), s.intent, nonce)
    }

    /// Outcome of `create_src_htlc`, checks in order.
    pub open spec fn create_src_outcome(
        self,
        who: AccountId,
        maker: AccountId,
        nonce: u64,
        timelocks: Timelocks,
        safety_deposit: Balance,
    ) -> Result<(), Error> {
        let key = intent_key_of(maker, nonce);
        let s = self.intents()[key];
        let tl = Timelocks { deployed_at: self.now(), ..timelocks };
        let imm = src_immutables(key, s, who, tl, safety_deposit);
        if safety_deposit < self.settings().min_safety_deposit {
            Err(Error::HigherSafetyDepositRequired)
        } else if !self.intents().contains_key(key) {
            Err(Error::IntentDoesNotExists)
        } else if !(s.status is Active) {
            Err(Error::IntentNotActive)
        } else if self.now() > s.intent.timeout_after_block {
            Err(Error::IntentExpired)
        } else if !tl.well_ordered() {
            Err(Error::InvalidTimelocks)
        } else if self.escrows().contains_key(htlc_id_of(imm)) {
            Err(Error::HtlcAlreadyExists)
        } else if hold_spec(self.ledger(), HoldReason::SafetyDeposit, who, safety_deposit) is None {
            Err(Error::InsufficientBalance)
        } else {
            Ok(())
        }
    }

    /// State after a successful `create_src_htlc`.
    pub open spec fn src_created(
        self,
        post: Pallet,
        who: AccountId,
        maker: AccountId,
        nonce: u64,
        timelocks: Timelocks,
        safety_deposit: Balance,
    ) -> bool {
        let key = intent_key_of(maker, nonce);
        let s = self.intents()[key];
        let tl = Timelocks { deployed_at: self.now(), ..timelocks };
        let imm = src_immutables(key, s, who, tl, safety_deposit);
        let id = htlc_id_of(imm);
        &&& post.escrows() == self.escrows().insert(
            id,
            Htlc { immutables: imm, status: HtlcStatus::Active, htlc_type: HtlcType::Source },
        )
        &&& post.intents() == self.intents().insert(
            key,
            StoredSwapIntent {
                status: IntentStatus::InProgress { resolver: who, htlc_id: h256_of(id) },
                ..s
            },
        )
        &&& post.ledger() == hold_spec(
            self.ledger(),
            HoldReason::SafetyDeposit,
            who,
            safety_deposit,
        )->0
        &&& self.same_but_events(post)
        &&& is_created_event(post.log().last(), id, imm)
    }

    pub fn new(config: Config) -> (r: Pallet)
        ensures
            r.wf(),
            r.settings() == config,
            r.now() == 0,
            r.escrows() == Map::<Seq<u8>, Htlc>::empty(),
            r.intents() == Map::<Seq<u8>, StoredSwapIntent>::empty(),
            r.ledger() == Map::<AccountId, AccountData>::empty(),
            r.log() == Seq::<Event>::empty(),
    {
        Pallet {
            config,
            balances: Balances::new(),
            htlcs: Registry::new(),
            swap_intents: Registry::new(),
            block_number: 0,
            events: Vec::new(),
        }
    }

    /// Advances the clock to `n`.
    pub fn set_block_number(&mut self, n: BlockNumber)
        requires
            old(self).wf(),
        ensures
            final(self).wf(),
            final(self).now() == n,
            final(self).settings() == old(self).settings(),
            final(self).ledger() == old(self).ledger(),
            final(self).escrows() == old(self).escrows(),
            final(self).escrow_records() == old(self).escrow_records(),
            final(self).intents() == old(self).intents(),
            final(self).intent_records() == old(self).intent_records(),
            final(self).log() == old(self).log(),
    {
        self.block_number = n;
        proof {
            assert forall|r: HoldReason, a: AccountId| #[trigger] account_of(self.ledger(), a).held(r) >= escrows_commitment(self.escrow_records(), r, a) + intents_commitment(self.intent_records(), r, a) by {
                assert(account_of(old(self).ledger(), a).held(r) >= escrows_commitment(old(self).escrow_records(), r, a) + intents_commitment(old(self).intent_records(), r, a));
            }
        }
    }

    /// The custody ledger.
    pub fn balances(&self) -> (r: &Balances)
        ensures
            r@ == self.ledger(),
    {
        &self.balances
    }

    /// The notifications, oldest first.
    pub fn events(&self) -> (r: &Vec<Event>)
        ensures
            r@ == self.log(),
    {
        &self.events
    }

    /// Sets the free balance of `a`, keeping what is held.
    pub fn set_balance(&mut self, a: AccountId, free: Balance)
        requires
            old(self).wf(),
            account_of(old(self).ledger(), a).total_held() + free <= Balance::MAX,
        ensures
            final(self).wf(),
            final(self).ledger() == old(self).ledger().insert(
                a,
                account_of(old(self).ledger(), a).with_free(free),
            ),
            final(self).settings() == old(self).settings(),
            final(self).now() == old(self).now(),
            final(self).escrows() == old(self).escrows(),
            final(self).escrow_records() == old(self).escrow_records(),
            final(self).intents() == old(self).intents(),
            final(self).intent_records() == old(self).intent_records(),
            final(self).log() == old(self).log(),
    {
        self.balances.set_balance(a, free);
        proof {
            assert forall|r: HoldReason, a: AccountId| #[trigger] account_of(self.ledger(), a).held(r) >= escrows_commitment(self.escrow_records(), r, a) + intents_commitment(self.intent_records(), r, a) by {
                assert(account_of(old(self).ledger(), a).held(r) >= escrows_commitment(old(self).escrow_records(), r, a) + intents_commitment(old(self).intent_records(), r, a));
                assert(account_of(self.ledger(), a).held(r) == account_of(old(self).ledger(), a).held(r));
            }
        }
    }

    /// The escrow stored under `id`, if any.
    pub fn htlc(&self, id: &H256) -> (r: Option<Htlc>)
        requires
            self.wf(),
        ensures
            r == (if self.escrows().contains_key(id.0@) {
                Some(self.escrows()[id.0@])
            } else {
                None
            }),
    {
        self.htlcs.get(id)
    }

    /// The swap intent stored under `key`, if any.
    pub fn swap_intent(&self, key: &H256) -> (r: Option<StoredSwapIntent>)
        requires
            self.wf(),
        ensures
            r == (if self.intents().contains_key(key.0@) {
                Some(self.intents()[key.0@])
            } else {
                None
            }),
    {
        self.swap_intents.get(key)
    }

    /// Identifier of the escrow with these immutables: the hash of their canonical
    /// encoding.
    pub fn hash_immutables(immutables: &Immutables) -> (r: H256)
        ensures
            r.0@ == htlc_id_of(*immutables),
    {
        hash_immutables(immutables)
    }

    /// Creates a destination escrow: the taker `who` puts the swap amount and the
    /// safety deposit on hold for the maker.
    pub fn create_dst_htlc(
        &mut self,
        who: AccountId,
        immutables: Immutables,
        src_cancellation_timestamp: BlockNumber,
    ) -> (r: Result<(), Error>)
        requires
            old(self).wf(),
        ensures
            final(self).wf(),
            r == old(self).create_dst_outcome(who, immutables, src_cancellation_timestamp),
            r is Ok ==> old(self).dst_created(*final(self), immutables),
            r is Err ==> *final(self) == *old(self),
    {
        if who != immutables.taker {
            return Err(Error::InvalidCaller);
        }
        if immutables.safety_deposit < self.config.min_safety_deposit {
            return Err(Error::HigherSafetyDepositRequired);
        }
        let mut updated = immutables;
        updated.timelocks.deployed_at = self.block_number;
        assert(updated == stamped(immutables, self.block_number));
        if updated.timelocks.cancellation_after > src_cancellation_timestamp {
            return Err(Error::InvalidTimelocks);
        }
        if !(updated.timelocks.deployed_at <= updated.timelocks.withdrawal_after
            && updated.timelocks.withdrawal_after <= updated.timelocks.public_withdrawal_after
            && updated.timelocks.public_withdrawal_after <= updated.timelocks.cancellation_after) {
            return Err(Error::InvalidTimelocks);
        }
        let htlc_id = hash_immutables(&updated);
        if self.htlcs.contains_key(&htlc_id) {
            return Err(Error::HtlcAlreadyExists);
        }
        let mut work = self.balances.duplicate();
        if work.hold(HoldReason::SwapAmount, who, updated.amount).is_err() {
            return Err(Error::InsufficientBalance);
        }
        if work.hold(HoldReason::SafetyDeposit, who, updated.safety_deposit).is_err() {
            return Err(Error::InsufficientBalance);
        }
        self.balances = work;
        let htlc = Htlc {
            immutables: updated,
            status: HtlcStatus::Active,
            htlc_type: HtlcType::Destination,
        };
        self.htlcs.insert(htlc_id, htlc);
        self.events.push(
            Event::HtlcCreated {
                htlc_id,
                hashlock: updated.hashlock,
                maker: updated.maker,
                taker: updated.taker,
                amount: updated.amount,
                safety_deposit: updated.safety_deposit,
            },
        );
        assert(self.log().drop_last() =~= old(self).log());
        proof {
            assert(account_of(old(self).ledger(), updated.taker).total() <= Balance::MAX);
            assert forall|r: HoldReason, a: AccountId| #[trigger] account_of(self.ledger(), a).held(r) >= escrows_commitment(self.escrow_records(), r, a) + intents_commitment(self.intent_records(), r, a) by {
                assert(account_of(old(self).ledger(), a).held(r) >= escrows_commitment(old(self).escrow_records(), r, a) + intents_commitment(old(self).intent_records(), r, a));
                lemma_dst_holds_held(old(self).ledger(), updated, r, a);
                lemma_escrows_push(old(self).escrow_records(), htlc, r, a);
            }
        }
        Ok(())
    }

    fn check_claim(&self, who: AccountId, immutables: &Immutables, secret: &Vec<u8>, public: bool) -> (r:
        Result<(H256, Htlc), Error>)
        requires
            self.wf(),
        ensures
            match r {
                Ok((id, h)) => self.claim_check(who, *immutables, secret@, public) == Ok::<
                    Htlc,
                    Error,
                >(h) && id.0@ == htlc_id_of(*immutables),
                Err(e) => self.claim_check(who, *immutables, secret@, public) == Err::<
                    Htlc,
                    Error,
                >(e),
            },
    {
        let htlc_id = hash_immutables(immutables);
        let h = match self.htlcs.get(&htlc_id) {
            Some(h) => h,
            None => return Err(Error::HtlcDoesNotExist),
        };
        if h.status != HtlcStatus::Active {
            return Err(Error::HtlcNotActive);
        }
        if !h.immutables.same_as(immutables) {
            return Err(Error::InvalidImmutables);
        }
        let secret_hash = blake2_256(secret.as_slice());
        if !h.immutables.hashlock.same_as(&secret_hash) {
            return Err(Error::InvalidSecret);
        }
        if !public && who != h.immutables.taker {
            return Err(Error::InvalidCaller);
        }
        if public && who == h.immutables.taker {
            return Err(Error::InvalidCaller);
        }
        let now = self.block_number;
        let t = h.immutables.timelocks;
        if !public && now < t.withdrawal_after {
            return Err(Error::EarlyWithdrawal);
        }
        if !public && now >= t.cancellation_after {
            return Err(Error::LateWithdrawal);
        }
        if public && now < t.public_withdrawal_after {
            return Err(Error::EarlyPublicWithdrawal);
        }
        if public && now >= t.cancellation_after {
            return Err(Error::LatePublicWithdrawal);
        }
        Ok((htlc_id, h))
    }

    /// The ledger after paying out `h`, or `None` where a custody step fails.
    fn apply_claim(&self, h: &Htlc, fee_to: Option<AccountId>) -> (r: Option<Balances>)
        requires
            self.wf(),
        ensures
            match r {
                Some(b) => b.wf() && claim_effect(self.ledger(), *h, fee_to) == Some(b@),
                None => claim_effect(self.ledger(), *h, fee_to) is None,
            },
    {
        let imm = h.immutables;
        let mut work = self.balances.duplicate();
        match h.htlc_type {
            HtlcType::Destination => {
                if work.release(HoldReason::SwapAmount, imm.taker, imm.amount).is_err() {
                    return None;
                }
                if work.transfer(imm.taker, imm.maker, imm.amount).is_err() {
                    return None;
                }
            },
            HtlcType::Source => {
                if work.release(HoldReason::MakerSwapIntentAmount, imm.maker, imm.amount).is_err() {
                    return None;
                }
                if work.transfer(imm.maker, imm.taker, imm.amount).is_err() {
                    return None;
                }
            },
        }
        if work.release(HoldReason::SafetyDeposit, imm.taker, imm.safety_deposit).is_err() {
            return None;
        }
        match fee_to {
            Some(c) => {
                if work.transfer(imm.taker, c, imm.safety_deposit).is_err() {
                    return None;
                }
            },
            None => {},
        }
        Some(work)
    }

    fn claim(&mut self, who: AccountId, immutables: Immutables, secret: Vec<u8>, public: bool) -> (r:
        Result<(), Error>)
        requires
            old(self).wf(),
        ensures
            final(self).wf(),
            r == old(self).claim_outcome(who, immutables, secret@, public),
            r is Ok ==> old(self).claimed(*final(self), who, immutables, secret@, public),
            r is Err ==> *final(self) == *old(self),
    {
        let (htlc_id, h) = match self.check_claim(who, &immutables, &secret, public) {
            Ok(found) => found,
            Err(e) => return Err(e),
        };
        let fee_to = if public {
            Some(who)
        } else {
            None
        };
        let work = match self.apply_claim(&h, fee_to) {
            Some(b) => b,
            None => return Err(Error::InsufficientBalance),
        };
        self.balances = work;
        let beneficiary = match h.htlc_type {
            HtlcType::Destination => h.immutables.maker,
            HtlcType::Source => h.immutables.taker,
        };
        self.htlcs.insert(htlc_id, Htlc { status: HtlcStatus::Completed, ..h });
        self.events.push(
            Event::HtlcWithdrawn {
                htlc_id,
                secret,
                amount: immutables.amount,
                beneficiary,
                safety_deposit_recipient: who,
            },
        );
        assert(self.log().drop_last() =~= old(self).log());
        assert(h == old(self).escrows()[htlc_id_of(immutables)]);
        proof {
            let newh = Htlc { status: HtlcStatus::Completed, ..h };
            let i = choose|i: int|
                0 <= i < old(self).escrow_records().len() && old(self).escrow_records()[i]
                    == old(self).escrows()[htlc_id.0@] && self.escrow_records() == old(
                    self,
                ).escrow_records().update(i, newh);
            assert forall|r: HoldReason, a: AccountId| #[trigger] account_of(self.ledger(), a).held(r) >= escrows_commitment(self.escrow_records(), r, a) + intents_commitment(self.intent_records(), r, a) by {
                assert(account_of(old(self).ledger(), a).held(r) >= escrows_commitment(old(self).escrow_records(), r, a) + intents_commitment(old(self).intent_records(), r, a));
                lemma_claim_held(old(self).ledger(), h, fee_to, r, a);
                lemma_escrows_update(old(self).escrow_records(), i, newh, r, a);
            }
        }
        Ok(())
    }

    /// The taker `who` withdraws with the secret during its exclusive window: the swap
    /// amount goes to the beneficiary and the safety deposit back to the taker.
    pub fn withdraw(&mut self, who: AccountId, immutables: Immutables, secret: Vec<u8>) -> (r: Result<
        (),
        Error,
    >)
        requires
            old(self).wf(),
        ensures
            final(self).wf(),
            r == old(self).claim_outcome(who, immutables, secret@, false),
            r is Ok ==> old(self).claimed(*final(self), who, immutables, secret@, false),
            r is Err ==> *final(self) == *old(self),
    {
        self.claim(who, immutables, secret, false)
    }

    /// Anyone but the taker withdraws with the secret during the public window: the swap
    /// amount goes to the beneficiary and the safety deposit to `who`.
    pub fn public_withdraw(&mut self, who: AccountId, immutables: Immutables, secret: Vec<u8>) -> (r:
        Result<(), Error>)
        requires
            old(self).wf(),
        ensures
            final(self).wf(),
            r == old(self).claim_outcome(who, immutables, secret@, true),
            r is Ok ==> old(self).claimed(*final(self), who, immutables, secret@, true),
            r is Err ==> *final(self) == *old(self),
    {
        self.claim(who, immutables, secret, true)
    }

    /// The ledger after refunding `h`, or `None` where a custody step fails.
    fn apply_refund(&self, h: &Htlc) -> (r: Option<Balances>)
        requires
            self.wf(),
        ensures
            match r {
                Some(b) => b.wf() && refund_effect(self.ledger(), *h) == Some(b@),
                None => refund_effect(self.ledger(), *h) is None,
            },
    {
        let imm = h.immutables;
        let mut work = self.balances.duplicate();
        let returned = match h.htlc_type {
            HtlcType::Destination => work.release(HoldReason::SwapAmount, imm.taker, imm.amount),
            HtlcType::Source => work.release(
                HoldReason::MakerSwapIntentAmount,
                imm.maker,
                imm.amount,
            ),
        };
        if returned.is_err() {
            return None;
        }
        if work.release(HoldReason::SafetyDeposit, imm.taker, imm.safety_deposit).is_err() {
            return None;
        }
        Some(work)
    }

    /// The taker `who` cancels once `cancellation_after` is reached: the swap amount goes
    /// back to whoever put it on hold and the safety deposit back to the taker.
    pub fn cancel(&mut self, who: AccountId, immutables: Immutables) -> (r: Result<(), Error>)
        requires
            old(self).wf(),
        ensures
            final(self).wf(),
            r == old(self).cancel_outcome(who, immutables),
            r is Ok ==> old(self).cancelled(*final(self), immutables),
            r is Err ==> *final(self) == *old(self),
    {
        let htlc_id = hash_immutables(&immutables);
        let h = match self.htlcs.get(&htlc_id) {
            Some(h) => h,
            None => return Err(Error::HtlcDoesNotExist),
        };
        if h.status != HtlcStatus::Active {
            return Err(Error::HtlcNotActive);
        }
        if !h.immutables.same_as(&immutables) {
            return Err(Error::InvalidImmutables);
        }
        if who != h.immutables.taker {
            return Err(Error::InvalidCaller);
        }
        if self.block_number < h.immutables.timelocks.cancellation_after {
            return Err(Error::EarlyCancellation);
        }
        let work = match self.apply_refund(&h) {
            Some(b) => b,
            None => return Err(Error::InsufficientBalance),
        };
        self.balances = work;
        let refund_recipient = match h.htlc_type {
            HtlcType::Destination => h.immutables.taker,
            HtlcType::Source => h.immutables.maker,
        };
        self.htlcs.insert(htlc_id, Htlc { status: HtlcStatus::Cancelled, ..h });
        self.events.push(Event::HtlcCancelled { htlc_id, refund_recipient });
        assert(self.log().drop_last() =~= old(self).log());
        proof {
            let newh = Htlc { status: HtlcStatus::Cancelled, ..h };
            let i = choose|i: int|
                0 <= i < old(self).escrow_records().len() && old(self).escrow_records()[i]
                    == old(self).escrows()[htlc_id.0@] && self.escrow_records() == old(
                    self,
                ).escrow_records().update(i, newh);
            assert forall|r: HoldReason, a: AccountId| #[trigger] account_of(self.ledger(), a).held(r) >= escrows_commitment(self.escrow_records(), r, a) + intents_commitment(self.intent_records(), r, a) by {
                assert(account_of(old(self).ledger(), a).held(r) >= escrows_commitment(old(self).escrow_records(), r, a) + intents_commitment(old(self).intent_records(), r, a));
                lemma_refund_held(old(self).ledger(), h, r, a);
                lemma_escrows_update(old(self).escrow_records(), i, newh, r, a);
            }
        }
        Ok(())
    }

    /// Storage key of the intent of `maker` with `nonce`.
    pub fn intent_key(maker: &AccountId, nonce: u64) -> (r: H256)
        ensures
            r.0@ == intent_key_of(*maker, nonce),
    {
        intent_key(*maker, nonce)
    }

    /// The maker `who` offers a swap: its source amount goes on hold.
    pub fn create_swap_intent(&mut self, who: AccountId, intent: SwapIntent) -> (r: Result<
        (),
        Error,
    >)
        requires
            old(self).wf(),
        ensures
            final(self).wf(),
            r == old(self).create_intent_outcome(who, intent),
            r is Ok ==> old(self).intent_created(*final(self), intent),
            r is Err ==> *final(self) == *old(self),
    {
        if who != intent.maker {
            return Err(Error::InvalidCaller);
        }
        let key = intent_key(who, intent.nonce);
        if self.swap_intents.contains_key(&key) {
            return Err(Error::IntentAlreadyExists);
        }
        let mut work = self.balances.duplicate();
        if work.hold(HoldReason::MakerSwapIntentAmount, who, intent.src_amount).is_err() {
            return Err(Error::InsufficientBalance);
        }
        self.balances = work;
        let stored = StoredSwapIntent {
            intent,
            status: IntentStatus::Active,
            created_at: self.block_number,
        };
        self.swap_intents.insert(key, stored);
        self.events.push(
            Event::SwapIntentCreated {
                maker: who,
                nonce: intent.nonce,
                src_amount: intent.src_amount,
                dst_amount: intent.dst_amount,
                dst_address: intent.dst_address,
                hashlock: intent.hashlock,
            },
        );
        assert(self.log().drop_last() =~= old(self).log());
        proof {
            assert(account_of(old(self).ledger(), who).total() <= Balance::MAX);
            assert forall|r: HoldReason, a: AccountId| #[trigger] account_of(self.ledger(), a).held(r) >= escrows_commitment(self.escrow_records(), r, a) + intents_commitment(self.intent_records(), r, a) by {
                assert(account_of(old(self).ledger(), a).held(r) >= escrows_commitment(old(self).escrow_records(), r, a) + intents_commitment(old(self).intent_records(), r, a));
                lemma_hold_held(old(self).ledger(), HoldReason::MakerSwapIntentAmount, who, intent.src_amount, r, a);
                lemma_intents_push(old(self).intent_records(), stored, r, a);
            }
        }
        Ok(())
    }

    /// The maker `who` withdraws its active intent with `nonce`: the source amount
    /// leaves its hold.
    pub fn cancel_swap_intent(&mut self, who: AccountId, nonce: u64) -> (r: Result<(), Error>)
        requires
            old(self).wf(),
        ensures
            final(self).wf(),
            r == old(self).cancel_intent_outcome(who, nonce),
            r is Ok ==> old(self).intent_cancelled(*final(self), who, nonce),
            r is Err ==> *final(self) == *old(self),
    {
        let key = intent_key(who, nonce);
        let stored = match self.swap_intents.get(&key) {
            Some(s) => s,
            None => return Err(Error::IntentDoesNotExists),
        };
        match stored.status {
            IntentStatus::Active => {},
            _ => return Err(Error::IntentNotActive),
        }
        if who != stored.intent.maker {
            return Err(Error::InvalidCaller);
        }
        let mut work = self.balances.duplicate();
        if work.release(HoldReason::MakerSwapIntentAmount, who, stored.intent.src_amount).is_err() {
            return Err(Error::InsufficientBalance);
        }
        self.balances = work;
        self.swap_intents.insert(key, StoredSwapIntent { status: IntentStatus::Cancelled, ..stored });
        self.events.push(
            Event::SwapIntentCancelled {
                maker: who,
                nonce,
                src_amount: stored.intent.src_amount,
                dst_amount: stored.intent.dst_amount,
                dst_address: stored.intent.dst_address,
                hashlock: stored.intent.hashlock,
            },
        );
        assert(self.log().drop_last() =~= old(self).log());
        proof {
            let news = StoredSwapIntent { status: IntentStatus::Cancelled, ..stored };
            let i = choose|i: int|
                0 <= i < old(self).intent_records().len() && old(self).intent_records()[i]
                    == old(self).intents()[key.0@] && self.intent_records() == old(
                    self,
                ).intent_records().update(i, news);
            assert forall|r: HoldReason, a: AccountId| #[trigger] account_of(self.ledger(), a).held(r) >= escrows_commitment(self.escrow_records(), r, a) + intents_commitment(self.intent_records(), r, a) by {
                assert(account_of(old(self).ledger(), a).held(r) >= escrows_commitment(old(self).escrow_records(), r, a) + intents_commitment(old(self).intent_records(), r, a));
                lemma_release_held(old(self).ledger(), HoldReason::MakerSwapIntentAmount, who, stored.intent.src_amount, r, a);
                lemma_intents_update(old(self).intent_records(), i, news, r, a);
            }
        }
        Ok(())
    }

    /// The resolver `who` takes up the active intent of `maker` with `nonce`: it creates
    /// the source escrow over the maker's held amount and puts its safety deposit on
    /// hold. The escrow's deployment height is the current height. The intent moves to
    /// `InProgress` with the new escrow, so no other resolver can take it up and its
    /// maker cannot cancel it while the escrow holds its funds.
    pub fn create_src_htlc(
        &mut self,
        who: AccountId,
        maker: AccountId,
        nonce: u64,
        timelocks: Timelocks,
        safety_deposit: Balance,
    ) -> (r: Result<(), Error>)
        requires
            old(self).wf(),
        ensures
            final(self).wf(),
            r == old(self).create_src_outcome(who, maker, nonce, timelocks, safety_deposit),
            r is Ok ==> old(self).src_created(
                *final(self),
                who,
                maker,
                nonce,
                timelocks,
                safety_deposit,
            ),
            r is Err ==> *final(self) == *old(self),
    {
        if safety_deposit < self.config.min_safety_deposit {
            return Err(Error::HigherSafetyDepositRequired);
        }
        let key = intent_key(maker, nonce);
        let stored = match self.swap_intents.get(&key) {
            Some(s) => s,
            None => return Err(Error::IntentDoesNotExists),
        };
        match stored.status {
            IntentStatus::Active => {},
            _ => return Err(Error::IntentNotActive),
        }
        if self.block_number > stored.intent.timeout_after_block {
            return Err(Error::IntentExpired);
        }
        let mut timelocks = timelocks;
        timelocks.deployed_at = self.block_number;
        if !(timelocks.deployed_at <= timelocks.withdrawal_after && timelocks.withdrawal_after
            <= timelocks.public_withdrawal_after && timelocks.public_withdrawal_after
            <= timelocks.cancellation_after) {
            return Err(Error::InvalidTimelocks);
        }
        let immutables = Immutables {
            order_hash: key,
            hashlock: stored.intent.hashlock,
            maker: stored.intent.maker,
            taker: who,
            amount: stored.intent.src_amount,
            safety_deposit,
            timelocks,
        };
        proof {
            lemma_h256_of(key);
        }
        assert(immutables == src_immutables(key.0@, stored, who, timelocks, safety_deposit));
        let htlc_id = hash_immutables(&immutables);
        if self.htlcs.contains_key(&htlc_id) {
            return Err(Error::HtlcAlreadyExists);
        }
        let mut work = self.balances.duplicate();
        if work.hold(HoldReason::SafetyDeposit, who, safety_deposit).is_err() {
            return Err(Error::InsufficientBalance);
        }
        self.balances = work;
        let htlc = Htlc { immutables, status: HtlcStatus::Active, htlc_type: HtlcType::Source };
        self.htlcs.insert(htlc_id, htlc);
        self.swap_intents.insert(
            key,
            StoredSwapIntent {
                status: IntentStatus::InProgress { resolver: who, htlc_id },
                ..stored
            },
        );
        proof {
            lemma_h256_of(htlc_id);
        }
        self.events.push(
            Event::HtlcCreated {
                htlc_id,
                hashlock: stored.intent.hashlock,
                maker: stored.intent.maker,
                taker: who,
                amount: stored.intent.src_amount,
                safety_deposit,
            },
        );
        assert(self.log().drop_last() =~= old(self).log());
        proof {
            assert(account_of(old(self).ledger(), who).total() <= Balance::MAX);
            let news = StoredSwapIntent {
                status: IntentStatus::InProgress { resolver: who, htlc_id },
                ..stored
            };
            let i = choose|i: int|
                0 <= i < old(self).intent_records().len() && old(self).intent_records()[i]
                    == old(self).intents()[key.0@] && self.intent_records() == old(
                    self,
                ).intent_records().update(i, news);
            assert forall|r: HoldReason, a: AccountId| #[trigger] account_of(self.ledger(), a).held(r) >= escrows_commitment(self.escrow_records(), r, a) + intents_commitment(self.intent_records(), r, a) by {
                assert(account_of(old(self).ledger(), a).held(r) >= escrows_commitment(old(self).escrow_records(), r, a) + intents_commitment(old(self).intent_records(), r, a));
                lemma_hold_held(old(self).ledger(), HoldReason::SafetyDeposit, who, safety_deposit, r, a);
                lemma_escrows_push(old(self).escrow_records(), htlc, r, a);
                lemma_intents_update(old(self).intent_records(), i, news, r, a);
            }
        }
        Ok(())
    }
}

} // verus!
