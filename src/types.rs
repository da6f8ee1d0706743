use vstd::prelude::*;

verus! {

/// A 256-bit hash: escrow ids, intent keys, hashlocks and order hashes.
#[derive(Clone, Copy, Debug)]
pub struct H256(pub [u8; 32]);

/// A 160-bit address on the destination chain.
#[derive(Clone, Copy, Debug, PartialEq, Eq)]
pub struct H160(pub [u8; 20]);

impl H256 {
    /// Compares two hashes byte by byte.
    pub fn same_as(&self, other: &H256) -> (r: bool)
        ensures
            r == (*self == *other),
            r == (self.0@ == other.0@),
    {
        let mut i: usize = 0;
        while i < 32
            invariant
                0 <= i <= 32,
                forall|j: int| 0 <= j < i ==> self.0[j] == other.0[j],
            decreases 32 - i,
        {
            if self.0[i] != other.0[i] {
                return false;
            }
            i = i + 1;
        }
        assert(self.0 =~= other.0);
        true
    }
}

impl PartialEq for H256 {
    fn eq(&self, other: &H256) -> (r: bool) {
        self.same_as(other)
    }
}

impl vstd::std_specs::cmp::PartialEqSpecImpl for H256 {
    open spec fn obeys_eq_spec() -> bool {
        true
    }

    open spec fn eq_spec(&self, other: &H256) -> bool {
        *self == *other
    }
}

impl Eq for H256 {
}

/// Ledger account identifier.
pub type AccountId = u64;

/// Amount of the native token.
pub type Balance = u128;

/// Ledger height.
pub type BlockNumber = u64;

/// Why funds are held by the custody ledger.
#[derive(Clone, Copy, Debug, PartialEq, Eq, Structural)]
pub enum HoldReason {
    /// The funds for the recipient of the swap.
    SwapAmount,
    /// The safety deposit; goes to whoever performs the withdrawal.
    SafetyDeposit,
    /// Amount held from the maker for each swap intent.
    MakerSwapIntentAmount,
}

/// Timelock schedule of an escrow, as ledger heights.
#[derive(Clone, Copy, Debug, PartialEq, Eq, Structural)]
pub struct Timelocks {
    /// Height at which the escrow was created.
    pub deployed_at: BlockNumber,
    /// The taker may withdraw from this height on.
    pub withdrawal_after: BlockNumber,
    /// Anyone but the taker may withdraw from this height on.
    pub public_withdrawal_after: BlockNumber,
    /// The taker may cancel from this height on; no withdrawal is possible any more.
    pub cancellation_after: BlockNumber,
}

impl Timelocks {
    /// `deployed_at <= withdrawal_after <= public_withdrawal_after <= cancellation_after`.
    pub open spec fn well_ordered(self) -> bool {
        self.deployed_at <= self.withdrawal_after <= self.public_withdrawal_after
            <= self.cancellation_after
    }
}

/// The parameters that identify an escrow and fix its rules.
#[derive(Clone, Copy, Debug)]
pub struct Immutables {
    /// Hash of the cross-chain order.
    pub order_hash: H256,
    /// Hash of the maker's secret.
    pub hashlock: H256,
    /// The maker of the swap (on the source chain).
    pub maker: AccountId,
    /// The resolver who completes the swap.
    pub taker: AccountId,
    /// Amount of tokens to swap.
    pub amount: Balance,
    /// Safety deposit in the native token.
    pub safety_deposit: Balance,
    /// Timelock schedule.
    pub timelocks: Timelocks,
}

impl Immutables {
    /// Compares every field.
    pub fn same_as(&self, other: &Immutables) -> (r: bool)
        ensures
            r == (*self == *other),
    {
        self.order_hash.same_as(&other.order_hash) && self.hashlock.same_as(&other.hashlock)
            && self.maker == other.maker && self.taker == other.taker && self.amount
            == other.amount && self.safety_deposit == other.safety_deposit && self.timelocks
            == other.timelocks
    }
}

impl PartialEq for Immutables {
    fn eq(&self, other: &Immutables) -> (r: bool) {
        self.same_as(other)
    }
}

impl vstd::std_specs::cmp::PartialEqSpecImpl for Immutables {
    open spec fn obeys_eq_spec() -> bool {
        true
    }

    open spec fn eq_spec(&self, other: &Immutables) -> bool {
        *self == *other
    }
}

impl Eq for Immutables {
}

/// Lifecycle of an escrow. `Completed` and `Cancelled` are terminal.
#[derive(Clone, Copy, Debug, PartialEq, Eq, Structural)]
pub enum HtlcStatus {
    Active,
    Completed,
    Cancelled,
}

/// Which side of the swap an escrow is on; decides where the funds flow.
#[derive(Clone, Copy, Debug, PartialEq, Eq, Structural)]
pub enum HtlcType {
    /// The maker's funds, held under its swap intent, go to the taker.
    Source,
    /// The taker's funds go to the maker.
    Destination,
}

/// An escrow record, keyed by the hash of its immutables.
#[derive(Clone, Copy, Debug, PartialEq, Eq)]
pub struct Htlc {
    pub immutables: Immutables,
    pub status: HtlcStatus,
    pub htlc_type: HtlcType,
}

/// A maker's request to swap, waiting for a resolver.
#[derive(Clone, Copy, Debug, PartialEq, Eq)]
pub struct SwapIntent {
    pub hashlock: H256,
    /// Account that wants to swap.
    pub maker: AccountId,
    /// Amount the maker provides.
    pub src_amount: Balance,
    /// Amount the maker wants to receive.
    pub dst_amount: Balance,
    /// Address on the destination chain.
    pub dst_address: H160,
    /// Last height at which a resolver may take up the intent.
    pub timeout_after_block: BlockNumber,
    /// Tells apart the intents of one maker.
    pub nonce: u64,
}

/// Lifecycle of a swap intent.
#[derive(Clone, Copy, Debug, PartialEq, Eq)]
pub enum IntentStatus {
    /// Available for resolvers.
    Active,
    /// A resolver created the source escrow.
    InProgress { resolver: AccountId, htlc_id: H256 },
    /// Completed successfully.
    Completed,
    /// Cancelled by the maker.
    Cancelled,
    /// Expired without fulfilment.
    Expired,
}

/// A swap intent as stored, keyed by the hash of its maker and nonce.
#[derive(Clone, Copy, Debug, PartialEq, Eq)]
pub struct StoredSwapIntent {
    pub intent: SwapIntent,
    pub status: IntentStatus,
    pub created_at: BlockNumber,
}

/// Notification of a successful call.
#[derive(Clone, Debug, PartialEq, Eq)]
pub enum Event {
    HtlcCreated {
        htlc_id: H256,
        hashlock: H256,
        maker: AccountId,
        taker: AccountId,
        amount: Balance,
        safety_deposit: Balance,
    },
    /// Reveals the secret, which unlocks the paired escrow on the other ledger.
    HtlcWithdrawn {
        htlc_id: H256,
        secret: Vec<u8>,
        amount: Balance,
        beneficiary: AccountId,
        safety_deposit_recipient: AccountId,
    },
    HtlcCancelled { htlc_id: H256, refund_recipient: AccountId },
    SwapIntentCreated {
        maker: AccountId,
        nonce: u64,
        src_amount: Balance,
        dst_amount: Balance,
        dst_address: H160,
        hashlock: H256,
    },
    SwapIntentCancelled {
        maker: AccountId,
        nonce: u64,
        src_amount: Balance,
        dst_amount: Balance,
        dst_address: H160,
        hashlock: H256,
    },
}

/// Why a call was refused.
#[derive(Clone, Copy, Debug, PartialEq, Eq, Structural)]
pub enum Error {
    /// No value was present.
    NoneValue,
    /// Invalid caller for the operation.
    InvalidCaller,
    /// Invalid timelock configuration.
    InvalidTimelocks,
    /// The provided immutables do not match the stored ones.
    InvalidImmutables,
    /// The hash of the provided secret does not match the hashlock.
    InvalidSecret,
    /// The custody ledger cannot hold, release or move the funds.
    InsufficientBalance,
    /// Withdrawal before `withdrawal_after`.
    EarlyWithdrawal,
    /// Public withdrawal before `public_withdrawal_after`.
    EarlyPublicWithdrawal,
    /// Cancellation before `cancellation_after`.
    EarlyCancellation,
    /// Withdrawal at or after `cancellation_after`.
    LateWithdrawal,
    /// Public withdrawal at or after `cancellation_after`.
    LatePublicWithdrawal,
    /// An escrow with these immutables already exists.
    HtlcAlreadyExists,
    /// No escrow with these immutables exists.
    HtlcDoesNotExist,
    /// The escrow is completed or cancelled.
    HtlcNotActive,
    /// An intent with this maker and nonce already exists.
    IntentAlreadyExists,
    /// No intent with this maker and nonce exists.
    IntentDoesNotExists,
    /// The intent is not active.
    IntentNotActive,
    /// The intent timed out.
    IntentExpired,
    /// The safety deposit is below the configured minimum.
    HigherSafetyDepositRequired,
}

} // verus!
