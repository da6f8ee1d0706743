use pallet_htlc::identity::{encode_immutables, encode_intent_key};
use pallet_htlc::{
    Balances, Config, Error, Event, HoldReason, HtlcStatus, HtlcType, Immutables, IntentStatus,
    LedgerError, Pallet, SwapIntent, Timelocks, H160, H256,
};
use sp_io::hashing::blake2_256;

const A: u64 = 1;
const B: u64 = 2;
const C: u64 = 3;
const START: u128 = 1_000_000;

fn engine() -> Pallet {
    let mut p = Pallet::new(Config { min_safety_deposit: 50 });
    p.set_balance(A, START);
    p.set_balance(B, START);
    p.set_balance(C, START);
    p.set_block_number(1);
    p
}

fn hash(word: &[u8]) -> H256 {
    H256(blake2_256(word))
}

fn schedule(deployed_at: u64) -> Timelocks {
    Timelocks {
        deployed_at,
        withdrawal_after: 101,
        public_withdrawal_after: 201,
        cancellation_after: 301,
    }
}

fn reference_immutables() -> Immutables {
    Immutables {
        order_hash: hash(b"order"),
        hashlock: hash(b"secret"),
        maker: A,
        taker: B,
        amount: 1000,
        safety_deposit: 100,
        timelocks: schedule(1),
    }
}

fn with_escrow() -> (Pallet, Immutables) {
    let mut p = engine();
    let imm = reference_immutables();
    assert_eq!(p.create_dst_htlc(B, imm, 400), Ok(()));
    (p, imm)
}

fn intent(nonce: u64, timeout: u64) -> SwapIntent {
    SwapIntent {
        hashlock: hash(b"secret"),
        maker: A,
        src_amount: 1000,
        dst_amount: 2000,
        dst_address: H160([7u8; 20]),
        timeout_after_block: timeout,
        nonce,
    }
}

#[test]
fn reference_escrow_withdrawn_by_taker() {
    let (mut p, imm) = with_escrow();
    assert_eq!(p.balances().free_balance(B), START - 1100);
    for h in [1u64, 50, 100] {
        p.set_block_number(h);
        assert_eq!(p.withdraw(B, imm, b"secret".to_vec()), Err(Error::EarlyWithdrawal));
    }
    p.set_block_number(111);
    assert_eq!(p.withdraw(B, imm, b"secret".to_vec()), Ok(()));
    assert_eq!(p.balances().free_balance(A), START + 1000);
    assert_eq!(p.balances().free_balance(B), START - 1000);
    assert_eq!(p.balances().total_balance_on_hold(B), 0);
    let id = Pallet::hash_immutables(&imm);
    assert_eq!(p.htlc(&id).unwrap().status, HtlcStatus::Completed);
}

#[test]
fn reference_escrow_rescued_by_third_party() {
    let (mut p, imm) = with_escrow();
    p.set_block_number(211);
    assert_eq!(p.public_withdraw(C, imm, b"secret".to_vec()), Ok(()));
    assert_eq!(p.balances().free_balance(A), START + 1000);
    assert_eq!(p.balances().free_balance(B), START - 1100);
    assert_eq!(p.balances().free_balance(C), START + 100);
    assert_eq!(p.balances().total_balance_on_hold(B), 0);
    let id = Pallet::hash_immutables(&imm);
    assert_eq!(p.htlc(&id).unwrap().status, HtlcStatus::Completed);
}

#[test]
fn reference_escrow_cancelled_by_taker() {
    let (mut p, imm) = with_escrow();
    p.set_block_number(311);
    assert_eq!(p.cancel(B, imm), Ok(()));
    assert_eq!(p.balances().free_balance(B), START);
    assert_eq!(p.balances().total_balance_on_hold(B), 0);
    let id = Pallet::hash_immutables(&imm);
    assert_eq!(p.htlc(&id).unwrap().status, HtlcStatus::Cancelled);
    assert_eq!(p.cancel(B, imm), Err(Error::HtlcNotActive));
    assert_eq!(p.public_withdraw(C, imm, b"secret".to_vec()), Err(Error::HtlcNotActive));
}

#[test]
fn intent_cancelled_before_fulfilment_returns_funds() {
    let mut p = engine();
    assert_eq!(p.create_swap_intent(A, intent(5, 1000)), Ok(()));
    assert_eq!(p.balances().free_balance(A), START - 1000);
    assert_eq!(p.cancel_swap_intent(A, 5), Ok(()));
    assert_eq!(p.balances().free_balance(A), START);
    let key = Pallet::intent_key(&A, 5);
    assert_eq!(p.swap_intent(&key).unwrap().status, IntentStatus::Cancelled);
    assert_eq!(p.cancel_swap_intent(A, 5), Err(Error::IntentNotActive));
}

#[test]
fn second_creation_with_same_content_fails() {
    let (mut p, imm) = with_escrow();
    assert_eq!(p.create_dst_htlc(B, imm, 400), Err(Error::HtlcAlreadyExists));
    assert_eq!(p.balances().free_balance(B), START - 1100);
    // a later height stamps another deployment height: another escrow
    p.set_block_number(2);
    assert_eq!(p.create_dst_htlc(B, imm, 400), Ok(()));
    assert_eq!(p.balances().free_balance(B), START - 2200);
}

#[test]
fn creation_stamps_deployment_height() {
    let mut p = engine();
    p.set_block_number(7);
    let imm = reference_immutables();
    assert_eq!(p.create_dst_htlc(B, imm, 400), Ok(()));
    let mut stamped = imm;
    stamped.timelocks.deployed_at = 7;
    let id = Pallet::hash_immutables(&stamped);
    assert_eq!(p.htlc(&id).unwrap().immutables, stamped);
    assert!(p.htlc(&Pallet::hash_immutables(&imm)).is_none());
}

#[test]
fn create_dst_errors() {
    let mut p = engine();
    let imm = reference_immutables();
    assert_eq!(p.create_dst_htlc(A, imm, 400), Err(Error::InvalidCaller));
    let mut low = imm;
    low.safety_deposit = 49;
    assert_eq!(p.create_dst_htlc(B, low, 400), Err(Error::HigherSafetyDepositRequired));
    assert_eq!(p.create_dst_htlc(B, imm, 300), Err(Error::InvalidTimelocks));
    p.set_block_number(102);
    assert_eq!(p.create_dst_htlc(B, imm, 400), Err(Error::InvalidTimelocks));
    p.set_block_number(1);
    let mut disordered = imm;
    disordered.timelocks.public_withdrawal_after = 90;
    assert_eq!(p.create_dst_htlc(B, disordered, 400), Err(Error::InvalidTimelocks));
    let mut big = imm;
    big.amount = START - 99;
    assert_eq!(p.create_dst_htlc(B, big, 400), Err(Error::InsufficientBalance));
    // nothing stays on hold after the refused call
    assert_eq!(p.balances().total_balance_on_hold(B), 0);
    assert_eq!(p.balances().free_balance(B), START);
    assert!(p.events().is_empty());
}

#[test]
fn withdraw_errors() {
    let (mut p, imm) = with_escrow();
    p.set_block_number(111);
    let mut other = imm;
    other.amount = 999;
    assert_eq!(p.withdraw(B, other, b"secret".to_vec()), Err(Error::HtlcDoesNotExist));
    assert_eq!(p.withdraw(B, imm, b"wrong".to_vec()), Err(Error::InvalidSecret));
    assert_eq!(p.withdraw(C, imm, b"secret".to_vec()), Err(Error::InvalidCaller));
    p.set_block_number(301);
    assert_eq!(p.withdraw(B, imm, b"secret".to_vec()), Err(Error::LateWithdrawal));
    assert_eq!(p.public_withdraw(C, imm, b"secret".to_vec()), Err(Error::LatePublicWithdrawal));
    p.set_block_number(211);
    assert_eq!(p.public_withdraw(B, imm, b"secret".to_vec()), Err(Error::InvalidCaller));
    assert_eq!(p.public_withdraw(C, imm, b"wrong".to_vec()), Err(Error::InvalidSecret));
    assert_eq!(p.cancel(C, imm), Err(Error::InvalidCaller));
    assert_eq!(p.cancel(B, other), Err(Error::HtlcDoesNotExist));
}

#[test]
fn intent_errors() {
    let mut p = engine();
    assert_eq!(p.create_swap_intent(B, intent(0, 1000)), Err(Error::InvalidCaller));
    let mut huge = intent(0, 1000);
    huge.src_amount = START + 1;
    assert_eq!(p.create_swap_intent(A, huge), Err(Error::InsufficientBalance));
    assert_eq!(p.create_swap_intent(A, intent(0, 1000)), Ok(()));
    assert_eq!(p.create_swap_intent(A, intent(0, 1000)), Err(Error::IntentAlreadyExists));
    assert_eq!(p.cancel_swap_intent(A, 1), Err(Error::IntentDoesNotExists));
    assert_eq!(p.cancel_swap_intent(B, 0), Err(Error::IntentDoesNotExists));
}

#[test]
fn create_src_errors() {
    let mut p = engine();
    assert_eq!(p.create_swap_intent(A, intent(0, 10)), Ok(()));
    assert_eq!(p.create_src_htlc(B, A, 0, schedule(1), 49), Err(Error::HigherSafetyDepositRequired));
    assert_eq!(p.create_src_htlc(B, A, 1, schedule(1), 100), Err(Error::IntentDoesNotExists));
    let mut bad = schedule(1);
    bad.withdrawal_after = 250;
    assert_eq!(p.create_src_htlc(B, A, 0, bad, 100), Err(Error::InvalidTimelocks));
    p.set_balance(C, 10);
    assert_eq!(p.create_src_htlc(C, A, 0, schedule(1), 100), Err(Error::InsufficientBalance));
    p.set_block_number(11);
    assert_eq!(p.create_src_htlc(B, A, 0, schedule(1), 100), Err(Error::IntentExpired));
    assert_eq!(p.create_swap_intent(A, intent(1, 1000)), Ok(()));
    // the withdrawal window may not open before the escrow is deployed
    p.set_block_number(102);
    assert_eq!(p.create_src_htlc(B, A, 1, schedule(1), 100), Err(Error::InvalidTimelocks));
    p.set_block_number(5);
    assert_eq!(p.create_src_htlc(B, A, 1, schedule(1), 100), Ok(()));
    // the intent is taken up: no second escrow, no cancellation by the maker
    assert_eq!(p.create_src_htlc(B, A, 1, schedule(1), 100), Err(Error::IntentNotActive));
    assert_eq!(p.create_src_htlc(C, A, 1, schedule(1), 100), Err(Error::IntentNotActive));
    assert_eq!(p.cancel_swap_intent(A, 1), Err(Error::IntentNotActive));
    assert_eq!(p.cancel_swap_intent(A, 0), Ok(()));
    assert_eq!(p.create_src_htlc(B, A, 0, schedule(1), 100), Err(Error::IntentNotActive));
}

#[test]
fn source_escrow_marks_intent_in_progress() {
    let mut p = engine();
    assert_eq!(p.create_swap_intent(A, intent(3, 1000)), Ok(()));
    p.set_block_number(4);
    assert_eq!(p.create_src_htlc(B, A, 3, schedule(0), 100), Ok(()));
    let key = Pallet::intent_key(&A, 3);
    let mut tl = schedule(0);
    tl.deployed_at = 4;
    let imm = Immutables {
        order_hash: key,
        hashlock: hash(b"secret"),
        maker: A,
        taker: B,
        amount: 1000,
        safety_deposit: 100,
        timelocks: tl,
    };
    let id = Pallet::hash_immutables(&imm);
    assert_eq!(p.htlc(&id).unwrap().immutables.timelocks.deployed_at, 4);
    assert_eq!(
        p.swap_intent(&key).unwrap().status,
        IntentStatus::InProgress { resolver: B, htlc_id: id }
    );
}

#[test]
fn source_escrow_pays_taker() {
    let mut p = engine();
    assert_eq!(p.create_swap_intent(A, intent(3, 1000)), Ok(()));
    p.set_block_number(2);
    assert_eq!(p.create_src_htlc(B, A, 3, schedule(1), 100), Ok(()));
    let imm = Immutables {
        order_hash: Pallet::intent_key(&A, 3),
        hashlock: hash(b"secret"),
        maker: A,
        taker: B,
        amount: 1000,
        safety_deposit: 100,
        timelocks: schedule(2),
    };
    let id = Pallet::hash_immutables(&imm);
    assert_eq!(p.htlc(&id).unwrap().htlc_type, HtlcType::Source);
    p.set_block_number(150);
    assert_eq!(p.withdraw(B, imm, b"secret".to_vec()), Ok(()));
    assert_eq!(p.balances().free_balance(A), START - 1000);
    assert_eq!(p.balances().balance_on_hold(HoldReason::MakerSwapIntentAmount, A), 0);
    assert_eq!(p.balances().free_balance(B), START + 1000);
    assert_eq!(p.balances().total_balance_on_hold(B), 0);
    assert_eq!(
        p.events().last(),
        Some(&Event::HtlcWithdrawn {
            htlc_id: id,
            secret: b"secret".to_vec(),
            amount: 1000,
            beneficiary: B,
            safety_deposit_recipient: B,
        })
    );
}

#[test]
fn source_escrow_cancel_returns_to_maker() {
    let mut p = engine();
    assert_eq!(p.create_swap_intent(A, intent(3, 1000)), Ok(()));
    assert_eq!(p.create_src_htlc(B, A, 3, schedule(1), 100), Ok(()));
    let imm = Immutables {
        order_hash: Pallet::intent_key(&A, 3),
        hashlock: hash(b"secret"),
        maker: A,
        taker: B,
        amount: 1000,
        safety_deposit: 100,
        timelocks: schedule(1),
    };
    // the maker cannot take back the amount that backs the escrow
    assert_eq!(p.cancel_swap_intent(A, 3), Err(Error::IntentNotActive));
    assert_eq!(p.balances().balance_on_hold(HoldReason::MakerSwapIntentAmount, A), 1000);
    p.set_block_number(301);
    assert_eq!(p.cancel(B, imm), Ok(()));
    assert_eq!(p.balances().free_balance(A), START);
    assert_eq!(p.balances().free_balance(B), START);
    let id = Pallet::hash_immutables(&imm);
    assert_eq!(p.events().last(), Some(&Event::HtlcCancelled { htlc_id: id, refund_recipient: A }));
}

#[test]
fn encoding_layout() {
    let imm = Immutables {
        order_hash: H256([1u8; 32]),
        hashlock: H256([2u8; 32]),
        maker: 0x0102,
        taker: 3,
        amount: 0x0a0b,
        safety_deposit: 4,
        timelocks: Timelocks {
            deployed_at: 5,
            withdrawal_after: 6,
            public_withdrawal_after: 7,
            cancellation_after: u64::MAX,
        },
    };
    let e = encode_immutables(&imm);
    let mut expected: Vec<u8> = Vec::new();
    expected.extend_from_slice(&[1u8; 32]);
    expected.extend_from_slice(&[2u8; 32]);
    expected.extend_from_slice(&0x0102u64.to_le_bytes());
    expected.extend_from_slice(&3u64.to_le_bytes());
    expected.extend_from_slice(&0x0a0bu128.to_le_bytes());
    expected.extend_from_slice(&4u128.to_le_bytes());
    expected.extend_from_slice(&5u64.to_le_bytes());
    expected.extend_from_slice(&6u64.to_le_bytes());
    expected.extend_from_slice(&7u64.to_le_bytes());
    expected.extend_from_slice(&u64::MAX.to_le_bytes());
    assert_eq!(e.len(), 144);
    assert_eq!(e, expected);
    assert_eq!(Pallet::hash_immutables(&imm), H256(blake2_256(&expected)));
}

#[test]
fn intent_key_is_hash_of_maker_and_nonce() {
    let mut data = 42u64.to_le_bytes().to_vec();
    data.extend_from_slice(&9u64.to_le_bytes());
    assert_eq!(encode_intent_key(42, 9), data);
    assert_eq!(Pallet::intent_key(&42, 9), H256(blake2_256(&data)));
    assert_ne!(Pallet::intent_key(&42, 9), Pallet::intent_key(&42, 10));
    assert_ne!(Pallet::intent_key(&42, 9), Pallet::intent_key(&43, 9));
}

#[test]
fn escrow_ids_differ_over_corpus() {
    let base = reference_immutables();
    let mut corpus: Vec<Immutables> = vec![base];
    let mut v = base;
    v.order_hash = hash(b"other order");
    corpus.push(v);
    let mut v = base;
    v.hashlock = hash(b"other secret");
    corpus.push(v);
    let mut v = base;
    v.maker = 9;
    corpus.push(v);
    let mut v = base;
    v.taker = 9;
    corpus.push(v);
    let mut v = base;
    v.amount = 1001;
    corpus.push(v);
    let mut v = base;
    v.safety_deposit = 101;
    corpus.push(v);
    for h in 0..8u64 {
        let mut v = base;
        v.timelocks.deployed_at = 1000 + h;
        corpus.push(v);
        let mut v = base;
        v.timelocks.withdrawal_after = 1000 + h;
        corpus.push(v);
        let mut v = base;
        v.timelocks.public_withdrawal_after = 1000 + h;
        corpus.push(v);
        let mut v = base;
        v.timelocks.cancellation_after = 1000 + h;
        corpus.push(v);
    }
    let ids: Vec<H256> = corpus.iter().map(Pallet::hash_immutables).collect();
    for i in 0..corpus.len() {
        // the same content always gives the same id
        assert_eq!(Pallet::hash_immutables(&corpus[i]), ids[i]);
        for j in 0..corpus.len() {
            if i != j {
                assert_ne!(corpus[i], corpus[j]);
                assert_ne!(ids[i], ids[j]);
            }
        }
    }
}

#[test]
fn secret_hash_checked_against_hashlock() {
    let (mut p, imm) = with_escrow();
    p.set_block_number(111);
    // the hashlock is the hash of the secret, not the secret itself
    assert_eq!(p.withdraw(B, imm, imm.hashlock.0.to_vec()), Err(Error::InvalidSecret));
    assert_eq!(p.withdraw(B, imm, b"secret".to_vec()), Ok(()));
}

#[test]
fn ledger_operations() {
    let mut l = Balances::new();
    l.set_balance(A, 100);
    assert_eq!(l.hold(HoldReason::SwapAmount, A, 101), Err(LedgerError::InsufficientFree));
    assert_eq!(l.hold(HoldReason::SwapAmount, A, 60), Ok(()));
    assert_eq!(l.free_balance(A), 40);
    assert_eq!(l.balance_on_hold(HoldReason::SwapAmount, A), 60);
    assert_eq!(l.balance_on_hold(HoldReason::SafetyDeposit, A), 0);
    assert_eq!(l.release(HoldReason::SafetyDeposit, A, 1), Err(LedgerError::InsufficientHeld));
    assert_eq!(l.release(HoldReason::SwapAmount, A, 10), Ok(()));
    assert_eq!(l.free_balance(A), 50);
    assert_eq!(l.total_balance_on_hold(A), 50);
    assert_eq!(l.transfer(A, B, 51), Err(LedgerError::InsufficientFree));
    assert_eq!(l.transfer(A, B, 20), Ok(()));
    assert_eq!(l.free_balance(A), 30);
    assert_eq!(l.free_balance(B), 20);
    assert_eq!(l.transfer(A, A, 30), Ok(()));
    assert_eq!(l.free_balance(A), 30);
    l.set_balance(C, u128::MAX);
    assert_eq!(l.transfer(A, C, 1), Err(LedgerError::Overflow));
    assert_eq!(l.free_balance(A), 30);
}
