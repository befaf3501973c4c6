use near_escrow::{Context, EscrowError, HTLCState, NEAREscrow, SwapOrder};
use sha2::{Digest, Sha256};

const HOUR: u64 = 3_600_000_000_000;
const NOW: u64 = 1_700_000_000_000_000_000;

fn ctx(now: u64, caller: &str, deposit: u128) -> Context {
    Context::new(now, caller.to_string(), deposit)
}

fn lock_of(secret: &[u8]) -> Vec<u8> {
    Sha256::digest(secret).to_vec()
}

fn escrow() -> NEAREscrow {
    NEAREscrow::new_with_chains("alice".to_string(), vec!["ethereum".to_string()])
}

fn create(
    escrow: &mut NEAREscrow,
    call: &Context,
    order_hash: &[u8],
    chain: &str,
    hash_lock: Vec<u8>,
    timelock: u64,
) -> Result<(), EscrowError> {
    escrow.create_htlc(
        call,
        order_hash.to_vec(),
        "0xmaker".to_string(),
        chain.to_string(),
        "0xtoken".to_string(),
        1_000,
        "carol".to_string(),
        "NEAR".to_string(),
        hash_lock,
        timelock,
    )
}

fn with_h1() -> NEAREscrow {
    let mut e = escrow();
    let r = create(&mut e, &ctx(NOW, "bob", 5), b"H1", "ethereum", lock_of(b"s3cr3t"), NOW + 2 * HOUR);
    assert_eq!(r, Ok(()));
    e
}

fn order(e: &NEAREscrow, hash: &[u8]) -> SwapOrder {
    e.get_swap_order(hash.to_vec()).expect("order is stored")
}

#[test]
fn test_contract_creation() {
    let contract = NEAREscrow::new("alice".to_string());
    assert_eq!(contract.get_owner(), "alice".to_string());
}

#[test]
fn test_verify_secret() {
    let contract = NEAREscrow::new("alice".to_string());
    let secret = b"test_secret".to_vec();
    let hash = Sha256::digest(&secret);
    let hash_lock = hash.to_vec();

    assert!(contract.verify_secret(secret, hash_lock));
}

#[test]
fn new_escrow_starts_empty_with_default_limits() {
    let e = NEAREscrow::new("alice".to_string());
    assert_eq!(e.get_timelock_limits(), (3_600_000_000_000, 86_400_000_000_000));
    assert_eq!(e.swap_orders.len(), 0);
    assert!(e.deposits.entries.is_empty());
    assert!(e.supported_chains.entries.is_empty());
    assert!(!e.is_chain_supported("ethereum".to_string()));
    assert!(e.is_consistent());
}

#[test]
fn new_with_chains_enables_each_listed_chain_once() {
    let e = NEAREscrow::new_with_chains(
        "alice".to_string(),
        vec!["ethereum".to_string(), "polygon".to_string(), "ethereum".to_string()],
    );
    assert!(e.is_chain_supported("ethereum".to_string()));
    assert!(e.is_chain_supported("polygon".to_string()));
    assert!(!e.is_chain_supported("bsc".to_string()));
    assert_eq!(e.supported_chains.entries.len(), 2);
    assert_eq!(e.get_owner(), "alice");
    assert!(e.is_consistent());
}

#[test]
fn create_stores_active_order_with_deposit() {
    let e = with_h1();
    let o = order(&e, b"H1");
    assert_eq!(o.state, HTLCState::Active);
    assert_eq!(o.dst_amount, 5);
    assert_eq!(o.resolver, "bob");
    assert_eq!(o.created_at, NOW);
    assert_eq!(o.timelock, NOW + 2 * HOUR);
    assert_eq!(o.order_hash, b"H1".to_vec());
    assert_eq!(o.src_maker, "0xmaker");
    assert_eq!(o.src_chain, "ethereum");
    assert_eq!(o.src_token, "0xtoken");
    assert_eq!(o.src_amount, 1_000);
    assert_eq!(o.dst_recipient, "carol");
    assert_eq!(o.dst_token, "NEAR");
    assert_eq!(o.hash_lock, lock_of(b"s3cr3t"));
    assert_eq!(e.deposits.get(&b"H1".to_vec()), Some(5));
    assert!(e.is_consistent());
}

#[test]
fn complete_with_wrong_secret_is_refused() {
    let mut e = with_h1();
    let r = e.complete_htlc(&ctx(NOW + HOUR, "dave", 0), b"H1".to_vec(), b"wrong".to_vec());
    assert_eq!(r.unwrap_err(), EscrowError::InvalidSecret);
    assert_eq!(order(&e, b"H1").state, HTLCState::Active);
    assert_eq!(e.deposits.get(&b"H1".to_vec()), Some(5));
}

#[test]
fn complete_with_secret_pays_recipient() {
    let mut e = with_h1();
    let pay = e
        .complete_htlc(&ctx(NOW + HOUR, "dave", 0), b"H1".to_vec(), b"s3cr3t".to_vec())
        .unwrap();
    assert_eq!(pay.recipient, "carol");
    assert_eq!(pay.amount, 5);
    assert_eq!(order(&e, b"H1").state, HTLCState::Completed);
    assert_eq!(e.deposits.get(&b"H1".to_vec()), None);
    assert!(e.is_consistent());
}

#[test]
fn refund_before_deadline_is_refused() {
    let mut e = with_h1();
    let r = e.refund_htlc(&ctx(NOW + HOUR, "bob", 0), b"H1".to_vec());
    assert_eq!(r.unwrap_err(), EscrowError::NotYetExpired);
    assert_eq!(order(&e, b"H1").state, HTLCState::Active);
    assert_eq!(e.deposits.get(&b"H1".to_vec()), Some(5));
}

#[test]
fn refund_after_deadline_pays_resolver() {
    let mut e = escrow();
    let r = create(&mut e, &ctx(NOW, "bob", 5), b"H2", "ethereum", lock_of(b"s3cr3t"), NOW + 2 * HOUR);
    assert_eq!(r, Ok(()));
    let pay = e.refund_htlc(&ctx(NOW + 2 * HOUR + 1, "anyone", 0), b"H2".to_vec()).unwrap();
    assert_eq!(pay.recipient, "bob");
    assert_eq!(pay.amount, 5);
    assert_eq!(order(&e, b"H2").state, HTLCState::Refunded);
    assert_eq!(e.deposits.get(&b"H2".to_vec()), None);
    assert!(e.is_consistent());
}

#[test]
fn second_create_with_same_hash_is_refused() {
    let mut e = with_h1();
    let r = create(&mut e, &ctx(NOW + 1, "erin", 9), b"H1", "ethereum", lock_of(b"other"), NOW + 3 * HOUR);
    assert_eq!(r, Err(EscrowError::OrderExists));
    let o = order(&e, b"H1");
    assert_eq!(o.dst_amount, 5);
    assert_eq!(o.resolver, "bob");
    assert_eq!(o.hash_lock, lock_of(b"s3cr3t"));
    assert_eq!(o.timelock, NOW + 2 * HOUR);
    assert_eq!(e.swap_orders.len(), 1);
    assert_eq!(e.deposits.get(&b"H1".to_vec()), Some(5));
}

#[test]
fn create_refuses_chain_without_entry() {
    let mut e = escrow();
    let r = create(&mut e, &ctx(NOW, "bob", 5), b"H1", "solana", lock_of(b"s"), NOW + 2 * HOUR);
    assert_eq!(r, Err(EscrowError::UnsupportedChain));
    assert_eq!(e.swap_orders.len(), 0);
    assert!(e.get_swap_order(b"H1".to_vec()).is_none());
}

#[test]
fn create_refuses_chain_with_cleared_flag() {
    let mut e = escrow();
    assert_eq!(e.remove_supported_chain(&ctx(NOW, "alice", 0), "ethereum".to_string()), Ok(()));
    let r = create(&mut e, &ctx(NOW, "bob", 5), b"H1", "ethereum", lock_of(b"s"), NOW + 2 * HOUR);
    assert_eq!(r, Err(EscrowError::UnsupportedChain));
}

#[test]
fn create_needs_deadline_beyond_minimum() {
    let mut e = escrow();
    let at_min = create(&mut e, &ctx(NOW, "bob", 5), b"A", "ethereum", lock_of(b"s"), NOW + HOUR);
    assert_eq!(at_min, Err(EscrowError::TimelockTooShort));
    let past = create(&mut e, &ctx(NOW, "bob", 5), b"A", "ethereum", lock_of(b"s"), NOW);
    assert_eq!(past, Err(EscrowError::TimelockTooShort));
    let just_over = create(&mut e, &ctx(NOW, "bob", 5), b"A", "ethereum", lock_of(b"s"), NOW + HOUR + 1);
    assert_eq!(just_over, Ok(()));
}

#[test]
fn create_needs_deadline_below_maximum() {
    let mut e = escrow();
    let at_max = create(&mut e, &ctx(NOW, "bob", 5), b"A", "ethereum", lock_of(b"s"), NOW + 24 * HOUR);
    assert_eq!(at_max, Err(EscrowError::TimelockTooLong));
    let beyond = create(&mut e, &ctx(NOW, "bob", 5), b"A", "ethereum", lock_of(b"s"), NOW + 25 * HOUR);
    assert_eq!(beyond, Err(EscrowError::TimelockTooLong));
    let just_under = create(&mut e, &ctx(NOW, "bob", 5), b"A", "ethereum", lock_of(b"s"), NOW + 24 * HOUR - 1);
    assert_eq!(just_under, Ok(()));
}

#[test]
fn create_at_the_end_of_the_clock_does_not_wrap() {
    let mut e = escrow();
    let late = u64::MAX - 10;
    let r = create(&mut e, &ctx(late, "bob", 5), b"A", "ethereum", lock_of(b"s"), u64::MAX);
    assert_eq!(r, Err(EscrowError::TimelockTooShort));
    let late = u64::MAX - 2 * HOUR;
    let r = create(&mut e, &ctx(late, "bob", 5), b"A", "ethereum", lock_of(b"s"), u64::MAX);
    assert_eq!(r, Ok(()));
}

#[test]
fn create_needs_hash_lock_of_32_bytes() {
    let mut e = escrow();
    for len in [0usize, 31, 33, 64] {
        let r = create(&mut e, &ctx(NOW, "bob", 5), b"A", "ethereum", vec![7u8; len], NOW + 2 * HOUR);
        assert_eq!(r, Err(EscrowError::InvalidHashLockLength));
    }
    let r = create(&mut e, &ctx(NOW, "bob", 5), b"A", "ethereum", vec![7u8; 32], NOW + 2 * HOUR);
    assert_eq!(r, Ok(()));
}

#[test]
fn create_needs_a_deposit() {
    let mut e = escrow();
    let r = create(&mut e, &ctx(NOW, "bob", 0), b"A", "ethereum", lock_of(b"s"), NOW + 2 * HOUR);
    assert_eq!(r, Err(EscrowError::NoDeposit));
    assert_eq!(e.swap_orders.len(), 0);
    assert!(e.deposits.entries.is_empty());
    let r = create(&mut e, &ctx(NOW, "bob", 1), b"A", "ethereum", lock_of(b"s"), NOW + 2 * HOUR);
    assert_eq!(r, Ok(()));
    assert_eq!(order(&e, b"A").dst_amount, 1);
}

#[test]
fn create_reports_the_first_failing_check() {
    let mut e = with_h1();
    let everything_wrong = create(&mut e, &ctx(NOW, "bob", 0), b"H1", "solana", vec![1, 2, 3], NOW);
    assert_eq!(everything_wrong, Err(EscrowError::UnsupportedChain));
    let short_first = create(&mut e, &ctx(NOW, "bob", 0), b"H1", "ethereum", vec![1, 2, 3], NOW);
    assert_eq!(short_first, Err(EscrowError::TimelockTooShort));
    let long_next = create(&mut e, &ctx(NOW, "bob", 0), b"H1", "ethereum", vec![1, 2, 3], NOW + 30 * HOUR);
    assert_eq!(long_next, Err(EscrowError::TimelockTooLong));
    let exists_next = create(&mut e, &ctx(NOW, "bob", 0), b"H1", "ethereum", vec![1, 2, 3], NOW + 2 * HOUR);
    assert_eq!(exists_next, Err(EscrowError::OrderExists));
    let length_next = create(&mut e, &ctx(NOW, "bob", 0), b"H9", "ethereum", vec![1, 2, 3], NOW + 2 * HOUR);
    assert_eq!(length_next, Err(EscrowError::InvalidHashLockLength));
    let deposit_last = create(&mut e, &ctx(NOW, "bob", 0), b"H9", "ethereum", vec![1; 32], NOW + 2 * HOUR);
    assert_eq!(deposit_last, Err(EscrowError::NoDeposit));
    assert_eq!(e.swap_orders.len(), 1);
}

#[test]
fn amount_is_the_deposit_whatever_the_source_amount() {
    let mut e = escrow();
    let r = e.create_htlc(
        &ctx(NOW, "bob", 77),
        b"A".to_vec(),
        "m".to_string(),
        "ethereum".to_string(),
        "t".to_string(),
        u128::MAX,
        "carol".to_string(),
        "NEAR".to_string(),
        lock_of(b"s"),
        NOW + 2 * HOUR,
    );
    assert_eq!(r, Ok(()));
    let o = order(&e, b"A");
    assert_eq!(o.src_amount, u128::MAX);
    assert_eq!(o.dst_amount, 77);
}

#[test]
fn complete_and_refund_of_unknown_order_are_refused() {
    let mut e = with_h1();
    let c = e.complete_htlc(&ctx(NOW, "x", 0), b"nope".to_vec(), b"s3cr3t".to_vec());
    assert_eq!(c.unwrap_err(), EscrowError::NotFound);
    let r = e.refund_htlc(&ctx(NOW + 9 * HOUR, "x", 0), b"nope".to_vec());
    assert_eq!(r.unwrap_err(), EscrowError::NotFound);
    assert_eq!(order(&e, b"H1").state, HTLCState::Active);
}

#[test]
fn complete_is_allowed_up_to_the_deadline_and_not_after() {
    let mut e = with_h1();
    let late = e.complete_htlc(&ctx(NOW + 2 * HOUR + 1, "x", 0), b"H1".to_vec(), b"s3cr3t".to_vec());
    assert_eq!(late.unwrap_err(), EscrowError::Expired);
    assert_eq!(order(&e, b"H1").state, HTLCState::Active);
    let on_time = e.complete_htlc(&ctx(NOW + 2 * HOUR, "x", 0), b"H1".to_vec(), b"s3cr3t".to_vec());
    assert_eq!(on_time.unwrap().amount, 5);
}

#[test]
fn expiry_is_reported_before_the_secret_is_looked_at() {
    let mut e = with_h1();
    let r = e.complete_htlc(&ctx(NOW + 3 * HOUR, "x", 0), b"H1".to_vec(), b"wrong".to_vec());
    assert_eq!(r.unwrap_err(), EscrowError::Expired);
}

#[test]
fn refund_needs_the_deadline_strictly_passed() {
    let mut e = with_h1();
    let at = e.refund_htlc(&ctx(NOW + 2 * HOUR, "x", 0), b"H1".to_vec());
    assert_eq!(at.unwrap_err(), EscrowError::NotYetExpired);
    let after = e.refund_htlc(&ctx(NOW + 2 * HOUR + 1, "x", 0), b"H1".to_vec());
    assert_eq!(after.unwrap().recipient, "bob");
}

#[test]
fn completed_order_refuses_everything_afterwards() {
    let mut e = with_h1();
    e.complete_htlc(&ctx(NOW + 1, "x", 0), b"H1".to_vec(), b"s3cr3t".to_vec()).unwrap();
    let again = e.complete_htlc(&ctx(NOW + 2, "x", 0), b"H1".to_vec(), b"s3cr3t".to_vec());
    assert_eq!(again.unwrap_err(), EscrowError::InvalidState);
    let wrong = e.complete_htlc(&ctx(NOW + 9 * HOUR, "x", 0), b"H1".to_vec(), b"wrong".to_vec());
    assert_eq!(wrong.unwrap_err(), EscrowError::InvalidState);
    let refund = e.refund_htlc(&ctx(NOW + 9 * HOUR, "x", 0), b"H1".to_vec());
    assert_eq!(refund.unwrap_err(), EscrowError::InvalidState);
    let early_refund = e.refund_htlc(&ctx(NOW + 2, "x", 0), b"H1".to_vec());
    assert_eq!(early_refund.unwrap_err(), EscrowError::InvalidState);
    assert_eq!(order(&e, b"H1").state, HTLCState::Completed);
    assert!(e.is_consistent());
}

#[test]
fn refunded_order_refuses_everything_afterwards() {
    let mut e = with_h1();
    e.refund_htlc(&ctx(NOW + 3 * HOUR, "x", 0), b"H1".to_vec()).unwrap();
    let complete = e.complete_htlc(&ctx(NOW + 1, "x", 0), b"H1".to_vec(), b"s3cr3t".to_vec());
    assert_eq!(complete.unwrap_err(), EscrowError::InvalidState);
    let again = e.refund_htlc(&ctx(NOW + 4 * HOUR, "x", 0), b"H1".to_vec());
    assert_eq!(again.unwrap_err(), EscrowError::InvalidState);
    assert_eq!(order(&e, b"H1").state, HTLCState::Refunded);
}

#[test]
fn terminal_order_survives_later_operations_on_others() {
    let mut e = with_h1();
    e.complete_htlc(&ctx(NOW + 1, "x", 0), b"H1".to_vec(), b"s3cr3t".to_vec()).unwrap();
    assert_eq!(create(&mut e, &ctx(NOW, "bob", 8), b"H2", "ethereum", lock_of(b"t"), NOW + 2 * HOUR), Ok(()));
    e.refund_htlc(&ctx(NOW + 5 * HOUR, "x", 0), b"H2".to_vec()).unwrap();
    assert_eq!(e.transfer_ownership(&ctx(NOW, "alice", 0), "zed".to_string()), Ok(()));
    let o = order(&e, b"H1");
    assert_eq!(o.state, HTLCState::Completed);
    assert_eq!(o.dst_amount, 5);
    let r = e.refund_htlc(&ctx(NOW + 9 * HOUR, "x", 0), b"H1".to_vec());
    assert_eq!(r.unwrap_err(), EscrowError::InvalidState);
    assert_eq!(e.swap_orders.len(), 2);
    assert_eq!(e.swap_orders.entries[0].order_hash, b"H1".to_vec());
    assert_eq!(e.swap_orders.entries[1].order_hash, b"H2".to_vec());
}

#[test]
fn payout_is_native_whatever_the_token() {
    let mut e = escrow();
    let r = e.create_htlc(
        &ctx(NOW, "bob", 40),
        b"A".to_vec(),
        "m".to_string(),
        "ethereum".to_string(),
        "t".to_string(),
        1,
        "carol".to_string(),
        "usdc.token".to_string(),
        lock_of(b"s"),
        NOW + 2 * HOUR,
    );
    assert_eq!(r, Ok(()));
    let pay = e.complete_htlc(&ctx(NOW + 1, "x", 0), b"A".to_vec(), b"s".to_vec()).unwrap();
    assert_eq!(pay.recipient, "carol");
    assert_eq!(pay.amount, 40);
}

#[test]
fn order_of_a_chain_disabled_later_is_still_processed() {
    let mut e = with_h1();
    assert_eq!(e.remove_supported_chain(&ctx(NOW, "alice", 0), "ethereum".to_string()), Ok(()));
    let pay = e.complete_htlc(&ctx(NOW + 1, "x", 0), b"H1".to_vec(), b"s3cr3t".to_vec()).unwrap();
    assert_eq!(pay.amount, 5);
}

#[test]
fn new_limits_apply_to_later_orders_only() {
    let mut e = with_h1();
    assert_eq!(e.update_timelock_limits(&ctx(NOW, "alice", 0), 10, 20), Ok(()));
    assert_eq!(order(&e, b"H1").timelock, NOW + 2 * HOUR);
    let too_long = create(&mut e, &ctx(NOW, "bob", 5), b"B", "ethereum", lock_of(b"s"), NOW + 2 * HOUR);
    assert_eq!(too_long, Err(EscrowError::TimelockTooLong));
    let fits = create(&mut e, &ctx(NOW, "bob", 5), b"B", "ethereum", lock_of(b"s"), NOW + 15);
    assert_eq!(fits, Ok(()));
    let pay = e.complete_htlc(&ctx(NOW + HOUR, "x", 0), b"H1".to_vec(), b"s3cr3t".to_vec()).unwrap();
    assert_eq!(pay.amount, 5);
}

#[test]
fn complete_with_digest_compares_the_digest_as_given() {
    let mut e = with_h1();
    let lock = lock_of(b"s3cr3t");
    let mut other = lock.clone();
    other[31] ^= 1;
    let r = e.complete_with_digest(&ctx(NOW + 1, "x", 0), &b"H1".to_vec(), &other);
    assert_eq!(r.unwrap_err(), EscrowError::InvalidSecret);
    let r = e.complete_with_digest(&ctx(NOW + 1, "x", 0), &b"H1".to_vec(), &b"s3cr3t".to_vec());
    assert_eq!(r.unwrap_err(), EscrowError::InvalidSecret);
    let pay = e.complete_with_digest(&ctx(NOW + 1, "x", 0), &b"H1".to_vec(), &lock).unwrap();
    assert_eq!(pay.recipient, "carol");
    assert_eq!(pay.amount, 5);
}

#[test]
fn secret_equal_to_the_hash_lock_does_not_open_it() {
    let mut e = with_h1();
    let r = e.complete_htlc(&ctx(NOW + 1, "x", 0), b"H1".to_vec(), lock_of(b"s3cr3t"));
    assert_eq!(r.unwrap_err(), EscrowError::InvalidSecret);
}
