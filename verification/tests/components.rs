use near_escrow::bytes::{bytes_eq, copy_bytes};
use near_escrow::{
    ChainAllowlist, ChainFlag, Context, Deposit, DepositLedger, HTLCState, NEAREscrow, OrderStore,
    SwapOrder,
};

fn sample(hash: &[u8], state: HTLCState, amount: u128) -> SwapOrder {
    SwapOrder {
        order_hash: hash.to_vec(),
        src_maker: "m".to_string(),
        src_chain: "ethereum".to_string(),
        src_token: "t".to_string(),
        src_amount: 1,
        dst_recipient: "carol".to_string(),
        dst_token: "NEAR".to_string(),
        dst_amount: amount,
        hash_lock: vec![9u8; 32],
        timelock: 200,
        state,
        created_at: 100,
        resolver: "bob".to_string(),
    }
}

fn assembled(orders: Vec<SwapOrder>, deposits: Vec<(&[u8], u128)>) -> NEAREscrow {
    let mut e = NEAREscrow::new("alice".to_string());
    e.swap_orders = OrderStore { entries: orders };
    e.deposits = DepositLedger {
        entries: deposits
            .into_iter()
            .map(|(h, amount)| Deposit { order_hash: h.to_vec(), amount })
            .collect(),
    };
    e
}

#[test]
fn bytes_eq_compares_length_and_content() {
    assert!(bytes_eq(&vec![], &vec![]));
    assert!(bytes_eq(&vec![1, 2, 3], &vec![1, 2, 3]));
    assert!(!bytes_eq(&vec![1, 2, 3], &vec![1, 2, 4]));
    assert!(!bytes_eq(&vec![1, 2, 3], &vec![1, 2]));
    assert!(!bytes_eq(&vec![], &vec![0]));
    assert!(!bytes_eq(&vec![0, 2, 3], &vec![1, 2, 3]));
}

#[test]
fn copy_bytes_copies() {
    assert_eq!(copy_bytes(&vec![]), Vec::<u8>::new());
    assert_eq!(copy_bytes(&vec![5, 0, 255]), vec![5, 0, 255]);
}

#[test]
fn order_state_predicates() {
    let o = sample(b"a", HTLCState::Active, 1);
    assert!(o.is_active());
    assert!(!o.is_expired(200));
    assert!(o.is_expired(201));
    let done = o.with_state(HTLCState::Completed);
    assert_eq!(done.state, HTLCState::Completed);
    assert_eq!(done.order_hash, b"a".to_vec());
    assert_eq!(done.dst_amount, 1);
    assert!(!done.is_active());
    assert!(!done.is_expired(500));
    assert_eq!(o.state, HTLCState::Active);
    let copy = o.clone();
    assert_eq!(copy.hash_lock, o.hash_lock);
    assert_eq!(copy.resolver, "bob");
}

#[test]
fn order_well_formedness() {
    assert!(sample(b"a", HTLCState::Active, 1).is_well_formed());
    assert!(!sample(b"a", HTLCState::Active, 0).is_well_formed());
    let mut short = sample(b"a", HTLCState::Active, 1);
    short.hash_lock.pop();
    assert!(!short.is_well_formed());
    let mut backwards = sample(b"a", HTLCState::Active, 1);
    backwards.timelock = backwards.created_at;
    assert!(!backwards.is_well_formed());
}

#[test]
fn ledger_inserts_reads_and_clears() {
    let mut l = DepositLedger::new();
    assert_eq!(l.get(&b"a".to_vec()), None);
    l.insert(b"a".to_vec(), 5);
    l.insert(b"b".to_vec(), 7);
    assert_eq!(l.get(&b"a".to_vec()), Some(5));
    assert_eq!(l.get(&b"b".to_vec()), Some(7));
    l.insert(b"a".to_vec(), 6);
    assert_eq!(l.get(&b"a".to_vec()), Some(6));
    assert_eq!(l.entries.len(), 2);
    assert_eq!(l.remove(&b"a".to_vec()), Some(6));
    assert_eq!(l.remove(&b"a".to_vec()), None);
    assert_eq!(l.get(&b"a".to_vec()), None);
    assert_eq!(l.get(&b"b".to_vec()), Some(7));
    assert!(l.is_consistent());
    l.entries.push(Deposit { order_hash: b"b".to_vec(), amount: 1 });
    assert!(!l.is_consistent());
}

#[test]
fn allowlist_sets_and_reads_flags() {
    let mut a = ChainAllowlist::new();
    assert!(!a.is_enabled(&"x".to_string()));
    a.set("x".to_string(), true);
    assert!(a.is_enabled(&"x".to_string()));
    assert!(!a.is_enabled(&"X".to_string()));
    a.set("x".to_string(), false);
    assert!(!a.is_enabled(&"x".to_string()));
    assert_eq!(a.entries.len(), 1);
    assert!(a.is_consistent());
    a.entries.push(ChainFlag { chain: "x".to_string(), enabled: true });
    assert!(!a.is_consistent());
}

#[test]
fn store_finds_appends_and_settles() {
    let mut s = OrderStore::new();
    assert_eq!(s.len(), 0);
    assert_eq!(s.position(&b"a".to_vec()), None);
    s.insert(sample(b"a", HTLCState::Active, 1));
    s.insert(sample(b"b", HTLCState::Active, 2));
    assert_eq!(s.len(), 2);
    assert_eq!(s.position(&b"a".to_vec()), Some(0));
    assert_eq!(s.position(&b"b".to_vec()), Some(1));
    assert_eq!(s.get(&b"b".to_vec()).unwrap().dst_amount, 2);
    assert!(s.get(&b"c".to_vec()).is_none());
    s.set_state(0, HTLCState::Refunded);
    assert_eq!(s.get(&b"a".to_vec()).unwrap().state, HTLCState::Refunded);
    assert_eq!(s.get(&b"b".to_vec()).unwrap().state, HTLCState::Active);
    assert_eq!(s.position(&b"a".to_vec()), Some(0));
    let page = s.active_page(0, 5);
    assert_eq!(page.len(), 1);
    assert_eq!(page[0].order_hash, b"b".to_vec());
    assert!(s.active_page(usize::MAX, usize::MAX).is_empty());
    assert!(s.is_consistent());
}

#[test]
fn store_consistency_sees_duplicates_and_malformed_orders() {
    let twice = OrderStore {
        entries: vec![sample(b"a", HTLCState::Active, 1), sample(b"a", HTLCState::Completed, 1)],
    };
    assert!(!twice.is_consistent());
    let empty_amount = OrderStore { entries: vec![sample(b"a", HTLCState::Active, 0)] };
    assert!(!empty_amount.is_consistent());
    let fine = OrderStore {
        entries: vec![sample(b"a", HTLCState::Active, 1), sample(b"b", HTLCState::Completed, 1)],
    };
    assert!(fine.is_consistent());
}

#[test]
fn escrow_consistency_ties_deposits_to_active_orders() {
    let good = assembled(
        vec![sample(b"a", HTLCState::Active, 4), sample(b"b", HTLCState::Refunded, 6)],
        vec![(b"a", 4)],
    );
    assert!(good.is_consistent());
    let missing = assembled(vec![sample(b"a", HTLCState::Active, 4)], vec![]);
    assert!(!missing.is_consistent());
    let wrong_amount = assembled(vec![sample(b"a", HTLCState::Active, 4)], vec![(b"a", 5)]);
    assert!(!wrong_amount.is_consistent());
    let for_settled = assembled(vec![sample(b"b", HTLCState::Completed, 6)], vec![(b"b", 6)]);
    assert!(!for_settled.is_consistent());
    let for_nobody = assembled(vec![sample(b"a", HTLCState::Active, 4)], vec![(b"a", 4), (b"z", 1)]);
    assert!(!for_nobody.is_consistent());
    let mut closed_window = NEAREscrow::new("alice".to_string());
    closed_window.min_timelock = closed_window.max_timelock;
    assert!(!closed_window.is_consistent());
}

#[test]
fn assembled_escrow_works_like_a_grown_one() {
    let mut e = assembled(vec![sample(b"a", HTLCState::Active, 4)], vec![(b"a", 4)]);
    assert!(e.is_consistent());
    let pay = e.refund_htlc(&Context::new(201, "x".to_string(), 0), b"a".to_vec()).unwrap();
    assert_eq!(pay.recipient, "bob");
    assert_eq!(pay.amount, 4);
    assert!(e.is_consistent());
}
