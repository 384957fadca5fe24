use ramp::air::{evaluate, Outcome};
use ramp::demo::wallet::{
    Address, Error, GetAddress, Lock, Priority, Send, Transaction, Update, Wallet, WalletService,
    ADDRESS_SLOTS, LOCK,
};
use ramp::names::{Id, Metadata, Name};

const ALICE: &str = "0279be667ef9dcbbac55a06295ce870b07029bfcdb2dce28d959f2815b16f81798";
const BOB: &str = "02c6047f9441ed7d6d3045406e95c07cd85c778e4b8cef3ca7abac09b95c709ee5";
const ADDRESS: &str = "bc1qar0srrr7xfkvy5l643lydnw9re59gtzzwf5mdq";
const LEGACY: &str = "1BvBMSEYstWetqTFn5Au4m4GFg7xJaNVN2";

fn name(text: &str) -> Name {
    Name::parse(text).unwrap()
}

fn meta(signer: &str, timestamp: u64) -> Metadata {
    Metadata { signer: name(signer), timestamp }
}

fn wallet() -> Wallet {
    Wallet::with_changeset(name(ALICE), bdk_wallet::ChangeSet::default())
}

#[test]
fn blind_estimates() {
    assert_eq!(Priority::Normal.blind_estimate(), 4200);
    assert_eq!(Priority::Priority.blind_estimate(), 8400);
    assert_eq!(Priority::default(), Priority::Normal);
}

#[test]
fn address_parsing() {
    let a = Address::parse(ADDRESS).unwrap();
    assert_eq!(a.as_str(), ADDRESS);
    let upper = Address::parse(&ADDRESS.to_uppercase()).unwrap();
    assert_eq!(upper.as_str(), ADDRESS);
    assert_eq!(Address::parse(LEGACY).unwrap().as_str(), LEGACY);
    assert!(Address::parse("tb1qw508d6qejxtdg4y5r3zarvary0c5xw7kxpjzsx").is_none());
    assert!(Address::parse("not an address").is_none());
    let testnet = "tb1qw508d6qejxtdg4y5r3zarvary0c5xw7kxpjzsx";
    assert_eq!(Address::parse_any_network(testnet).unwrap().as_str(), testnet);
    assert_eq!(Address::parse_any_network(&ADDRESS.to_uppercase()).unwrap().as_str(), ADDRESS);
    assert!(Address::parse_any_network("not an address").is_none());
}

#[test]
fn new_transaction_is_pending() {
    let t = Transaction::new(Address::parse(ADDRESS).unwrap(), 500, Priority::Priority);
    assert_eq!(t.amount, 500);
    assert!(!t.received);
    assert!(!t.canceled);
    assert_eq!(t.priority, Priority::Priority);
    assert!(t.txid.is_none() && t.fee.is_none() && t.timestamp.is_none() && t.btc_price_usd.is_none());
}

#[test]
fn error_messages() {
    assert_eq!(
        Error::NotYourWallet(name(ALICE)).message(),
        format!("This is not your wallet it belongs to {}", ALICE)
    );
    assert_eq!(
        Error::NoAddresses.message(),
        "There are no available addresses to receive to, Ensure the WalletService is running"
    );
    assert_eq!(
        Error::InsufficentFunds(1000, 54200).message(),
        "You have 1000 but are trying to send 54200"
    );
    assert_eq!(Error::ServiceRunning(42).message(), "Service is already running check again in 42");
}

#[test]
fn lock_is_exclusive_until_expiry() {
    let a = Id::new([1u8; 32]);
    let b = Id::new([2u8; 32]);
    let mut lock = Lock::new();
    assert_eq!(lock.0, 0);
    match lock.lock(a, 100) {
        Err(Error::ServiceRunning(wait)) => assert_eq!(wait, LOCK - 100),
        other => panic!("unexpected {:?}", other),
    }
    let t = 10 * LOCK;
    assert!(matches!(lock.lock(a, t), Ok(x) if x == t));
    assert!(lock.is_locked(&a, t + 1));
    assert!(!lock.is_locked(&b, t + 1));
    match lock.lock(b, t + 1) {
        Err(Error::ServiceRunning(wait)) => assert_eq!(wait, LOCK - 1),
        other => panic!("unexpected {:?}", other),
    }
    assert_eq!(lock.0, t);
    assert_eq!(lock.1, a);
    assert!(matches!(lock.lock(a, t + 500), Ok(x) if x == t + 500));
    assert!(matches!(lock.lock(b, t + 500 + LOCK), Err(Error::ServiceRunning(0))));
    assert!(!lock.is_locked(&a, t + 500 + LOCK));
    assert!(matches!(lock.lock(b, t + 501 + LOCK), Ok(x) if x == t + 501 + LOCK));
    assert_eq!(lock.1, b);
}

#[test]
fn new_wallet_is_empty() {
    let w = wallet();
    assert_eq!(w.balance(), 0);
    assert_eq!(w.addresses.len(), ADDRESS_SLOTS);
    assert!(w.addresses.iter().all(|a| a.is_none()));
    assert!(w.transactions.is_empty());
    assert_eq!(w.lock.1, Id::default());
}

#[test]
fn wallet_init_builds_bdk_state() {
    let w = Wallet::init(&[7u8; 32], name(ALICE)).unwrap();
    assert_eq!(w.balance, 0);
    assert_eq!(w.addresses.len(), ADDRESS_SLOTS);
    assert!(w.internal.descriptor.is_some());
    assert!(w.internal.change_descriptor.is_some());
    assert_eq!(w.internal.network, Some(bitcoin::Network::Bitcoin));
}

#[test]
fn get_address_takes_first() {
    let mut w = wallet();
    w.addresses[3] = Address::parse(ADDRESS);
    w.addresses[6] = Address::parse(LEGACY);
    let first = GetAddress.apply(&mut w, meta(ALICE, 1)).unwrap();
    assert_eq!(first.as_str(), ADDRESS);
    assert!(w.addresses[3].is_none());
    let second = GetAddress.apply(&mut w, meta(ALICE, 2)).unwrap();
    assert_eq!(second.as_str(), LEGACY);
    assert!(matches!(GetAddress.apply(&mut w, meta(ALICE, 3)), Err(Error::NoAddresses)));
}

#[test]
fn get_address_only_for_author() {
    let mut w = wallet();
    w.addresses[0] = Address::parse(ADDRESS);
    match GetAddress.apply(&mut w, meta(BOB, 1)) {
        Err(Error::NotYourWallet(owner)) => assert_eq!(owner.as_str(), ALICE),
        other => panic!("unexpected {:?}", other),
    }
    assert!(w.addresses[0].is_some());
}

#[test]
fn send_debits_and_records() {
    let mut w = wallet();
    w.balance = 100_000;
    let r = Send(Address::parse(ADDRESS).unwrap(), 50_000, Priority::Normal).apply(&mut w, meta(ALICE, 77));
    assert!(matches!(r, Ok(77)));
    assert_eq!(w.balance, 100_000 - 54_200);
    let t = w.transactions.get(&77).unwrap();
    assert_eq!(t.amount, 50_000);
    assert_eq!(t.address.as_str(), ADDRESS);
    assert!(t.timestamp.is_none());
}

#[test]
fn send_refuses_overdraft_and_strangers() {
    let mut w = wallet();
    w.balance = 1000;
    match Send(Address::parse(ADDRESS).unwrap(), 50_000, Priority::Normal).apply(&mut w, meta(ALICE, 1)) {
        Err(Error::InsufficentFunds(have, want)) => {
            assert_eq!(have, 1000);
            assert_eq!(want, 54_200);
        },
        other => panic!("unexpected {:?}", other),
    }
    assert_eq!(w.balance, 1000);
    assert!(w.transactions.is_empty());
    assert!(matches!(
        Send(Address::parse(ADDRESS).unwrap(), 1, Priority::Normal).apply(&mut w, meta(BOB, 1)),
        Err(Error::NotYourWallet(_))
    ));
}

#[test]
fn history_orders_confirmed_first() {
    let mut w = wallet();
    let mk = |amount: u64, ts: Option<u64>| {
        let mut t = Transaction::new(Address::parse(ADDRESS).unwrap(), amount, Priority::Normal);
        t.timestamp = ts;
        t
    };
    w.transactions.insert(10, mk(1, None));
    w.transactions.insert(20, mk(2, Some(500)));
    w.transactions.insert(30, mk(3, Some(100)));
    w.transactions.insert(5, mk(4, None));
    w.transactions.insert(40, mk(5, Some(100)));
    let keys: Vec<u64> = w.history().iter().map(|(k, _)| *k).collect();
    assert_eq!(keys, vec![30, 40, 20, 5, 10]);
    let amounts: Vec<u64> = w.transactions().iter().map(|t| t.amount).collect();
    assert_eq!(amounts, vec![3, 5, 2, 4, 1]);
}

#[test]
fn identifiers_of_wallet_items() {
    assert_eq!(Wallet::id().bytes, <[u8; 32]>::from(air::Id::hash("Wallet")));
    assert_eq!(GetAddress::id().bytes, <[u8; 32]>::from(air::Id::hash("GetAddress")));
    assert_eq!(Send::id().bytes, <[u8; 32]>::from(air::Id::hash("Send")));
    assert_eq!(Update::id().bytes, <[u8; 32]>::from(air::Id::hash("Update")));
    assert_eq!(WalletService::id().bytes, <[u8; 32]>::from(air::Id::hash("WALLETSERVICE")));
}

#[test]
fn evaluation_is_all_or_nothing() {
    let mut w = wallet();
    w.addresses[2] = Address::parse(ADDRESS);
    let refused = evaluate::<GetAddress, Wallet, u8>(Ok(GetAddress), &mut w, meta(BOB, 1));
    assert!(matches!(refused, Outcome::Rejected(Error::NotYourWallet(_))));
    assert_eq!(w.addresses[2].as_ref().unwrap().as_str(), ADDRESS);
    let unread = evaluate::<GetAddress, Wallet, u8>(Err(7), &mut w, meta(ALICE, 2));
    assert!(matches!(unread, Outcome::Malformed(7)));
    assert!(w.addresses[2].is_some());
    let taken = evaluate::<GetAddress, Wallet, u8>(Ok(GetAddress), &mut w, meta(ALICE, 3));
    assert!(matches!(taken, Outcome::Applied));
    assert!(w.addresses.iter().all(|a| a.is_none()));
    let empty = evaluate::<GetAddress, Wallet, u8>(Ok(GetAddress), &mut w, meta(ALICE, 4));
    assert!(matches!(empty, Outcome::Rejected(Error::NoAddresses)));
    assert_eq!(w.balance, 0);
}

#[test]
fn wallet_init_needs_a_secret_key() {
    assert!(Wallet::init(&[0u8; 32], name(ALICE)).is_none());
    assert!(Wallet::init(&[0xffu8; 32], name(ALICE)).is_none());
    let a = Wallet::init(&[7u8; 32], name(ALICE)).unwrap();
    let b = Wallet::init(&[8u8; 32], name(ALICE)).unwrap();
    assert_ne!(a.internal.descriptor, b.internal.descriptor);
    assert_eq!(a.internal, Wallet::init(&[7u8; 32], name(BOB)).unwrap().internal);
}

#[test]
fn documents_evaluate_in_place() {
    let room = Id::hash("Wallet");
    let instance = Id::new([6; 32]);
    let mut docs: ramp::air::Documents<Wallet> = ramp::air::Documents::new();
    let mut w = wallet();
    w.addresses[1] = Address::parse(ADDRESS);
    assert!(docs.start(room, instance, w));
    let none = docs.apply::<GetAddress, u8>(&room, &Id::new([1; 32]), Ok(GetAddress), meta(ALICE, 1));
    assert!(none.is_none());
    let refused = docs.apply::<GetAddress, u8>(&room, &instance, Ok(GetAddress), meta(BOB, 2)).unwrap();
    assert!(matches!(refused, Outcome::Rejected(Error::NotYourWallet(_))));
    assert!(docs.get(&room, &instance).unwrap().addresses[1].is_some());
    let taken = docs.apply::<GetAddress, u8>(&room, &instance, Ok(GetAddress), meta(ALICE, 3)).unwrap();
    assert!(matches!(taken, Outcome::Applied));
    assert!(docs.get(&room, &instance).unwrap().addresses[1].is_none());
}
