//! A bitcoin wallet kept as a contract: its owner, balance, receiving
//! addresses and transactions, guarded by a lock that one wallet service at a
//! time may hold.
//!
//! All amounts are in nano bitcoins.  Prices in US dollars are held as the bit
//! patterns of `f64` values (`f64::to_bits`): the wallet carries them and never
//! computes with them.

use vstd::prelude::*;
use std::collections::BTreeMap;

use crate::air::{EventError, Reactant};
use crate::names::{Id, Name, Metadata, air_id_hash};
use crate::text::{decimal, decimal_text, push_str};
use vstd::std_specs::iter::IteratorSpec;

verus! {

/// How long a wallet service keeps the lock after taking it: 2000 seconds,
/// in nanoseconds.
pub const LOCK: u64 = 2_000_000_000_000;

/// The canonical text of a bitcoin address valid on a network, if the text
/// is one.
pub uninterp spec fn network_address_text(text: Seq<char>, chain: Chain) -> Option<Seq<char>>;

/// Parses a bitcoin address with `<bitcoin::Address<NetworkUnchecked> as
/// FromStr>::from_str`, requires it to be valid on a network with
/// `require_network`, and prints it with its `Display`.  Claimed: the result
/// is the named `network_address_text` of the input and network.
#[verifier::external_body]
fn parse_network_address(text: &str, chain: Chain) -> (canonical: Option<String>)
    ensures
        match canonical {
            Some(t) => network_address_text(text@, chain) == Some(t@),
            None => network_address_text(text@, chain) is None,
        },
{
    match <bitcoin::Address<bitcoin::address::NetworkUnchecked> as std::str::FromStr>::from_str(text) {
        Ok(unchecked) => match unchecked.require_network(bitcoin_network(chain)) {
            Ok(address) => Some(address.to_string()),
            Err(_) => None,
        },
        Err(_) => None,
    }
}

/// The canonical text of a bitcoin address of any network, if the text is
/// one.
pub uninterp spec fn address_text(text: Seq<char>) -> Option<Seq<char>>;

/// Parses a bitcoin address with `<bitcoin::Address<NetworkUnchecked> as
/// FromStr>::from_str`, takes it as it is with `assume_checked`, whatever its
/// network, and prints it with its `Display`.  Claimed: the result is the
/// named `address_text` of the input.
#[verifier::external_body]
fn parse_address(text: &str) -> (canonical: Option<String>)
    ensures
        match canonical {
            Some(t) => address_text(text@) == Some(t@),
            None => address_text(text@) is None,
        },
{
    match <bitcoin::Address<bitcoin::address::NetworkUnchecked> as std::str::FromStr>::from_str(text) {
        Ok(unchecked) => Some(unchecked.assume_checked().to_string()),
        Err(_) => None,
    }
}

/// A bitcoin address, held as its canonical text.  Addresses read from
/// stored records are on the main network; one handed over as a checked
/// address of the bitcoin crate may be of any network.
#[derive(Debug)]
pub struct Address {
    text: String,
}

impl View for Address {
    type V = Seq<char>;

    closed spec fn view(&self) -> Seq<char> {
        self.text@
    }
}

impl Address {
    /// Reads an address; `None` unless the text is a valid main-network address.
    pub fn parse(text: &str) -> (address: Option<Address>)
        ensures
            match address {
                Some(a) => network_address_text(text@, Chain::Bitcoin) == Some(a@),
                None => network_address_text(text@, Chain::Bitcoin) is None,
            },
    {
        match parse_network_address(text, Chain::Bitcoin) {
            Some(t) => Some(Address { text: t }),
            None => None,
        }
    }

    /// Reads an address of any network (as one that the bitcoin crate has
    /// already checked); `None` unless the text is a valid address.
    pub fn parse_any_network(text: &str) -> (address: Option<Address>)
        ensures
            match address {
                Some(a) => address_text(text@) == Some(a@),
                None => address_text(text@) is None,
            },
    {
        match parse_address(text) {
            Some(t) => Some(Address { text: t }),
            None => None,
        }
    }

    /// The canonical text of the address.
    pub fn as_str(&self) -> (text: &str)
        ensures
            text@ == self@,
    {
        self.text.as_str()
    }
}

impl Address {
    /// Whether two addresses are the same.
    pub fn same(&self, other: &Address) -> (r: bool)
        ensures
            r == (self@ == other@),
    {
        self.text == other.text
    }
}

impl PartialEq for Address {
    fn eq(&self, other: &Address) -> (r: bool) {
        self.same(other)
    }
}

impl Eq for Address {}

impl vstd::std_specs::cmp::PartialEqSpecImpl for Address {
    open spec fn obeys_eq_spec() -> bool {
        true
    }

    open spec fn eq_spec(&self, other: &Address) -> bool {
        self@ == other@
    }
}

impl Clone for Address {
    fn clone(&self) -> (r: Address)
        ensures
            r@ == self@,
    {
        Address { text: self.text.clone() }
    }
}

/// Why a wallet refused an operation.
#[derive(Debug)]
pub enum Error {
    /// Only the author may use the wallet; it belongs to this name.
    NotYourWallet(Name),
    /// No receiving address is stored.
    NoAddresses,
    /// The balance (first) does not cover the amount with its fee (second).
    InsufficentFunds(u64, u64),
    /// Another service holds the lock for this many more nanoseconds.
    ServiceRunning(u64),
}

/// The message that explains an error.
pub open spec fn error_message(e: Error) -> Seq<char> {
    match e {
        Error::NotYourWallet(name) => "This is not your wallet it belongs to "@ + name@,
        Error::NoAddresses => "There are no available addresses to receive to, Ensure the WalletService is running"@,
        Error::InsufficentFunds(have, want) => "You have "@ + decimal(have as nat)
            + " but are trying to send "@ + decimal(want as nat),
        Error::ServiceRunning(wait) => "Service is already running check again in "@ + decimal(
            wait as nat,
        ),
    }
}

impl Error {
    /// The message that explains the error.
    pub fn message(&self) -> (text: String)
        ensures
            text@ == error_message(*self),
    {
        match self {
            Error::NotYourWallet(name) => {
                let mut s = String::from_str("This is not your wallet it belongs to ");
                push_str(&mut s, name.as_str());
                s
            },
            Error::NoAddresses => String::from_str(
                "There are no available addresses to receive to, Ensure the WalletService is running",
            ),
            Error::InsufficentFunds(have, want) => {
                let mut s = String::from_str("You have ");
                let h = decimal_text(*have);
                push_str(&mut s, h.as_str());
                push_str(&mut s, " but are trying to send ");
                let w = decimal_text(*want);
                push_str(&mut s, w.as_str());
                s
            },
            Error::ServiceRunning(wait) => {
                let mut s = String::from_str("Service is already running check again in ");
                let w = decimal_text(*wait);
                push_str(&mut s, w.as_str());
                s
            },
        }
    }
}

/// How quickly an outgoing transaction should confirm.
#[derive(Clone, Copy, Debug, PartialEq, Eq)]
pub enum Priority {
    Normal,
    Priority,
}

impl Priority {
    /// The fee that a transaction of this priority is assumed to cost before
    /// the real fee is known.
    pub open spec fn spec_blind_estimate(self) -> u64 {
        match self {
            Priority::Normal => 4200,
            Priority::Priority => 8400,
        }
    }

    /// The fee that a transaction of this priority is assumed to cost before
    /// the real fee is known.
    pub fn blind_estimate(&self) -> (fee: u64)
        ensures
            fee == self.spec_blind_estimate(),
    {
        match self {
            Priority::Normal => 4200,
            Priority::Priority => 8400,
        }
    }
}

impl Default for Priority {
    fn default() -> (p: Priority)
        ensures
            p == Priority::Normal,
    {
        Priority::Normal
    }
}

/// A transaction of the wallet.
#[derive(Clone, Debug)]
pub struct Transaction {
    pub amount: u64,
    pub received: bool,
    pub address: Address,
    pub priority: Priority,
    pub canceled: bool,
    /// Hexadecimal id; `None` until the service has created the transaction.
    pub txid: Option<String>,
    pub fee: Option<u64>,
    /// `None` until the transaction is confirmed in the blockchain.
    pub timestamp: Option<u64>,
    /// Bits of the `f64` price of a bitcoin in US dollars when it confirmed.
    pub btc_price_usd: Option<u64>,
}

impl Transaction {
    /// A new outgoing transaction, not yet created, paid or confirmed.
    pub open spec fn spec_new(address: Address, amount: u64, priority: Priority) -> Transaction {
        Transaction {
            amount,
            received: false,
            address,
            priority,
            canceled: false,
            txid: None,
            fee: None,
            timestamp: None,
            btc_price_usd: None,
        }
    }

    /// A new outgoing transaction, not yet created, paid or confirmed.
    pub fn new(address: Address, amount: u64, priority: Priority) -> (t: Transaction)
        ensures
            t == Transaction::spec_new(address, amount, priority),
            t.address == address,
            t.amount == amount,
            t.priority == priority,
            !t.received && !t.canceled,
            t.txid is None && t.fee is None && t.timestamp is None && t.btc_price_usd is None,
    {
        Transaction {
            amount,
            received: false,
            address,
            priority,
            canceled: false,
            txid: None,
            fee: None,
            timestamp: None,
            btc_price_usd: None,
        }
    }
}

/// The lock on a wallet: when it was last taken, and by which service.
#[derive(Clone, Copy, Debug)]
pub struct Lock(pub u64, pub Id);

impl Lock {
    /// Whether the service `id` holds the lock at time `now`.
    pub open spec fn holds(self, id: Seq<u8>, now: int) -> bool {
        self.1@ == id && self.0 + LOCK > now
    }

    /// Whether the service `id` may take the lock at time `now`: it holds it
    /// already, or the lock has run out.
    pub open spec fn may_take(self, id: Seq<u8>, now: int) -> bool {
        self.1@ == id || self.0 + LOCK < now
    }

    /// A lock that nobody has taken.
    pub fn new() -> (l: Lock)
        ensures
            l.0 == 0,
            l.1@ == Seq::new(32, |i: int| 0u8),
    {
        Lock(0, Id::default())
    }

    /// Takes the lock for the service `id` at time `now`, and returns `now`;
    /// fails, saying how long the lock still runs, while another service holds it.
    pub fn lock(&mut self, id: Id, now: u64) -> (r: Result<u64, Error>)
        requires
            old(self).1@ != id@ ==> old(self).0 + LOCK <= u64::MAX,
        ensures
            old(self).may_take(id@, now as int) ==> {
                &&& r matches Ok(t) && t == now
                &&& final(self).0 == now
                &&& final(self).1@ == id@
            },
            !old(self).may_take(id@, now as int) ==> {
                &&& r matches Err(Error::ServiceRunning(wait)) && wait == old(self).0 + LOCK - now
                &&& *final(self) == *old(self)
            },
    {
        if self.1.same(&id) || self.0 + LOCK < now {
            self.0 = now;
            self.1 = id;
            Ok(self.0)
        } else {
            Err(Error::ServiceRunning(self.0 + LOCK - now))
        }
    }

    /// Whether the service `id` holds the lock at time `now`.
    pub fn is_locked(&self, id: &Id, now: u64) -> (r: bool)
        requires
            self.1@ == id@ ==> self.0 + LOCK <= u64::MAX,
        ensures
            r == self.holds(id@, now as int),
    {
        self.1.same(id) && self.0 + LOCK > now
    }
}

impl Default for Lock {
    fn default() -> (l: Lock)
        ensures
            l.0 == 0,
            l.1@ == Seq::new(32, |i: int| 0u8),
    {
        Lock::new()
    }
}

/// After a service has taken the lock at `now`, it holds it until
/// `now + LOCK`.
pub proof fn lemma_lock_held_until_expiry(l: Lock, id: Seq<u8>, now: u64, t: int)
    requires
        l.0 == now,
        l.1@ == id,
        t < now + LOCK,
    ensures
        l.holds(id, t),
{
}

/// While one service holds the lock, no other service may take it.
pub proof fn lemma_lock_exclusive(l: Lock, holder: Seq<u8>, other: Seq<u8>, t: int)
    requires
        l.holds(holder, t),
        holder != other,
    ensures
        !l.may_take(other, t),
{
}

/// The service that took the lock last may always take it again.
pub proof fn lemma_lock_retake(l: Lock, t: int)
    ensures
        l.may_take(l.1@, t),
{
}

/// The changes that make up the state of a BDK wallet.
#[verifier::external_type_specification]
#[verifier::external_body]
pub struct ExChangeSet(bdk_wallet::ChangeSet);

/// The `Clone` of `bdk_wallet::ChangeSet` (derived in BDK).  Nothing is
/// claimed of the copy: the change set is a value that contracts cannot look
/// into.
pub assume_specification[ <bdk_wallet::ChangeSet as std::clone::Clone>::clone ](c: &bdk_wallet::ChangeSet) -> bdk_wallet::ChangeSet;

/// A bitcoin network.
#[derive(Clone, Copy, Debug, PartialEq, Eq, Structural)]
pub enum Chain {
    /// The main network.
    Bitcoin,
    Testnet,
    Testnet4,
    Signet,
    Regtest,
}

/// A network as the bitcoin crate names it.
#[verifier::external_type_specification]
#[verifier::external_body]
pub struct ExNetwork(bitcoin::Network);

/// The `bitcoin::Network` of a network, variant for variant.  Nothing is
/// claimed: the value is only handed on to the bitcoin crate and BDK.
#[verifier::external_body]
fn bitcoin_network(chain: Chain) -> bitcoin::Network {
    match chain {
        Chain::Bitcoin => bitcoin::Network::Bitcoin,
        Chain::Testnet => bitcoin::Network::Testnet,
        Chain::Testnet4 => bitcoin::Network::Testnet4,
        Chain::Signet => bitcoin::Network::Signet,
        Chain::Regtest => bitcoin::Network::Regtest,
    }
}

/// The seed of a wallet's keys that a secret key gives, if the bytes are a
/// valid secret key: `air::Id::hash` of the key.
pub uninterp spec fn secret_key_seed(secret: Seq<u8>) -> Option<Seq<u8>>;

/// Reads a secp256k1 secret key with `air::names::secp256k1::SecretKey::
/// from_array` and hashes it with `air::Id::hash` (whose `Hash` of a secret
/// key writes its bytes).  Claimed: the result is the named
/// `secret_key_seed` of the bytes.
#[verifier::external_body]
fn seed_of_secret(secret: &[u8; 32]) -> (seed: Option<[u8; 32]>)
    ensures
        match seed {
            Some(s) => secret_key_seed(secret@) == Some(s@),
            None => secret_key_seed(secret@) is None,
        },
{
    match air::names::secp256k1::SecretKey::from_array(*secret) {
        Ok(key) => Some(<[u8; 32]>::from(air::Id::hash(&key))),
        Err(_) => None,
    }
}

/// The changes that creating a BDK wallet on a network stages, where it can
/// be created: the wallet on BIP-86 descriptors (external and internal
/// keychains) of the master key that `Xpriv::new_master` derives from the
/// seed for that network.  Each step is computed from its input alone.
pub uninterp spec fn bip86_change_set(seed: Seq<u8>, chain: Chain) -> Option<bdk_wallet::ChangeSet>;

/// Derives the master key of a seed with `bitcoin::bip32::Xpriv::new_master`
/// for a network, builds a BDK wallet on BIP-86 descriptors of that key
/// (external and internal keychains) with `bdk_wallet::Wallet::create`,
/// `network` and `create_wallet_no_persist`, and takes the changes that
/// creating it staged.  Claimed: the result is the named `bip86_change_set`
/// of the seed and network.
#[verifier::external_body]
fn bip86_changeset(seed: &[u8; 32], chain: Chain) -> (c: Option<bdk_wallet::ChangeSet>)
    ensures
        c == bip86_change_set(seed@, chain),
{
    let key = match bitcoin::bip32::Xpriv::new_master(bitcoin_network(chain), seed) {
        Ok(key) => key,
        Err(_) => return None,
    };
    let params = bdk_wallet::Wallet::create(
        bdk_wallet::template::Bip86(key, bdk_wallet::KeychainKind::External),
        bdk_wallet::template::Bip86(key, bdk_wallet::KeychainKind::Internal),
    ).network(bitcoin_network(chain));
    match params.create_wallet_no_persist() {
        Ok(mut wallet) => wallet.take_staged(),
        Err(_) => None,
    }
}

/// Whether the entry with key `ka` and confirmation time `ta` comes before the
/// entry with key `kb` and time `tb` in a wallet's history: confirmed
/// transactions first, by time, then unconfirmed ones; ties by key.
pub open spec fn comes_before(ka: u64, ta: Option<u64>, kb: u64, tb: Option<u64>) -> bool {
    match (ta, tb) {
        (None, None) => ka < kb,
        (None, Some(_)) => false,
        (Some(_), None) => true,
        (Some(x), Some(y)) => x < y || (x == y && ka < kb),
    }
}

/// Whether `h` lists every entry of `m` once, each with its key, in the order
/// of `comes_before`.
pub open spec fn is_history(h: Seq<(u64, Transaction)>, m: Map<u64, Transaction>) -> bool {
    &&& h.len() == m.dom().len()
    &&& forall|i: int, j: int| #![trigger h[i], h[j]] 0 <= i < j < h.len() ==> h[i].0 != h[j].0
    &&& forall|i: int| 0 <= i < h.len() ==> #[trigger] m.contains_key(h[i].0) && m[h[i].0] == h[i].1
    &&& forall|k: u64| #[trigger] m.contains_key(k) ==> exists|i: int| 0 <= i < h.len() && h[i].0 == k
    &&& forall|i: int, j: int|
        #![trigger h[i], h[j]]
        0 <= i < j < h.len() ==> comes_before(h[i].0, h[i].1.timestamp, h[j].0, h[j].1.timestamp)
}

/// The entries of a history without the references.
pub open spec fn deref_entries(h: Seq<(u64, &Transaction)>) -> Seq<(u64, Transaction)> {
    h.map_values(|e: (u64, &Transaction)| (e.0, *e.1))
}

/// `comes_before` is transitive.
pub proof fn lemma_comes_before_transitive(ka: u64, ta: Option<u64>, kb: u64, tb: Option<u64>, kc: u64, tc: Option<u64>)
    requires
        comes_before(ka, ta, kb, tb),
        comes_before(kb, tb, kc, tc),
    ensures
        comes_before(ka, ta, kc, tc),
{
}

/// Of two entries with different keys, one comes before the other.
pub proof fn lemma_comes_before_total(ka: u64, ta: Option<u64>, kb: u64, tb: Option<u64>)
    requires
        ka != kb,
    ensures
        comes_before(ka, ta, kb, tb) || comes_before(kb, tb, ka, ta),
{
}

fn runs_before(ka: u64, ta: Option<u64>, kb: u64, tb: Option<u64>) -> (r: bool)
    ensures
        r == comes_before(ka, ta, kb, tb),
{
    match (ta, tb) {
        (None, None) => ka < kb,
        (None, Some(_)) => false,
        (Some(_), None) => true,
        (Some(x), Some(y)) => x < y || (x == y && ka < kb),
    }
}

/// Whether the entries are in the order of `comes_before`.
pub open spec fn in_order(h: Seq<(u64, &Transaction)>) -> bool {
    forall|a: int, b: int|
        #![trigger h[a], h[b]]
        0 <= a < b < h.len() ==> comes_before(h[a].0, h[a].1.timestamp, h[b].0, h[b].1.timestamp)
}

/// Inserts an entry into entries in order, at the place that keeps them in
/// order, and returns that place.
fn insert_in_order<'a>(sorted: &mut Vec<(u64, &'a Transaction)>, e: (u64, &'a Transaction)) -> (p: usize)
    requires
        in_order(old(sorted)@),
        forall|i: int| 0 <= i < old(sorted)@.len() ==> #[trigger] old(sorted)@[i].0 != e.0,
    ensures
        p <= old(sorted)@.len(),
        final(sorted)@ == old(sorted)@.insert(p as int, e),
        in_order(final(sorted)@),
{
    let mut p: usize = 0;
    while p < sorted.len() && runs_before(sorted[p].0, sorted[p].1.timestamp, e.0, e.1.timestamp)
        invariant
            p <= sorted@.len(),
            forall|i: int| 0 <= i < p ==> comes_before(#[trigger] sorted@[i].0, sorted@[i].1.timestamp, e.0, e.1.timestamp),
        decreases sorted@.len() - p,
    {
        p = p + 1;
    }
    proof {
        if p < sorted@.len() {
            lemma_comes_before_total(e.0, e.1.timestamp, sorted@[p as int].0, sorted@[p as int].1.timestamp);
            assert forall|q: int| p <= q < sorted@.len() implies comes_before(e.0, e.1.timestamp, #[trigger] sorted@[q].0, sorted@[q].1.timestamp) by {
                if q > p {
                    assert(comes_before(sorted@[p as int].0, sorted@[p as int].1.timestamp, sorted@[q].0, sorted@[q].1.timestamp));
                    lemma_comes_before_transitive(e.0, e.1.timestamp, sorted@[p as int].0, sorted@[p as int].1.timestamp, sorted@[q].0, sorted@[q].1.timestamp);
                }
            }
        }
    }
    let ghost old_sorted = sorted@;
    sorted.insert(p, e);
    proof {
        assert forall|a: int, b: int|
            #![trigger sorted@[a], sorted@[b]]
            0 <= a < b < sorted@.len() implies comes_before(sorted@[a].0, sorted@[a].1.timestamp, sorted@[b].0, sorted@[b].1.timestamp) by {
            if b < p {
                assert(sorted@[a] == old_sorted[a] && sorted@[b] == old_sorted[b]);
            } else if a > p {
                assert(sorted@[a] == old_sorted[a - 1] && sorted@[b] == old_sorted[b - 1]);
            } else if a == p {
                assert(sorted@[b] == old_sorted[b - 1]);
            } else if b == p {
                assert(sorted@[a] == old_sorted[a]);
            } else {
                assert(sorted@[a] == old_sorted[a] && sorted@[b] == old_sorted[b - 1]);
            }
        }
    }
    p
}

/// Every entry carries a key of the map with that key's transaction.
pub open spec fn entries_of(s: Seq<(u64, &Transaction)>, m: Map<u64, Transaction>) -> bool {
    forall|i: int| 0 <= i < s.len() ==> #[trigger] m.contains_key(s[i].0) && m[s[i].0] == *s[i].1
}

/// Every key of `s` is the key of one of the first `n` entries of `src`.
#[verifier::opaque]
pub open spec fn keys_among(s: Seq<(u64, &Transaction)>, src: Seq<(u64, &Transaction)>, n: int) -> bool {
    forall|i: int| 0 <= i < s.len() ==> exists|j: int| 0 <= j < n && #[trigger] s[i].0 == src[j].0
}

/// The key of each of the first `n` entries of `src` is a key of `s`.
#[verifier::opaque]
pub open spec fn keys_cover(s: Seq<(u64, &Transaction)>, src: Seq<(u64, &Transaction)>, n: int) -> bool {
    forall|j: int|
        #![trigger src[j]]
        0 <= j < n ==> exists|i: int| #![trigger s[i]] 0 <= i < s.len() && s[i].0 == src[j].0
}

/// Keys of `src` strictly increase.
pub open spec fn keys_increase(src: Seq<(u64, &Transaction)>) -> bool {
    forall|a: int, b: int| 0 <= a < b < src.len() ==> src[a].0 < src[b].0
}

/// The next entry's key is none of the keys placed so far.
proof fn lemma_next_key_fresh(s: Seq<(u64, &Transaction)>, src: Seq<(u64, &Transaction)>, n: int)
    requires
        keys_among(s, src, n),
        keys_increase(src),
        0 <= n < src.len(),
    ensures
        forall|i: int| 0 <= i < s.len() ==> #[trigger] s[i].0 != src[n].0,
{
    reveal(keys_among);
    assert forall|i: int| 0 <= i < s.len() implies #[trigger] s[i].0 != src[n].0 by {
        let j = choose|j: int| 0 <= j < n && #[trigger] s[i].0 == src[j].0;
        assert(src[j].0 < src[n].0);
    }
}

/// Placing the next entry keeps every placed key among the entries seen.
proof fn lemma_place_next_among(
    old_s: Seq<(u64, &Transaction)>,
    s: Seq<(u64, &Transaction)>,
    src: Seq<(u64, &Transaction)>,
    n: int,
    p: int,
)
    requires
        0 <= n < src.len(),
        0 <= p <= old_s.len(),
        s == old_s.insert(p, src[n]),
        keys_among(old_s, src, n),
    ensures
        keys_among(s, src, n + 1),
{
    reveal(keys_among);
    assert forall|i: int| 0 <= i < s.len() implies exists|j: int| 0 <= j < n + 1 && #[trigger] s[i].0 == src[j].0 by {
        if i < p {
            assert(s[i] == old_s[i]);
        } else if i > p {
            assert(s[i] == old_s[i - 1]);
        } else {
            assert(s[i].0 == src[n].0);
        }
    }
}

/// Placing the next entry keeps every entry seen placed.
proof fn lemma_place_next_cover(
    old_s: Seq<(u64, &Transaction)>,
    s: Seq<(u64, &Transaction)>,
    src: Seq<(u64, &Transaction)>,
    n: int,
    p: int,
)
    requires
        0 <= n < src.len(),
        0 <= p <= old_s.len(),
        s == old_s.insert(p, src[n]),
        keys_cover(old_s, src, n),
    ensures
        keys_cover(s, src, n + 1),
{
    reveal(keys_cover);
    assert forall|j: int|
        #![trigger src[j]]
        0 <= j < n + 1 implies exists|i: int| #![trigger s[i]] 0 <= i < s.len() && s[i].0 == src[j].0 by {
        if j < n {
            let i = choose|i: int| #![trigger old_s[i]] 0 <= i < old_s.len() && old_s[i].0 == src[j].0;
            if i < p {
                assert(s[i] == old_s[i]);
            } else {
                assert(s[i + 1] == old_s[i]);
            }
        } else {
            assert(s[p] == src[n]);
        }
    }
}

/// Placing an entry of the map keeps every placed entry one of the map.
proof fn lemma_place_next_entries(
    old_s: Seq<(u64, &Transaction)>,
    s: Seq<(u64, &Transaction)>,
    e: (u64, &Transaction),
    p: int,
    m: Map<u64, Transaction>,
)
    requires
        0 <= p <= old_s.len(),
        s == old_s.insert(p, e),
        entries_of(old_s, m),
        m.contains_key(e.0) && m[e.0] == *e.1,
    ensures
        entries_of(s, m),
{
    assert forall|i: int| 0 <= i < s.len() implies #[trigger] m.contains_key(s[i].0) && m[s[i].0] == *s[i].1 by {
        if i < p {
            assert(s[i] == old_s[i]);
        } else if i > p {
            assert(s[i] == old_s[i - 1]);
        }
    }
}

/// Entries placed in order, covering all keys of the map, form its history.
proof fn lemma_placed_is_history(s: Seq<(u64, &Transaction)>, src: Seq<(u64, &Transaction)>, m: Map<u64, Transaction>)
    requires
        s.len() == m.dom().len(),
        src.len() == s.len(),
        entries_of(s, m),
        keys_cover(s, src, src.len() as int),
        forall|k: u64| #[trigger] m.contains_key(k) ==> exists|i: int| 0 <= i < src.len() && src[i].0 == k,
        in_order(s),
    ensures
        is_history(deref_entries(s), m),
{
    reveal(keys_cover);
    let h = deref_entries(s);
    assert forall|k: u64| #[trigger] m.contains_key(k) implies exists|i: int| 0 <= i < h.len() && h[i].0 == k by {
        let j = choose|j: int| 0 <= j < src.len() && src[j].0 == k;
        let i = choose|i: int| #![trigger s[i]] 0 <= i < s.len() && s[i].0 == src[j].0;
        assert(h[i].0 == k);
    }
    assert forall|i: int, j: int|
        #![trigger h[i], h[j]]
        0 <= i < j < h.len() implies comes_before(h[i].0, h[i].1.timestamp, h[j].0, h[j].1.timestamp) by {
        assert(h[i] == (s[i].0, *s[i].1));
        assert(h[j] == (s[j].0, *s[j].1));
        assert(comes_before(s[i].0, s[i].1.timestamp, s[j].0, s[j].1.timestamp));
    }
    assert forall|i: int, j: int| #![trigger h[i], h[j]] 0 <= i < j < h.len() implies h[i].0 != h[j].0 by {
        assert(h[i] == (s[i].0, *s[i].1));
        assert(h[j] == (s[j].0, *s[j].1));
        assert(comes_before(s[i].0, s[i].1.timestamp, s[j].0, s[j].1.timestamp));
        assert(m.contains_key(s[i].0) && m.contains_key(s[j].0));
    }
    assert forall|i: int| 0 <= i < h.len() implies #[trigger] m.contains_key(h[i].0) && m[h[i].0] == h[i].1 by {
        assert(h[i] == (s[i].0, *s[i].1));
    }
}

/// Orders entries of a map, given in increasing order of keys, by `comes_before`.
fn order_entries<'a>(entries: Vec<(u64, &'a Transaction)>, Ghost(m): Ghost<Map<u64, Transaction>>) -> (h: Vec<(u64, &'a Transaction)>)
    requires
        entries@.len() == m.dom().len(),
        entries_of(entries@, m),
        forall|k: u64| #[trigger] m.contains_key(k) ==> exists|i: int|
            0 <= i < entries@.len() && entries@[i].0 == k,
        keys_increase(entries@),
    ensures
        is_history(deref_entries(h@), m),
{
    let mut sorted: Vec<(u64, &Transaction)> = Vec::new();
    let n = entries.len();
    let mut idx: usize = 0;
    proof {
        reveal(keys_among);
        reveal(keys_cover);
    }
    while idx < n
        invariant
            n == entries@.len(),
            idx <= n,
            entries_of(entries@, m),
            keys_increase(entries@),
            sorted@.len() == idx,
            entries_of(sorted@, m),
            keys_among(sorted@, entries@, idx as int),
            keys_cover(sorted@, entries@, idx as int),
            in_order(sorted@),
        decreases n - idx,
    {
        let e = entries[idx];
        proof {
            lemma_next_key_fresh(sorted@, entries@, idx as int);
            assert(e == entries@[idx as int]);
            assert(m.contains_key(entries@[idx as int].0));
        }
        let ghost old_sorted = sorted@;
        let p = insert_in_order(&mut sorted, e);
        proof {
            lemma_place_next_among(old_sorted, sorted@, entries@, idx as int, p as int);
            lemma_place_next_cover(old_sorted, sorted@, entries@, idx as int, p as int);
            lemma_place_next_entries(old_sorted, sorted@, e, p as int, m);
        }
        idx = idx + 1;
    }
    proof {
        lemma_placed_is_history(sorted@, entries@, m);
    }
    sorted
}

/// Keys that a map's iteration yields are strictly increasing.
proof fn lemma_increasing_keys(keys: Seq<u64>)
    requires
        vstd::std_specs::btree::increasing_seq(keys),
    ensures
        forall|a: int, b: int| 0 <= a < b < keys.len() ==> keys[a] < keys[b],
{
    vstd::std_specs::btree::axiom_increasing_seq_meaning(keys);
    assert forall|a: int, b: int| 0 <= a < b < keys.len() implies keys[a] < keys[b] by {
        assert(vstd::std_specs::cmp::OrdSpec::cmp_spec(&keys[a], &keys[b]) is Less);
    }
}

/// The state of a wallet.
#[derive(Clone, Debug)]
pub struct Wallet {
    pub lock: Lock,
    pub author: Name,
    pub balance: u64,
    /// Bits of the `f64` price of a bitcoin in US dollars.
    pub btc_price_usd: u64,
    /// Receiving addresses that the service has stored and nobody has taken.
    pub addresses: Vec<Option<Address>>,
    /// Transactions by the time at which they were made.
    pub transactions: BTreeMap<u64, Transaction>,
    /// The state of the underlying BDK wallet.
    pub internal: bdk_wallet::ChangeSet,
}

/// How many receiving addresses a wallet keeps.
pub const ADDRESS_SLOTS: usize = 10;

impl Wallet {
    /// The contract's identifier.
    pub fn id() -> (id: Id)
        ensures
            id@ == air_id_hash("Wallet"@),
    {
        Id::hash("Wallet")
    }

    /// A new wallet of `author` over the given BDK state: unlocked, empty, with
    /// no price, addresses or transactions.
    pub fn with_changeset(author: Name, internal: bdk_wallet::ChangeSet) -> (w: Wallet)
        ensures
            w.lock.0 == 0,
            w.lock.1@ == Seq::new(32, |i: int| 0u8),
            w.author == author,
            w.balance == 0,
            w.btc_price_usd == 0,
            w.addresses@.len() == ADDRESS_SLOTS,
            forall|i: int| 0 <= i < ADDRESS_SLOTS ==> #[trigger] w.addresses@[i] is None,
            w.transactions@ == Map::<u64, Transaction>::empty(),
            w.internal == internal,
    {
        let mut addresses: Vec<Option<Address>> = Vec::new();
        let mut i: usize = 0;
        while i < ADDRESS_SLOTS
            invariant
                i <= ADDRESS_SLOTS,
                addresses@.len() == i,
                forall|j: int| 0 <= j < i ==> #[trigger] addresses@[j] is None,
            decreases ADDRESS_SLOTS - i,
        {
            addresses.push(None);
            i = i + 1;
        }
        Wallet {
            lock: Lock::new(),
            author,
            balance: 0,
            btc_price_usd: 0,
            addresses,
            transactions: BTreeMap::new(),
            internal,
        }
    }

    /// A new wallet of `author` whose keys derive from its secret key: the
    /// seed is the hash of the key, and the wallet is a BIP-86 wallet on the
    /// main network.  `None` exactly where the bytes are no secret key or BDK
    /// cannot derive the keys or build the wallet.
    pub fn init(secret: &[u8; 32], author: Name) -> (w: Option<Wallet>)
        ensures
            match secret_key_seed(secret@) {
                None => w is None,
                Some(seed) => match bip86_change_set(seed, Chain::Bitcoin) {
                    None => w is None,
                    Some(c) => w matches Some(w) && w.internal == c,
                },
            },
            w matches Some(w) ==> {
                &&& w.lock.0 == 0
                &&& w.lock.1@ == Seq::new(32, |i: int| 0u8)
                &&& w.author == author
                &&& w.balance == 0
                &&& w.btc_price_usd == 0
                &&& w.addresses@.len() == ADDRESS_SLOTS
                &&& forall|i: int| 0 <= i < ADDRESS_SLOTS ==> #[trigger] w.addresses@[i] is None
                &&& w.transactions@ == Map::<u64, Transaction>::empty()
            },
    {
        let seed = match seed_of_secret(secret) {
            Some(seed) => seed,
            None => return None,
        };
        match bip86_changeset(&seed, Chain::Bitcoin) {
            Some(internal) => Some(Wallet::with_changeset(author, internal)),
            None => None,
        }
    }

    /// The balance.
    pub fn balance(&self) -> (b: u64)
        ensures
            b == self.balance,
    {
        self.balance
    }

    /// Every transaction with its key, confirmed ones first by time, then
    /// unconfirmed ones; ties by key.
    pub fn history(&self) -> (h: Vec<(u64, &Transaction)>)
        ensures
            is_history(deref_entries(h@), self.transactions@),
    {
        let mut entries: Vec<(u64, &Transaction)> = Vec::new();
        let ghost m = self.transactions@;
        let iter = self.transactions.iter();
        let ghost s = iter.remaining();
        proof {
            vstd::std_specs::btree::axiom_spec_btree_map_iter(&self.transactions);
        }
        for kv in it: iter
            invariant
                m == self.transactions@,
                it.seq() == s,
                entries@.len() == it.index(),
                forall|i: int| 0 <= i < it.index() ==> #[trigger] entries@[i] == (*s[i].0, s[i].1),
        {
            let (k, t) = kv;
            entries.push((*k, t));
        }
        proof {
            assert(entries@.len() == s.len());
            assert(entries@.len() == m.dom().len());
            assert forall|i: int| 0 <= i < entries@.len() implies #[trigger] m.contains_key(entries@[i].0)
                && m[entries@[i].0] == *entries@[i].1 by {
                assert(m.contains_key(*s[i].0));
            }
            assert forall|k: u64| #[trigger] m.contains_key(k) implies exists|i: int|
                0 <= i < entries@.len() && entries@[i].0 == k by {
                assert(s.contains((&k, &m[k])));
                let i = choose|i: int| 0 <= i < s.len() && s[i] == (&k, &m[k]);
                assert(entries@[i].0 == k);
            }
            let keys = s.map_values(|kv: (&u64, &Transaction)| *kv.0);
            lemma_increasing_keys(keys);
            assert forall|a: int, b: int| 0 <= a < b < entries@.len() implies entries@[a].0
                < entries@[b].0 by {
                assert(keys[a] == entries@[a].0);
                assert(keys[b] == entries@[b].0);
            }
        }
        order_entries(entries, Ghost(m))
    }

    /// Every transaction, confirmed ones first by time, then unconfirmed ones.
    pub fn transactions(&self) -> (v: Vec<&Transaction>)
        ensures
            exists|keys: Seq<u64>|
                #![trigger keys.len()]
                keys.len() == v@.len() && is_history(
                    Seq::new(v@.len(), |i: int| (keys[i], *v@[i])),
                    self.transactions@,
                ),
    {
        let h = self.history();
        let mut v: Vec<&Transaction> = Vec::new();
        let mut i: usize = 0;
        while i < h.len()
            invariant
                i <= h.len(),
                v@.len() == i,
                forall|j: int| 0 <= j < i ==> #[trigger] v@[j] == h@[j].1,
            decreases h.len() - i,
        {
            v.push(h[i].1);
            i = i + 1;
        }
        proof {
            let keys = Seq::new(h@.len(), |j: int| h@[j].0);
            assert(Seq::new(v@.len(), |j: int| (keys[j], *v@[j])) =~= deref_entries(h@));
            assert(keys.len() == v@.len());
        }
        v
    }
}

/// Whether `i` is the first slot that holds an address.
pub open spec fn first_address(slots: Seq<Option<Address>>, i: int) -> bool {
    &&& 0 <= i < slots.len()
    &&& slots[i] is Some
    &&& forall|j: int| 0 <= j < i ==> #[trigger] slots[j] is None
}

/// Whether some slot holds an address.
pub open spec fn has_address(slots: Seq<Option<Address>>) -> bool {
    exists|i: int| 0 <= i < slots.len() && #[trigger] slots[i] is Some
}

/// Takes a receiving address out of the wallet; the author may use it at once.
#[derive(Clone, Copy, Debug)]
pub struct GetAddress;

impl GetAddress {
    /// The reactant's identifier.
    pub fn id() -> (id: Id)
        ensures
            id@ == air_id_hash("GetAddress"@),
    {
        Id::hash("GetAddress")
    }

    /// Gives the author the first stored address and removes it from the
    /// wallet.  Fails for anybody else, and when no address is stored.
    pub fn apply(self, wallet: &mut Wallet, metadata: Metadata) -> (r: Result<Address, Error>)
        ensures
            metadata.signer@ != old(wallet).author@ ==> {
                &&& r matches Err(Error::NotYourWallet(n)) && n@ == old(wallet).author@
                &&& *final(wallet) == *old(wallet)
            },
            metadata.signer@ == old(wallet).author@ && !has_address(old(wallet).addresses@) ==> {
                &&& r matches Err(Error::NoAddresses)
                &&& *final(wallet) == *old(wallet)
            },
            metadata.signer@ == old(wallet).author@ && has_address(old(wallet).addresses@) ==> exists|i: int|
                #[trigger] first_address(old(wallet).addresses@, i) && {
                    &&& r == Ok::<Address, Error>(old(wallet).addresses@[i]->0)
                    &&& final(wallet).addresses@ == old(wallet).addresses@.update(i, None)
                    &&& final(wallet).lock == old(wallet).lock
                    &&& final(wallet).author == old(wallet).author
                    &&& final(wallet).balance == old(wallet).balance
                    &&& final(wallet).btc_price_usd == old(wallet).btc_price_usd
                    &&& final(wallet).transactions == old(wallet).transactions
                    &&& final(wallet).internal == old(wallet).internal
                },
    {
        if !metadata.signer.same(&wallet.author) {
            return Err(Error::NotYourWallet(wallet.author.clone()));
        }
        let mut i: usize = 0;
        while i < wallet.addresses.len()
            invariant
                *wallet == *old(wallet),
                metadata.signer@ == old(wallet).author@,
                i <= wallet.addresses@.len(),
                forall|j: int| 0 <= j < i ==> #[trigger] wallet.addresses@[j] is None,
            decreases wallet.addresses@.len() - i,
        {
            if wallet.addresses[i].is_some() {
                let ghost before = wallet.addresses@;
                let taken = wallet.addresses.remove(i);
                wallet.addresses.insert(i, None);
                proof {
                    assert(first_address(before, i as int));
                    assert(wallet.addresses@ =~= before.update(i as int, None));
                }
                match taken {
                    Some(a) => return Ok(a),
                    None => {
                        assert(false);
                        return Err(Error::NoAddresses);
                    },
                }
            }
            i = i + 1;
        }
        assert(!has_address(old(wallet).addresses@));
        Err(Error::NoAddresses)
    }
}

/// What taking an address does to a wallet, as an event of the wallet's
/// contract: the author gets the first stored address, which leaves the
/// wallet; anybody else, or a wallet without addresses, is refused.
pub open spec fn takes_address(
    before: Wallet,
    metadata: Metadata,
    result: Result<(), EventError<(), Error>>,
    after: Wallet,
) -> bool {
    if metadata.signer@ != before.author@ {
        result matches Err(EventError::Event(Error::NotYourWallet(n))) && n@ == before.author@ && after == before
    } else if !has_address(before.addresses@) {
        result matches Err(EventError::Event(Error::NoAddresses)) && after == before
    } else {
        &&& result is Ok
        &&& exists|i: int|
            #[trigger] first_address(before.addresses@, i) && {
                &&& after.addresses@ == before.addresses@.update(i, None)
                &&& after.lock == before.lock
                &&& after.author == before.author
                &&& after.balance == before.balance
                &&& after.btc_price_usd == before.btc_price_usd
                &&& after.transactions == before.transactions
                &&& after.internal == before.internal
            }
    }
}

impl Reactant<Wallet> for GetAddress {
    type StoreError = ();

    type Error = Error;

    open spec fn applies(
        &self,
        before: Wallet,
        metadata: Metadata,
        result: Result<(), EventError<(), Error>>,
        after: Wallet,
    ) -> bool {
        takes_address(before, metadata, result, after)
    }

    fn apply(self, doc: &mut Wallet, metadata: Metadata) -> (r: Result<(), EventError<(), Error>>) {
        match GetAddress::apply(self, doc, metadata) {
            Ok(_) => Ok(()),
            Err(e) => Err(EventError::Event(e)),
        }
    }
}

/// Sends an amount to an address with a priority: records an outgoing
/// transaction for the wallet service to create and broadcast.
#[derive(Debug)]
pub struct Send(pub Address, pub u64, pub Priority);

impl Send {
    /// The reactant's identifier.
    pub fn id() -> (id: Id)
        ensures
            id@ == air_id_hash("Send"@),
    {
        Id::hash("Send")
    }

    /// What sending costs the wallet: the amount with the blind fee estimate.
    pub open spec fn cost(self) -> int {
        self.1 + self.2.spec_blind_estimate()
    }

    /// For the author, takes the amount and the estimated fee from the balance
    /// and records the transaction under the time of the request, which it
    /// returns.  Fails for anybody else, and when the balance does not cover
    /// the cost.
    pub fn apply(self, wallet: &mut Wallet, metadata: Metadata) -> (r: Result<u64, Error>)
        requires
            metadata.signer@ == old(wallet).author@ ==> self.cost() <= u64::MAX,
        ensures
            metadata.signer@ != old(wallet).author@ ==> {
                &&& r matches Err(Error::NotYourWallet(n)) && n@ == old(wallet).author@
                &&& *final(wallet) == *old(wallet)
            },
            metadata.signer@ == old(wallet).author@ && old(wallet).balance < self.cost() ==> {
                &&& r matches Err(Error::InsufficentFunds(have, want)) && have == old(wallet).balance
                    && want == self.cost()
                &&& *final(wallet) == *old(wallet)
            },
            metadata.signer@ == old(wallet).author@ && old(wallet).balance >= self.cost() ==> {
                &&& r == Ok::<u64, Error>(metadata.timestamp)
                &&& final(wallet).balance == old(wallet).balance - self.cost()
                &&& final(wallet).transactions@ == old(wallet).transactions@.insert(
                    metadata.timestamp,
                    Transaction::spec_new(self.0, self.1, self.2),
                )
                &&& final(wallet).lock == old(wallet).lock
                &&& final(wallet).author == old(wallet).author
                &&& final(wallet).btc_price_usd == old(wallet).btc_price_usd
                &&& final(wallet).addresses == old(wallet).addresses
                &&& final(wallet).internal == old(wallet).internal
            },
    {
        if !metadata.signer.same(&wallet.author) {
            return Err(Error::NotYourWallet(wallet.author.clone()));
        }
        let estimate = self.1 + self.2.blind_estimate();
        if wallet.balance < estimate {
            return Err(Error::InsufficentFunds(wallet.balance, estimate));
        }
        wallet.balance = wallet.balance - estimate;
        wallet.transactions.insert(metadata.timestamp, Transaction::new(self.0, self.1, self.2));
        Ok(metadata.timestamp)
    }
}

/// What the wallet service reports to the wallet: price, balance, addresses,
/// transactions, and changes to the BDK state.
#[derive(Debug)]
pub struct Update {
    /// Bits of the `f64` price of a bitcoin in US dollars.
    pub btc_price_usd: u64,
    pub balance: u64,
    pub addresses: Vec<Address>,
    pub transactions: BTreeMap<u64, Transaction>,
    pub internal: Option<bdk_wallet::ChangeSet>,
}

impl Update {
    /// The reactant's identifier.
    pub fn id() -> (id: Id)
        ensures
            id@ == air_id_hash("Update"@),
    {
        Id::hash("Update")
    }
}

/// The service that keeps a wallet in step with the blockchain.
pub struct WalletService;

impl WalletService {
    /// The service's identifier.
    pub fn id() -> (id: Id)
        ensures
            id@ == air_id_hash("WALLETSERVICE"@),
    {
        Id::hash("WALLETSERVICE")
    }
}

/// A successful send conserves value: the new balance with the cost of the
/// transaction is the old balance.
pub proof fn lemma_send_conserves_balance(old_balance: u64, new_balance: u64, send: Send)
    requires
        old_balance >= send.cost(),
        new_balance == old_balance - send.cost(),
    ensures
        new_balance + send.cost() == old_balance,
{
}

/// A new transaction is the one requested: to its address, of its amount,
/// with its priority, outgoing, and not yet created, paid or confirmed.
pub proof fn lemma_new_transaction_is_the_request(address: Address, amount: u64, priority: Priority)
    ensures
        Transaction::spec_new(address, amount, priority).address == address,
        Transaction::spec_new(address, amount, priority).amount == amount,
        Transaction::spec_new(address, amount, priority).priority == priority,
        !Transaction::spec_new(address, amount, priority).received,
        !Transaction::spec_new(address, amount, priority).canceled,
        Transaction::spec_new(address, amount, priority).txid is None,
        Transaction::spec_new(address, amount, priority).fee is None,
        Transaction::spec_new(address, amount, priority).timestamp is None,
{
}

/// After a successful send, the wallet holds under the time of the request a
/// transaction to the requested address, of the requested amount, with the
/// requested priority.
pub proof fn lemma_send_records_the_request(before: Map<u64, Transaction>, after: Map<u64, Transaction>, send: Send, time: u64)
    requires
        after == before.insert(time, Transaction::spec_new(send.0, send.1, send.2)),
    ensures
        after.contains_key(time),
        after[time].address == send.0,
        after[time].amount == send.1,
        after[time].priority == send.2,
        !after[time].received && after[time].txid is None,
        forall|k: u64| k != time ==> after.contains_key(k) == before.contains_key(k),
{
}

} // verus!
