//! The registry of contracts and the routing of their events.
//!
//! Each contract has routes: paths within an instance's document, each with
//! the event types that may be applied there, in order.  An event is sent to
//! `<contract id>/<instance id>/<path>` and identified on the wire by its
//! index in the route; receivers look the handler up by that index.  An
//! account follows contracts and learns of their instances through shares
//! and its own announcements; the events received for an instance apply in
//! order of time.

use vstd::prelude::*;

use crate::names::{Id, Metadata, Name, hex_decode, hex_lower, is_lower_hex_digit, lemma_hex_round_trip, lemma_lower_hex_digit};
use crate::text::push_str;

verus! {

/// The identifier of a Rust type.
#[verifier::external_type_specification]
#[verifier::external_body]
pub struct ExTypeId(std::any::TypeId);

/// Compares two `std::any::TypeId` values with their `==`.  Claimed: the
/// result is whether the two values are the same (the standard library
/// documents `TypeId` equality as sameness of the types).
#[verifier::external_body]
fn type_id_eq(a: &std::any::TypeId, b: &std::any::TypeId) -> (r: bool)
    ensures
        r == (*a == *b),
{
    *a == *b
}

/// The components of a path: the text of each component that
/// `std::path::Path::components` yields for it.
pub uninterp spec fn path_components(path: Seq<char>) -> Seq<Seq<char>>;

/// Whether some text is non-empty lower-case hexadecimal.
pub open spec fn is_lower_hex_text(s: Seq<char>) -> bool {
    s.len() > 0 && forall|i: int| 0 <= i < s.len() ==> is_lower_hex_digit(#[trigger] s[i])
}

/// Two texts joined by a slash.
pub open spec fn slash_join(a: Seq<char>, b: Seq<char>) -> Seq<char> {
    a + seq!['/'] + b
}

/// Splits a path into components with `std::path::Path::components` and
/// takes the text of each (`as_os_str().to_string_lossy()`).  Claimed: the
/// result is the named `path_components` of the path; and, as the standard
/// library documents, a relative path made of two plain names joined by a
/// slash has those two names as its components (here for names of
/// lower-case hexadecimal digits, which hold no separator, no dot and no
/// prefix).
#[verifier::external_body]
fn components_of(path: &str) -> (c: Vec<String>)
    ensures
        texts(c@) == path_components(path@),
        forall|a: Seq<char>, b: Seq<char>|
            #![trigger slash_join(a, b)]
            is_lower_hex_text(a) && is_lower_hex_text(b) && path@ == slash_join(a, b) ==> texts(c@)
                == seq![a, b],
{
    std::path::Path::new(path).components().map(|c| c.as_os_str().to_string_lossy().into_owned()).collect()
}

/// The text of each of some strings.
pub open spec fn texts(v: Seq<String>) -> Seq<Seq<char>> {
    v.map_values(|s: String| s@)
}

/// Why applying an event failed: the document store failed, or the event
/// refused to apply.
#[derive(Debug)]
pub enum EventError<B, E> {
    Beaker(B),
    Event(E),
}

impl<B, E> EventError<B, E> {
    /// A failure of the document store.
    pub fn from_beaker(error: B) -> (e: EventError<B, E>)
        ensures
            e == EventError::<B, E>::Beaker(error),
    {
        EventError::Beaker(error)
    }
}

/// Why sending an event failed.
#[derive(Debug)]
pub enum Error<E> {
    /// The path does not start with a contract and an instance.
    InvalidEvent,
    /// The manager of the contracts has stopped.
    ManagerClosed,
    /// The event refused to apply.
    Event(E),
}

impl<E> Error<E> {
    /// The event's own error.
    pub fn from_event(error: E) -> (e: Error<E>)
        ensures
            e == Error::<E>::Event(error),
    {
        Error::Event(error)
    }
}

/// An event type as a route knows it: its type and its name.
#[derive(Debug)]
pub struct Erased {
    pub type_id: std::any::TypeId,
    pub name: String,
}

impl Erased {
    /// An event type, by its type and name.
    pub fn new(type_id: std::any::TypeId, name: String) -> (e: Erased)
        ensures
            e == (Erased { type_id, name }),
    {
        Erased { type_id, name }
    }
}

/// A path within an instance's document, and the event types that may be
/// applied there, in order.
#[derive(Debug)]
pub struct Route {
    pub path: Vec<String>,
    pub events: Vec<Erased>,
}

impl Route {
    /// The path, as the text of its components.
    pub open spec fn path_view(self) -> Seq<Seq<char>> {
        texts(self.path@)
    }
}

/// A contract as the registry knows it: its identifier, its type, and its
/// routes.
#[derive(Debug)]
pub struct ContractEntry {
    pub id: Id,
    pub type_id: std::any::TypeId,
    pub routes: Vec<Route>,
}

/// Whether two paths have the same components.
fn same_path(a: &Vec<String>, b: &Vec<String>) -> (r: bool)
    ensures
        r == (texts(a@) == texts(b@)),
{
    if a.len() != b.len() {
        assert(texts(a@).len() != texts(b@).len());
        return false;
    }
    let mut i: usize = 0;
    while i < a.len()
        invariant
            a@.len() == b@.len(),
            i <= a@.len(),
            forall|j: int| 0 <= j < i ==> #[trigger] a@[j]@ == b@[j]@,
        decreases a@.len() - i,
    {
        if a[i] != b[i] {
            assert(texts(a@)[i as int] != texts(b@)[i as int]);
            return false;
        }
        i = i + 1;
    }
    assert(texts(a@) =~= texts(b@));
    true
}

/// Whether the identifiers of the entries are distinct.
pub open spec fn distinct_ids(entries: Seq<ContractEntry>) -> bool {
    forall|i: int, j: int|
        #![trigger entries[i], entries[j]]
        0 <= i < entries.len() && 0 <= j < entries.len() && i != j ==> entries[i].id@ != entries[j].id@
}

/// Whether no two routes are at the same path.
pub open spec fn distinct_paths(routes: Seq<Route>) -> bool {
    forall|i: int, j: int|
        #![trigger routes[i], routes[j]]
        0 <= i < routes.len() && 0 <= j < routes.len() && i != j ==> routes[i].path_view()
            != routes[j].path_view()
}

/// The registered contracts.
#[derive(Debug)]
pub struct Contracts {
    entries: Vec<ContractEntry>,
}

impl View for Contracts {
    type V = Seq<ContractEntry>;

    closed spec fn view(&self) -> Seq<ContractEntry> {
        self.entries@
    }
}

impl Contracts {
    #[verifier::type_invariant]
    closed spec fn wf(self) -> bool {
        &&& distinct_ids(self.entries@)
        &&& forall|i: int| 0 <= i < self.entries@.len() ==> distinct_paths(#[trigger] self.entries@[i].routes@)
    }

    /// Whether a contract with this identifier is registered.
    pub open spec fn has(self, id: Seq<u8>) -> bool {
        exists|i: int| 0 <= i < self@.len() && #[trigger] self@[i].id@ == id
    }

    /// The contract registered under an identifier.
    pub open spec fn entry(self, id: Seq<u8>) -> ContractEntry {
        self@[choose|i: int| 0 <= i < self@.len() && #[trigger] self@[i].id@ == id]
    }

    /// No contracts.
    pub fn new() -> (c: Contracts)
        ensures
            forall|id: Seq<u8>| !c.has(id),
    {
        Contracts { entries: Vec::new() }
    }

    /// Registers a contract, with routes at distinct paths; one registered
    /// before under the same identifier is replaced.
    #[verifier::spinoff_prover]
    pub fn add(self, id: Id, type_id: std::any::TypeId, routes: Vec<Route>) -> (c: Contracts)
        requires
            distinct_paths(routes@),
        ensures
            c.has(id@),
            c.entry(id@) == (ContractEntry { id, type_id, routes }),
            forall|other: Seq<u8>| other != id@ ==> (c.has(other) == self.has(other)),
            forall|other: Seq<u8>| other != id@ && self.has(other) ==> c.entry(other) == self.entry(other),
    {
        proof {
            use_type_invariant(&self);
        }
        let mut entries = self.entries;
        let ghost old_entries = entries@;
        assert(forall|j: int| 0 <= j < old_entries.len() ==> distinct_paths(#[trigger] old_entries[j].routes@));
        let mut i: usize = 0;
        while i < entries.len()
            invariant
                entries@ == old_entries,
                i <= entries@.len(),
                forall|j: int| 0 <= j < i ==> #[trigger] entries@[j].id@ != id@,
            ensures
                entries@ == old_entries,
                i <= entries@.len(),
                forall|j: int| 0 <= j < i ==> #[trigger] entries@[j].id@ != id@,
                i < entries@.len() ==> entries@[i as int].id@ == id@,
            decreases entries@.len() - i,
        {
            if entries[i].id.same(&id) {
                break;
            }
            i = i + 1;
        }
        let new_entry = ContractEntry { id, type_id, routes };
        let ghost e = new_entry;
        if i < entries.len() {
            let _ = entries.remove(i);
            entries.insert(i, new_entry);
            proof {
                assert(entries@ =~= old_entries.update(i as int, e));
                assert forall|j: int| 0 <= j < entries@.len() implies distinct_paths(#[trigger] entries@[j].routes@) by {
                    if j != i {
                        assert(entries@[j] == old_entries[j]);
                    }
                }
                assert forall|a: int, b: int|
                    #![trigger entries@[a], entries@[b]]
                    0 <= a < entries@.len() && 0 <= b < entries@.len() && a != b implies entries@[a].id@ != entries@[b].id@ by {
                    if a != i && b != i {
                        assert(old_entries[a] == entries@[a] && old_entries[b] == entries@[b]);
                    } else if a == i {
                        assert(old_entries[b] == entries@[b]);
                        assert(old_entries[a].id@ == id@);
                    } else {
                        assert(old_entries[a] == entries@[a]);
                        assert(old_entries[b].id@ == id@);
                    }
                }
            }
        } else {
            entries.push(new_entry);
            proof {
                assert(entries@ =~= old_entries.push(e));
                assert forall|j: int| 0 <= j < entries@.len() implies distinct_paths(#[trigger] entries@[j].routes@) by {
                    if j < old_entries.len() {
                        assert(entries@[j] == old_entries[j]);
                    }
                }
                assert forall|a: int, b: int|
                    #![trigger entries@[a], entries@[b]]
                    0 <= a < entries@.len() && 0 <= b < entries@.len() && a != b implies entries@[a].id@ != entries@[b].id@ by {
                    if a < old_entries.len() && b < old_entries.len() {
                        assert(old_entries[a] == entries@[a] && old_entries[b] == entries@[b]);
                    }
                }
            }
        }
        let c = Contracts { entries };
        proof {
            let k = i as int;
            assert(c@[k].id@ == id@);
            assert(c.has(id@));
            let w = choose|j: int| 0 <= j < c@.len() && #[trigger] c@[j].id@ == id@;
            assert(w == k);
            assert forall|other: Seq<u8>| other != id@ implies (c.has(other) == self.has(other)) by {
                if self.has(other) {
                    let j = choose|j: int| 0 <= j < self@.len() && #[trigger] self@[j].id@ == other;
                    assert(c@[j] == self@[j]);
                }
                if c.has(other) {
                    let j = choose|j: int| 0 <= j < c@.len() && #[trigger] c@[j].id@ == other;
                    assert(j != k);
                    assert(c@[j] == self@[j]);
                }
            }
            assert forall|other: Seq<u8>| other != id@ && self.has(other) implies c.entry(other) == self.entry(other) by {
                let j = choose|j: int| 0 <= j < self@.len() && #[trigger] self@[j].id@ == other;
                assert(c@[j] == self@[j]);
                let jc = choose|j: int| 0 <= j < c@.len() && #[trigger] c@[j].id@ == other;
                assert(jc == j);
            }
        }
        c
    }

    /// The contract registered under an identifier.
    pub fn get(&self, id: &Id) -> (e: Option<&ContractEntry>)
        ensures
            e is Some == self.has(id@),
            e matches Some(e) ==> *e == self.entry(id@) && distinct_paths(e.routes@),
    {
        proof {
            use_type_invariant(self);
        }
        let mut i: usize = 0;
        while i < self.entries.len()
            invariant
                i <= self@.len(),
                distinct_ids(self@),
                forall|j: int| 0 <= j < self@.len() ==> distinct_paths(#[trigger] self@[j].routes@),
                forall|j: int| 0 <= j < i ==> #[trigger] self@[j].id@ != id@,
            decreases self@.len() - i,
        {
            if self.entries[i].id.same(id) {
                proof {
                    let w = choose|j: int| 0 <= j < self@.len() && #[trigger] self@[j].id@ == id@;
                    assert(w == i);
                }
                return Some(&self.entries[i]);
            }
            i = i + 1;
        }
        None
    }
}

/// Registering a contract and then looking it up gives back what was
/// registered; other contracts keep their entries.
pub proof fn lemma_add_then_get(before: Contracts, after: Contracts, e: ContractEntry, other: Seq<u8>)
    requires
        after.has(e.id@),
        after.entry(e.id@) == e,
        forall|o: Seq<u8>| o != e.id@ ==> (after.has(o) == before.has(o)),
        forall|o: Seq<u8>| o != e.id@ && before.has(o) ==> after.entry(o) == before.entry(o),
        other != e.id@,
        before.has(other),
    ensures
        after.entry(e.id@) == e,
        after.has(other) && after.entry(other) == before.entry(other),
{
}

/// Whether `i` is the first place of an event type among a route's events.
pub open spec fn first_index_of(events: Seq<Erased>, type_id: std::any::TypeId, i: int) -> bool {
    &&& 0 <= i < events.len()
    &&& events[i].type_id == type_id
    &&& forall|j: int| 0 <= j < i ==> #[trigger] events[j].type_id != type_id
}

/// The first place of an event type among a route's events, if it is there.
pub open spec fn event_position(events: Seq<Erased>, type_id: std::any::TypeId) -> Option<int> {
    if exists|i: int| first_index_of(events, type_id, i) {
        Some(choose|i: int| first_index_of(events, type_id, i))
    } else {
        None
    }
}

/// Whether `i` is the first route at a path.
pub open spec fn first_route_at(routes: Seq<Route>, path: Seq<Seq<char>>, i: int) -> bool {
    &&& 0 <= i < routes.len()
    &&& routes[i].path_view() == path
    &&& forall|j: int| 0 <= j < i ==> #[trigger] routes[j].path_view() != path
}

/// The place of the first route at a path, if there is one.
pub open spec fn route_position(routes: Seq<Route>, path: Seq<Seq<char>>) -> Option<int> {
    if exists|i: int| first_route_at(routes, path, i) {
        Some(choose|i: int| first_route_at(routes, path, i))
    } else {
        None
    }
}

/// The events of the route of a contract at a path.
pub open spec fn route_events(contracts: Contracts, id: Seq<u8>, path: Seq<Seq<char>>) -> Option<Seq<Erased>> {
    if contracts.has(id) {
        match route_position(contracts.entry(id).routes@, path) {
            Some(r) => Some(contracts.entry(id).routes@[r].events@),
            None => None,
        }
    } else {
        None
    }
}

/// The event type that handles an event received for a contract, at a path,
/// under an index.
pub open spec fn spec_handler(contracts: Contracts, id: Seq<u8>, path: Seq<Seq<char>>, index: int) -> Option<Erased> {
    match route_events(contracts, id, path) {
        Some(events) => if 0 <= index < events.len() {
            Some(events[index])
        } else {
            None
        },
        None => None,
    }
}

/// The index under which an event of a type is sent for a contract at a path.
pub open spec fn spec_outgoing_index(
    contracts: Contracts,
    id: Seq<u8>,
    path: Seq<Seq<char>>,
    type_id: std::any::TypeId,
) -> Option<int> {
    match route_events(contracts, id, path) {
        Some(events) => event_position(events, type_id),
        None => None,
    }
}

/// Two first places of the same thing are the same place.
proof fn lemma_first_index_unique(events: Seq<Erased>, type_id: std::any::TypeId, i: int, k: int)
    requires
        first_index_of(events, type_id, i),
        first_index_of(events, type_id, k),
    ensures
        i == k,
{
    if i < k {
        assert(events[i].type_id != type_id);
    } else if k < i {
        assert(events[k].type_id != type_id);
    }
}

proof fn lemma_first_route_unique(routes: Seq<Route>, path: Seq<Seq<char>>, i: int, k: int)
    requires
        first_route_at(routes, path, i),
        first_route_at(routes, path, k),
    ensures
        i == k,
{
    if i < k {
        assert(routes[i].path_view() != path);
    } else if k < i {
        assert(routes[k].path_view() != path);
    }
}

/// The index under which an event type travels on a route: the first place
/// it holds among the route's events.
pub fn event_index(events: &Vec<Erased>, type_id: &std::any::TypeId) -> (index: Option<usize>)
    ensures
        match index {
            Some(i) => event_position(events@, *type_id) == Some(i as int),
            None => event_position(events@, *type_id) is None,
        },
{
    let mut i: usize = 0;
    while i < events.len()
        invariant
            i <= events@.len(),
            forall|j: int| 0 <= j < i ==> #[trigger] events@[j].type_id != *type_id,
        decreases events@.len() - i,
    {
        if type_id_eq(&events[i].type_id, type_id) {
            proof {
                assert(first_index_of(events@, *type_id, i as int));
                let w = choose|k: int| first_index_of(events@, *type_id, k);
                lemma_first_index_unique(events@, *type_id, i as int, w);
            }
            return Some(i);
        }
        i = i + 1;
    }
    proof {
        if exists|k: int| first_index_of(events@, *type_id, k) {
            let w = choose|k: int| first_index_of(events@, *type_id, k);
            assert(events@[w].type_id != *type_id);
        }
    }
    None
}

/// The first route at a path among a contract's routes.
pub fn route_at<'a>(routes: &'a Vec<Route>, path: &Vec<String>) -> (r: Option<&'a Route>)
    ensures
        match r {
            Some(r) => route_position(routes@, texts(path@)) matches Some(i) && routes@[i] == *r,
            None => route_position(routes@, texts(path@)) is None,
        },
{
    let ghost p = texts(path@);
    let mut i: usize = 0;
    while i < routes.len()
        invariant
            i <= routes@.len(),
            p == texts(path@),
            forall|j: int| 0 <= j < i ==> #[trigger] routes@[j].path_view() != p,
        decreases routes@.len() - i,
    {
        if same_path(&routes[i].path, path) {
            proof {
                assert(routes@[i as int].path_view() == p);
                assert(first_route_at(routes@, p, i as int));
                let w = choose|k: int| first_route_at(routes@, p, k);
                lemma_first_route_unique(routes@, p, i as int, w);
            }
            return Some(&routes[i]);
        }
        i = i + 1;
    }
    proof {
        if exists|k: int| first_route_at(routes@, p, k) {
            let w = choose|k: int| first_route_at(routes@, p, k);
            assert(routes@[w].path_view() != p);
        }
    }
    None
}

/// The event type that handles an event received for a contract, at a path,
/// under an index: `None` for an unknown contract, a path without a route, or
/// an index past the route's events.
pub fn handler<'a>(contracts: &'a Contracts, id: &Id, path: &Vec<String>, index: usize) -> (h: Option<&'a Erased>)
    ensures
        match h {
            Some(e) => spec_handler(*contracts, id@, texts(path@), index as int) == Some(*e),
            None => spec_handler(*contracts, id@, texts(path@), index as int) is None,
        },
{
    match contracts.get(id) {
        Some(entry) => match route_at(&entry.routes, path) {
            Some(route) => {
                if index < route.events.len() {
                    Some(&route.events[index])
                } else {
                    None
                }
            },
            None => None,
        },
        None => None,
    }
}

/// The index under which an event of a type is sent for a contract at a
/// path: its first place among the events of the contract's route there.
/// `None` for an unknown contract, a path without a route, or a type that
/// the route does not take.
pub fn outgoing_index(contracts: &Contracts, id: &Id, path: &Vec<String>, type_id: &std::any::TypeId) -> (index: Option<usize>)
    ensures
        match index {
            Some(i) => spec_outgoing_index(*contracts, id@, texts(path@), *type_id) == Some(i as int),
            None => spec_outgoing_index(*contracts, id@, texts(path@), *type_id) is None,
        },
{
    match contracts.get(id) {
        Some(entry) => match route_at(&entry.routes, path) {
            Some(route) => event_index(&route.events, type_id),
            None => None,
        },
        None => None,
    }
}

/// An event sent under the index that its type travels under is handled, on
/// receipt, by that same type.
pub proof fn lemma_sent_events_reach_their_type(
    contracts: Contracts,
    id: Seq<u8>,
    path: Seq<Seq<char>>,
    type_id: std::any::TypeId,
    index: int,
)
    requires
        spec_outgoing_index(contracts, id, path, type_id) == Some(index),
    ensures
        spec_handler(contracts, id, path, index) matches Some(e) && e.type_id == type_id,
{
    let events = route_events(contracts, id, path)->0;
    let k = choose|i: int| first_index_of(events, type_id, i);
    assert(first_index_of(events, type_id, k));
}

/// Where an event is sent: a contract, an instance of it, and a path within
/// the instance's document.
#[derive(Debug)]
pub struct EventTarget {
    pub contract: Id,
    pub instance: Id,
    pub path: Vec<String>,
}

/// The identifier that a component of a path names, if it is one.
pub open spec fn component_id(c: Seq<char>) -> Option<Seq<u8>> {
    match hex_decode(c) {
        Some(b) => if b.len() == 32 {
            Some(b)
        } else {
            None
        },
        None => None,
    }
}

/// Reads where an event goes: the first two components of the path must be
/// the identifiers of a contract and an instance; the rest is the path within
/// the instance.  Fails with `InvalidEvent` otherwise.
pub fn event_target<E>(path: &str) -> (r: Result<EventTarget, Error<E>>)
    ensures
        ({
            let c = path_components(path@);
            match r {
                Ok(t) => c.len() >= 2 && component_id(c[0]) == Some(t.contract@) && component_id(c[1])
                    == Some(t.instance@) && texts(t.path@) == c.skip(2),
                Err(e) => e is InvalidEvent && (c.len() < 2 || component_id(c[0]) is None
                    || component_id(c[1]) is None),
            }
        }),
        forall|contract: Seq<u8>, instance: Seq<u8>|
            #![trigger instance_path_text(contract, instance)]
            contract.len() == 32 && instance.len() == 32 && path@ == instance_path_text(contract, instance)
                ==> (r matches Ok(t) && t.contract@ == contract && t.instance@ == instance
                && t.path@.len() == 0),
{
    let components = components_of(path);
    let ghost c = path_components(path@);
    proof {
        assert forall|contract: Seq<u8>, instance: Seq<u8>|
            #![trigger instance_path_text(contract, instance)]
            contract.len() == 32 && instance.len() == 32 && path@ == instance_path_text(contract, instance)
            implies c == seq![hex_lower(contract), hex_lower(instance)]
                && component_id(hex_lower(contract)) == Some(contract)
                && component_id(hex_lower(instance)) == Some(instance) by {
            lemma_hex_lower_text(contract);
            lemma_hex_lower_text(instance);
            lemma_hex_round_trip(contract);
            lemma_hex_round_trip(instance);
            assert(texts(components@) == seq![hex_lower(contract), hex_lower(instance)]);
        }
    }
    assert(c.len() == components@.len());
    if components.len() < 2 {
        return Err(Error::InvalidEvent);
    }
    proof {
        assert(components@[0]@ == c[0]);
        assert(components@[1]@ == c[1]);
    }
    let contract = match Id::parse(components[0].as_str()) {
        Some(id) => id,
        None => return Err(Error::InvalidEvent),
    };
    let instance = match Id::parse(components[1].as_str()) {
        Some(id) => id,
        None => return Err(Error::InvalidEvent),
    };
    let mut rest: Vec<String> = Vec::new();
    let mut i: usize = 2;
    while i < components.len()
        invariant
            2 <= i <= components@.len(),
            texts(components@) == c,
            rest@.len() == i - 2,
            forall|j: int| 0 <= j < rest@.len() ==> #[trigger] rest@[j]@ == c[j + 2],
        decreases components@.len() - i,
    {
        rest.push(components[i].clone());
        i = i + 1;
    }
    proof {
        assert(texts(rest@) =~= c.skip(2));
    }
    Ok(EventTarget { contract, instance, path: rest })
}

/// The text of the path of an instance: the contract's identifier, a slash,
/// and the instance's, in lower-case hexadecimal.
pub open spec fn instance_path_text(contract: Seq<u8>, instance: Seq<u8>) -> Seq<char> {
    slash_join(hex_lower(contract), hex_lower(instance))
}

/// The lower-case hexadecimal text of some bytes is non-empty lower-case
/// hexadecimal when there are bytes.
pub proof fn lemma_hex_lower_text(b: Seq<u8>)
    requires
        b.len() > 0,
    ensures
        is_lower_hex_text(hex_lower(b)),
{
    let s = hex_lower(b);
    assert forall|i: int| 0 <= i < s.len() implies is_lower_hex_digit(#[trigger] s[i]) by {
        lemma_lower_hex_digit((b[i / 2] / 16) as int);
        lemma_lower_hex_digit((b[i / 2] % 16) as int);
    }
}

/// The path of a new instance: the contract's identifier, a slash, and the
/// instance's, in lower-case hexadecimal.
pub fn instance_path(contract: &Id, instance: &Id) -> (path: String)
    ensures
        path@ == instance_path_text(contract@, instance@),
{
    let mut path = contract.to_text();
    push_str(&mut path, "/");
    let i = instance.to_text();
    push_str(&mut path, i.as_str());
    proof {
        reveal_strlit("/");
        assert(path@ =~= instance_path_text(contract@, instance@));
    }
    path
}

/// The latest of the cursor and some timestamps.
pub open spec fn latest(cursor: u64, stamps: Seq<u64>) -> u64
    decreases stamps.len(),
{
    if stamps.len() == 0 {
        cursor
    } else {
        let rest = latest(cursor, stamps.drop_last());
        if rest >= stamps.last() {
            rest
        } else {
            stamps.last()
        }
    }
}

/// Moves the cursor of the inbox past the timestamps of received messages.
pub fn latest_timestamp(cursor: u64, stamps: &Vec<u64>) -> (t: u64)
    ensures
        t == latest(cursor, stamps@),
        t >= cursor,
        forall|i: int| 0 <= i < stamps@.len() ==> t >= #[trigger] stamps@[i],
{
    let mut t = cursor;
    let mut i: usize = 0;
    while i < stamps.len()
        invariant
            i <= stamps@.len(),
            t == latest(cursor, stamps@.take(i as int)),
            t >= cursor,
            forall|j: int| 0 <= j < i ==> t >= #[trigger] stamps@[j],
        decreases stamps@.len() - i,
    {
        assert(stamps@.take(i as int + 1).drop_last() =~= stamps@.take(i as int));
        if stamps[i] > t {
            t = stamps[i];
        }
        i = i + 1;
    }
    assert(stamps@.take(stamps@.len() as int) =~= stamps@);
    t
}

/// Whether an announced instance is kept: only those the account itself
/// announced.
pub fn accepts_instance(signer: &Name, me: &Name) -> (r: bool)
    ensures
        r == (signer@ == me@),
{
    signer.same(me)
}

/// What the account follows: for each contract, the instances of it that it
/// knows, in the order it learned them.
pub open spec fn follows_view(entries: Seq<(Id, Vec<Id>)>) -> Seq<(Seq<u8>, Seq<Seq<u8>>)> {
    entries.map_values(|e: (Id, Vec<Id>)| (e.0@, e.1@.map_values(|i: Id| i@)))
}

/// Whether the contracts of some entries are distinct.
pub open spec fn distinct_contracts(f: Seq<(Seq<u8>, Seq<Seq<u8>>)>) -> bool {
    forall|a: int, b: int|
        #![trigger f[a], f[b]]
        0 <= a < f.len() && 0 <= b < f.len() && a != b ==> f[a].0 != f[b].0
}

/// The contracts and instances that the account follows, and the cursor of
/// its inbox: the time of the latest message it has read.
#[derive(Debug)]
pub struct Registry {
    cursor: u64,
    entries: Vec<(Id, Vec<Id>)>,
}

impl View for Registry {
    type V = (u64, Seq<(Seq<u8>, Seq<Seq<u8>>)>);

    closed spec fn view(&self) -> (u64, Seq<(Seq<u8>, Seq<Seq<u8>>)>) {
        (self.cursor, follows_view(self.entries@))
    }
}

impl Registry {
    #[verifier::type_invariant]
    closed spec fn wf(self) -> bool {
        distinct_contracts(follows_view(self.entries@))
    }

    /// The cursor of the inbox.
    pub open spec fn spec_cursor(self) -> u64 {
        self@.0
    }

    /// Whether the account follows a contract.
    pub open spec fn knows(self, contract: Seq<u8>) -> bool {
        exists|k: int| 0 <= k < self@.1.len() && #[trigger] self@.1[k].0 == contract
    }

    /// Whether the account knows an instance of a contract.
    pub open spec fn has_instance(self, contract: Seq<u8>, instance: Seq<u8>) -> bool {
        exists|k: int, j: int|
            0 <= k < self@.1.len() && #[trigger] self@.1[k].0 == contract && 0 <= j < self@.1[k].1.len()
                && #[trigger] self@.1[k].1[j] == instance
    }

    /// Follows nothing yet, with the inbox read up to a time.
    pub fn new(cursor: u64) -> (r: Registry)
        ensures
            r.spec_cursor() == cursor,
            forall|c: Seq<u8>| !r.knows(c),
            forall|c: Seq<u8>, i: Seq<u8>| !r.has_instance(c, i),
    {
        let r = Registry { cursor, entries: Vec::new() };
        assert(r@.1.len() == 0);
        r
    }

    /// The cursor of the inbox.
    pub fn cursor(&self) -> (t: u64)
        ensures
            t == self.spec_cursor(),
    {
        self.cursor
    }

    /// The place of a contract's entry.
    fn find(&self, contract: &Id) -> (k: Option<usize>)
        ensures
            k is Some == self.knows(contract@),
            k matches Some(k) ==> k < self@.1.len() && self@.1[k as int].0 == contract@,
    {
        let mut k: usize = 0;
        while k < self.entries.len()
            invariant
                k <= self.entries@.len(),
                self@.1 == follows_view(self.entries@),
                forall|j: int| 0 <= j < k ==> #[trigger] self@.1[j].0 != contract@,
            decreases self.entries@.len() - k,
        {
            if self.entries[k].0.same(contract) {
                assert(self@.1[k as int].0 == contract@);
                return Some(k);
            }
            k = k + 1;
        }
        None
    }

    /// Follows a contract (with no instances yet); following it again
    /// changes nothing.
    pub fn follow(&mut self, contract: Id)
        ensures
            final(self).spec_cursor() == old(self).spec_cursor(),
            final(self).knows(contract@),
            forall|c: Seq<u8>| c != contract@ ==> (final(self).knows(c) == old(self).knows(c)),
            forall|c: Seq<u8>, i: Seq<u8>| final(self).has_instance(c, i) == old(self).has_instance(c, i),
    {
        proof {
            use_type_invariant(&*self);
        }
        match self.find(&contract) {
            Some(_) => {},
            None => {
                let ghost before = self@.1;
                let ghost old_entries = self.entries@;
                let mut entries: Vec<(Id, Vec<Id>)> = Vec::new();
                std::mem::swap(&mut entries, &mut self.entries);
                let fresh: Vec<Id> = Vec::new();
                assert(fresh@.map_values(|i: Id| i@) =~= Seq::<Seq<u8>>::empty());
                entries.push((contract, fresh));
                proof {
                    let after = follows_view(entries@);
                    assert(entries@ =~= old_entries.push((contract, fresh)));
                    assert(after =~= before.push((contract@, Seq::<Seq<u8>>::empty())));
                    assert forall|a: int, b: int|
                        #![trigger after[a], after[b]]
                        0 <= a < after.len() && 0 <= b < after.len() && a != b implies after[a].0 != after[b].0 by {
                        if a < before.len() && b < before.len() {
                            assert(after[a] == before[a] && after[b] == before[b]);
                        } else if a < before.len() {
                            assert(after[a] == before[a]);
                        } else {
                            assert(after[b] == before[b]);
                        }
                    }
                }
                self.entries = entries;
                proof {
                    let after = self@.1;
                    assert(self.entries@ =~= old_entries.push((contract, fresh)));
                    assert(after =~= before.push((contract@, Seq::<Seq<u8>>::empty())));
                    assert(after[before.len() as int].0 == contract@);
                    assert forall|c: Seq<u8>| c != contract@ implies (self.knows(c) == old(self).knows(c)) by {
                        if old(self).knows(c) {
                            let k = choose|k: int| 0 <= k < before.len() && #[trigger] before[k].0 == c;
                            assert(after[k] == before[k]);
                        }
                        if self.knows(c) {
                            let k = choose|k: int| 0 <= k < after.len() && #[trigger] after[k].0 == c;
                            assert(after[k] == before[k]);
                        }
                    }
                    assert forall|c: Seq<u8>, i: Seq<u8>| self.has_instance(c, i) == old(self).has_instance(c, i) by {
                        if old(self).has_instance(c, i) {
                            let (k, j) = choose|k: int, j: int|
                                0 <= k < before.len() && #[trigger] before[k].0 == c && 0 <= j < before[k].1.len()
                                    && #[trigger] before[k].1[j] == i;
                            assert(after[k] == before[k]);
                        }
                        if self.has_instance(c, i) {
                            let (k, j) = choose|k: int, j: int|
                                0 <= k < after.len() && #[trigger] after[k].0 == c && 0 <= j < after[k].1.len()
                                    && #[trigger] after[k].1[j] == i;
                            assert(k < before.len());
                            assert(after[k] == before[k]);
                        }
                    }
                }
            },
        }
    }
}

/// The instances known after learning of one: those known before, and the
/// new one where its contract is followed.
pub open spec fn learned(before: Registry, after: Registry, contract: Seq<u8>, instance: Seq<u8>) -> bool {
    &&& after.spec_cursor() == before.spec_cursor()
    &&& learned_instances(before, after, contract, instance)
}

/// The contracts and instances known after learning of an instance: the
/// same contracts, and the instances known before with the new one where
/// its contract is followed.
pub open spec fn learned_instances(before: Registry, after: Registry, contract: Seq<u8>, instance: Seq<u8>) -> bool {
    &&& forall|c: Seq<u8>| after.knows(c) == before.knows(c)
    &&& forall|c: Seq<u8>, i: Seq<u8>|
        #[trigger] after.has_instance(c, i) == (before.has_instance(c, i) || (c == contract && i
            == instance && before.knows(contract)))
}

impl Registry {
    /// Learns of an instance of a contract: kept where the account follows
    /// the contract, ignored otherwise.  Returns whether the contract is
    /// followed.
    fn learn(&mut self, contract: &Id, instance: Id) -> (kept: bool)
        ensures
            kept == old(self).knows(contract@),
            learned(*old(self), *final(self), contract@, instance@),
    {
        proof {
            use_type_invariant(&*self);
        }
        let k = match self.find(contract) {
            Some(k) => k,
            None => return false,
        };
        let ghost before = self@.1;
        let ghost old_entries = self.entries@;
        let mut j: usize = 0;
        while j < self.entries[k].1.len()
            invariant
                k < self.entries@.len(),
                self@.1 == follows_view(self.entries@),
                *self == *old(self),
                self@.1[k as int].0 == contract@,
                j <= self.entries@[k as int].1@.len(),
                forall|m: int| 0 <= m < j ==> #[trigger] self@.1[k as int].1[m] != instance@,
            decreases self.entries@[k as int].1@.len() - j,
        {
            if self.entries[k].1[j].same(&instance) {
                proof {
                    assert(self@.1[k as int].1[j as int] == instance@);
                    assert(self.has_instance(contract@, instance@));
                    assert forall|c: Seq<u8>, i: Seq<u8>|
                        #[trigger] self.has_instance(c, i) == (self.has_instance(c, i) || (c == contract@ && i
                            == instance@ && self.knows(contract@))) by {
                    }
                }
                return true;
            }
            j = j + 1;
        }
        let mut entries: Vec<(Id, Vec<Id>)> = Vec::new();
        std::mem::swap(&mut entries, &mut self.entries);
        let (c, mut instances) = entries.remove(k);
        let ghost old_instances = instances@;
        instances.push(instance);
        let ghost e = (c, instances);
        entries.insert(k, (c, instances));
        proof {
            assert(entries@ =~= old_entries.update(k as int, e));
            let after = follows_view(entries@);
            assert(after[k as int].0 == before[k as int].0);
            assert forall|a: int, b: int|
                #![trigger after[a], after[b]]
                0 <= a < after.len() && 0 <= b < after.len() && a != b implies after[a].0 != after[b].0 by {
                assert(after[a].0 == before[a].0 && after[b].0 == before[b].0);
            }
        }
        self.entries = entries;
        proof {
            let after = self@.1;
            let ghost_k = k as int;
            assert(after[ghost_k].1 =~= before[ghost_k].1.push(instance@));
            assert forall|c: Seq<u8>| self.knows(c) == old(self).knows(c) by {
                if old(self).knows(c) {
                    let w = choose|w: int| 0 <= w < before.len() && #[trigger] before[w].0 == c;
                    assert(after[w].0 == before[w].0);
                }
                if self.knows(c) {
                    let w = choose|w: int| 0 <= w < after.len() && #[trigger] after[w].0 == c;
                    assert(after[w].0 == before[w].0);
                }
            }
            assert(after[ghost_k].1[before[ghost_k].1.len() as int] == instance@);
            assert forall|c: Seq<u8>, i: Seq<u8>|
                #[trigger] self.has_instance(c, i) == (old(self).has_instance(c, i) || (c == contract@ && i
                    == instance@ && old(self).knows(contract@))) by {
                if old(self).has_instance(c, i) {
                    let (w, m) = choose|w: int, m: int|
                        0 <= w < before.len() && #[trigger] before[w].0 == c && 0 <= m < before[w].1.len()
                            && #[trigger] before[w].1[m] == i;
                    if w == ghost_k {
                        assert(after[w].1[m] == before[w].1[m]);
                    } else {
                        assert(after[w] == before[w]);
                    }
                }
                if self.has_instance(c, i) {
                    let (w, m) = choose|w: int, m: int|
                        0 <= w < after.len() && #[trigger] after[w].0 == c && 0 <= m < after[w].1.len()
                            && #[trigger] after[w].1[m] == i;
                    if w == ghost_k {
                        if m < before[w].1.len() {
                            assert(after[w].1[m] == before[w].1[m]);
                        }
                    } else {
                        assert(after[w] == before[w]);
                    }
                }
                if c == contract@ && i == instance@ {
                    assert(after[ghost_k].0 == c);
                }
            }
        }
        true
    }
}

impl Registry {
    /// Whether the account follows a contract: a request for a new instance
    /// of it can be announced on its channel.
    pub fn follows(&self, contract: &Id) -> (r: bool)
        ensures
            r == self.knows(contract@),
    {
        self.find(contract).is_some()
    }

    /// Whether the account knows an instance of a contract: a request to
    /// share it, or to send an event to it, can be served.
    pub fn knows_instance(&self, contract: &Id, instance: &Id) -> (r: bool)
        ensures
            r == self.has_instance(contract@, instance@),
    {
        proof {
            use_type_invariant(self);
        }
        let k = match self.find(contract) {
            Some(k) => k,
            None => return false,
        };
        let mut j: usize = 0;
        while j < self.entries[k].1.len()
            invariant
                k < self.entries@.len(),
                self@.1 == follows_view(self.entries@),
                self@.1[k as int].0 == contract@,
                distinct_contracts(self@.1),
                j <= self.entries@[k as int].1@.len(),
                forall|m: int| 0 <= m < j ==> #[trigger] self@.1[k as int].1[m] != instance@,
            decreases self.entries@[k as int].1@.len() - j,
        {
            if self.entries[k].1[j].same(instance) {
                assert(self@.1[k as int].1[j as int] == instance@);
                return true;
            }
            j = j + 1;
        }
        proof {
            if self.has_instance(contract@, instance@) {
                let (w, m) = choose|w: int, m: int|
                    0 <= w < self@.1.len() && #[trigger] self@.1[w].0 == contract@ && 0 <= m < self@.1[w].1.len()
                        && #[trigger] self@.1[w].1[m] == instance@;
                assert(w == k);
            }
        }
        false
    }

    /// A share read from the inbox: an instance of a contract that another
    /// account let this one into.  Kept where the account follows the
    /// contract.
    pub fn receive_share(&mut self, contract: &Id, instance: Id) -> (kept: bool)
        ensures
            kept == old(self).knows(contract@),
            learned(*old(self), *final(self), contract@, instance@),
    {
        self.learn(contract, instance)
    }

    /// An instance announced on a contract's channel: kept only where the
    /// account announced it itself and follows the contract.
    pub fn receive_announcement(&mut self, contract: &Id, instance: Id, signer: &Name, me: &Name) -> (kept: bool)
        ensures
            kept == (signer@ == me@ && old(self).knows(contract@)),
            signer@ == me@ ==> learned(*old(self), *final(self), contract@, instance@),
            signer@ != me@ ==> final(self)@ == old(self)@,
    {
        if accepts_instance(signer, me) {
            self.learn(contract, instance)
        } else {
            false
        }
    }

    /// Reads the inbox: the cursor moves past the times of the messages read.
    pub fn read_inbox(&mut self, stamps: &Vec<u64>)
        ensures
            final(self).spec_cursor() == latest(old(self).spec_cursor(), stamps@),
            final(self)@.1 == old(self)@.1,
    {
        proof {
            use_type_invariant(&*self);
        }
        let t = latest_timestamp(self.cursor, stamps);
        self.cursor = t;
    }
}

impl Registry {
    /// Reads a message of the inbox, at a time: the cursor moves past it, and
    /// an instance that it shares is kept where the account follows the
    /// contract.
    pub fn read_missive(&mut self, timestamp: u64, share: Option<(Id, Id)>)
        ensures
            final(self).spec_cursor() == if timestamp > old(self).spec_cursor() {
                timestamp
            } else {
                old(self).spec_cursor()
            },
            share matches Some((c, i)) ==> learned_instances(*old(self), *final(self), c@, i@),
            share is None ==> final(self)@.1 == old(self)@.1,
    {
        match share {
            Some((c, i)) => {
                self.learn(&c, i);
            },
            None => {},
        }
        proof {
            use_type_invariant(&*self);
        }
        let ghost mid = *self;
        if timestamp > self.cursor {
            self.cursor = timestamp;
        }
        assert(self@.1 == mid@.1);
        assert(forall|c: Seq<u8>| #[trigger] self.knows(c) == mid.knows(c));
        assert(forall|c: Seq<u8>, i: Seq<u8>| #[trigger] self.has_instance(c, i) == mid.has_instance(c, i));
    }
}

/// What the manager of an account's contracts is handed: a message read
/// from its inbox, an instance announced on a contract's channel, or a
/// request of the application.
#[derive(Debug)]
pub enum TaskInput<D> {
    /// A message of the inbox, at a time; it shares an instance of a
    /// contract where it could be read as such a share.
    Missive { timestamp: u64, share: Option<(Id, Id)> },
    /// An instance of a contract announced on the contract's channel.
    Announced { contract: Id, instance: Id, signer: Name },
    /// A request for a new instance of a contract, with its initial value.
    Create { contract: Id, instance: Id, init: D },
    /// A request to let another account into an instance.
    Share { contract: Id, instance: Id, with: Name },
    /// A request to send an event of a type to a path of an instance.
    Send { contract: Id, instance: Id, path: Vec<String>, type_id: std::any::TypeId },
}

/// What the manager does for an input.
#[derive(Debug)]
pub enum TaskAction {
    /// Nothing more.
    Nothing,
    /// Announce the new instance on the contract's channel.
    Announce { contract: Id, instance: Id },
    /// Send the instance's key to another account.
    ShareKey { contract: Id, instance: Id, with: Name },
    /// Send the event to the instance, under its index in the route.
    SendEvent { contract: Id, instance: Id, path: Vec<String>, index: usize },
    /// The request names a contract, an instance, a route or an event type
    /// that the manager does not know.
    Refuse,
}

/// Takes one input of the manager of contracts: reads messages and
/// announcements into what the account follows, starts the documents of new
/// instances, and answers requests of the application with what to send.
pub fn step<D>(
    registry: &mut Registry,
    documents: &mut Documents<D>,
    contracts: &Contracts,
    me: &Name,
    input: TaskInput<D>,
) -> (action: TaskAction)
    ensures
        !(input is Create) ==> final(documents)@ == old(documents)@,
        match input {
            TaskInput::Missive { timestamp, share } => {
                &&& action is Nothing
                &&& final(registry).spec_cursor() == if timestamp > old(registry).spec_cursor() {
                    timestamp
                } else {
                    old(registry).spec_cursor()
                }
                &&& share matches Some((c, i)) ==> learned_instances(*old(registry), *final(registry), c@, i@)
                &&& share is None ==> final(registry)@.1 == old(registry)@.1
            },
            TaskInput::Announced { contract, instance, signer } => {
                &&& action is Nothing
                &&& signer@ == me@ ==> learned(*old(registry), *final(registry), contract@, instance@)
                &&& signer@ != me@ ==> final(registry)@ == old(registry)@
            },
            TaskInput::Create { contract, instance, init } => {
                &&& final(registry)@ == old(registry)@
                &&& old(registry).knows(contract@) ==> {
                    &&& action matches TaskAction::Announce { contract: c, instance: i } && c@ == contract@ && i@
                        == instance@
                    &&& final(documents).holds(contract@, instance@)
                    &&& !old(documents).holds(contract@, instance@) ==> final(documents).doc(contract@, instance@)
                        == init
                    &&& old(documents).holds(contract@, instance@) ==> final(documents)@ == old(documents)@
                    &&& forall|c: Seq<u8>, i: Seq<u8>|
                        !(c == contract@ && i == instance@) ==> (#[trigger] final(documents).holds(c, i)
                            == old(documents).holds(c, i) && (old(documents).holds(c, i) ==> final(documents).doc(c, i)
                            == old(documents).doc(c, i)))
                }
                &&& !old(registry).knows(contract@) ==> action is Refuse && final(documents)@ == old(documents)@
            },
            TaskInput::Share { contract, instance, with } => {
                &&& final(registry)@ == old(registry)@
                &&& old(registry).has_instance(contract@, instance@) ==> (action matches TaskAction::ShareKey {
                    contract: c,
                    instance: i,
                    with: w,
                } && c@ == contract@ && i@ == instance@ && w@ == with@)
                &&& !old(registry).has_instance(contract@, instance@) ==> action is Refuse
            },
            TaskInput::Send { contract, instance, path, type_id } => {
                &&& final(registry)@ == old(registry)@
                &&& old(registry).has_instance(contract@, instance@) ==> match spec_outgoing_index(
                    *contracts,
                    contract@,
                    texts(path@),
                    type_id,
                ) {
                    Some(k) => action matches TaskAction::SendEvent { contract: c, instance: i, path: p, index }
                        && c@ == contract@ && i@ == instance@ && p@ == path@ && index == k,
                    None => action is Refuse,
                }
                &&& !old(registry).has_instance(contract@, instance@) ==> action is Refuse
            },
        },
{
    match input {
        TaskInput::Missive { timestamp, share } => {
            registry.read_missive(timestamp, share);
            TaskAction::Nothing
        },
        TaskInput::Announced { contract, instance, signer } => {
            registry.receive_announcement(&contract, instance, &signer, me);
            TaskAction::Nothing
        },
        TaskInput::Create { contract, instance, init } => {
            if registry.follows(&contract) {
                documents.start(contract, instance, init);
                TaskAction::Announce { contract, instance }
            } else {
                TaskAction::Refuse
            }
        },
        TaskInput::Share { contract, instance, with } => {
            if registry.knows_instance(&contract, &instance) {
                TaskAction::ShareKey { contract, instance, with }
            } else {
                TaskAction::Refuse
            }
        },
        TaskInput::Send { contract, instance, path, type_id } => {
            if !registry.knows_instance(&contract, &instance) {
                return TaskAction::Refuse;
            }
            match outgoing_index(contracts, &contract, &path, &type_id) {
                Some(index) => TaskAction::SendEvent { contract, instance, path, index },
                None => TaskAction::Refuse,
            }
        },
    }
}

impl Registry {
    /// A manager's registry for the registered contracts: it follows each of
    /// them, knows no instance yet, and has read its inbox up to a time.
    pub fn for_contracts(contracts: &Contracts, cursor: u64) -> (r: Registry)
        ensures
            r.spec_cursor() == cursor,
            forall|c: Seq<u8>| r.knows(c) == contracts.has(c),
            forall|c: Seq<u8>, i: Seq<u8>| !r.has_instance(c, i),
    {
        proof {
            use_type_invariant(contracts);
        }
        let mut entries: Vec<(Id, Vec<Id>)> = Vec::new();
        let mut k: usize = 0;
        while k < contracts.entries.len()
            invariant
                k <= contracts@.len(),
                distinct_ids(contracts@),
                entries@.len() == k,
                forall|j: int| 0 <= j < k ==> (#[trigger] entries@[j]).0@ == contracts@[j].id@ && entries@[j].1@.len() == 0,
            decreases contracts@.len() - k,
        {
            let fresh: Vec<Id> = Vec::new();
            entries.push((contracts.entries[k].id, fresh));
            k = k + 1;
        }
        let ghost f = follows_view(entries@);
        assert forall|a: int, b: int|
            #![trigger f[a], f[b]]
            0 <= a < f.len() && 0 <= b < f.len() && a != b implies f[a].0 != f[b].0 by {
            assert(entries@[a].0@ == contracts@[a].id@ && entries@[b].0@ == contracts@[b].id@);
        }
        let r = Registry { cursor, entries };
        assert forall|c: Seq<u8>| r.knows(c) == contracts.has(c) by {
            if r.knows(c) {
                let w = choose|w: int| 0 <= w < r@.1.len() && #[trigger] r@.1[w].0 == c;
                assert(contracts@[w].id@ == c);
            }
            if contracts.has(c) {
                let w = choose|w: int| 0 <= w < contracts@.len() && #[trigger] contracts@[w].id@ == c;
                assert(r@.1[w].0 == c);
            }
        }
        assert forall|c: Seq<u8>, i: Seq<u8>| !r.has_instance(c, i) by {
            if r.has_instance(c, i) {
                let (w, m) = choose|w: int, m: int|
                    0 <= w < r@.1.len() && #[trigger] r@.1[w].0 == c && 0 <= m < r@.1[w].1.len()
                        && #[trigger] r@.1[w].1[m] == i;
                assert(entries@[w].1@.len() == 0);
            }
        }
        r
    }
}

/// An instance that the account knows belongs to a contract it follows.
pub proof fn lemma_instances_are_followed(r: Registry, contract: Seq<u8>, instance: Seq<u8>)
    requires
        r.has_instance(contract, instance),
    ensures
        r.knows(contract),
{
}

/// Learning of the same instance twice knows what learning of it once does.
pub proof fn lemma_learn_twice(a: Registry, b: Registry, c: Registry, contract: Seq<u8>, instance: Seq<u8>)
    requires
        learned(a, b, contract, instance),
        learned(b, c, contract, instance),
    ensures
        forall|x: Seq<u8>| c.knows(x) == b.knows(x),
        forall|x: Seq<u8>, y: Seq<u8>| c.has_instance(x, y) == b.has_instance(x, y),
{
    assert forall|x: Seq<u8>, y: Seq<u8>| c.has_instance(x, y) == b.has_instance(x, y) by {
        assert(c.has_instance(x, y) == (b.has_instance(x, y) || (x == contract && y == instance && b.knows(
            contract,
        ))));
        assert(b.has_instance(x, y) == (a.has_instance(x, y) || (x == contract && y == instance && a.knows(
            contract,
        ))));
    }
}

/// Whether the times of some entries rise strictly.
pub open spec fn strictly_rising<T>(s: Seq<(u64, T)>) -> bool {
    forall|a: int, b: int| #![trigger s[a], s[b]] 0 <= a < b < s.len() ==> s[a].0 < s[b].0
}

/// Whether the entry at `j` is the last with its time.
pub open spec fn last_with_time<T>(s: Seq<(u64, T)>, j: int) -> bool {
    &&& 0 <= j < s.len()
    &&& forall|m: int| j < m < s.len() ==> #[trigger] s[m].0 != s[j].0
}

/// Whether the entry at `i` of `out` is the last entry of `received` with its
/// time.
pub open spec fn kept_last<T>(received: Seq<(u64, T)>, out: Seq<(u64, T)>, i: int) -> bool {
    exists|j: int| last_with_time(received, j) && out[i] == #[trigger] received[j]
}

/// Whether some entry of `out` has a time.
pub open spec fn has_time<T>(out: Seq<(u64, T)>, t: u64) -> bool {
    exists|i: int| 0 <= i < out.len() && (#[trigger] out[i]).0 == t
}

/// Whether `out` holds, in rising order of time, one entry for each time in
/// `received`: the last one received with that time.
pub open spec fn is_time_order<T>(received: Seq<(u64, T)>, out: Seq<(u64, T)>) -> bool {
    &&& strictly_rising(out)
    &&& forall|i: int| 0 <= i < out.len() ==> #[trigger] kept_last(received, out, i)
    &&& forall|j: int| 0 <= j < received.len() ==> has_time(out, (#[trigger] received[j]).0)
}

/// Replacing the entry with the time of a newly received event keeps the
/// order of what was received before.
proof fn lemma_time_order_replace<T>(s: Seq<(u64, T)>, before: Seq<(u64, T)>, p: int, item: (u64, T))
    requires
        is_time_order(s, before),
        0 <= p < before.len(),
        before[p].0 == item.0,
    ensures
        is_time_order(s.push(item), before.update(p, item)),
{
    let s2 = s.push(item);
    let after = before.update(p, item);
    let n = s.len() as int;
    assert forall|a: int, b: int| #![trigger after[a], after[b]] 0 <= a < b < after.len() implies after[a].0 < after[b].0 by {
        assert(before[a].0 < before[b].0);
    }
    assert forall|i: int| 0 <= i < after.len() implies #[trigger] kept_last(s2, after, i) by {
        if i == p {
            assert(last_with_time(s2, n) && after[i] == s2[n]);
        } else {
            assert(kept_last(s, before, i));
            let j = choose|j: int| last_with_time(s, j) && before[i] == #[trigger] s[j];
            if i < p {
                assert(before[i].0 < before[p].0);
            } else {
                assert(before[p].0 < before[i].0);
            }
            assert(s2[j] == s[j]);
            assert forall|m: int| j < m < s2.len() implies #[trigger] s2[m].0 != s2[j].0 by {
                if m < n {
                    assert(s2[m] == s[m]);
                }
            }
            assert(last_with_time(s2, j) && after[i] == s2[j]);
        }
    }
    assert forall|j: int| 0 <= j < s2.len() implies has_time(after, (#[trigger] s2[j]).0) by {
        if j == n {
            assert(after[p].0 == s2[j].0);
        } else {
            assert(s2[j] == s[j]);
            assert(has_time(before, s[j].0));
            let i = choose|i: int| 0 <= i < before.len() && (#[trigger] before[i]).0 == s[j].0;
            assert(after[i].0 == before[i].0);
        }
    }
}

/// Inserting a newly received event at its place in time keeps the times
/// rising.
proof fn lemma_insert_rising<T>(before: Seq<(u64, T)>, p: int, item: (u64, T))
    requires
        strictly_rising(before),
        0 <= p <= before.len(),
        forall|m: int| 0 <= m < p ==> #[trigger] before[m].0 < item.0,
        p < before.len() ==> before[p].0 > item.0,
    ensures
        strictly_rising(before.insert(p, item)),
{
    let after = before.insert(p, item);
    let t = item.0;
    assert forall|a: int, b: int| #![trigger after[a], after[b]] 0 <= a < b < after.len() implies after[a].0 < after[b].0 by {
        if b < p {
            assert(before[a].0 < before[b].0);
        } else if b == p {
            assert(before[a].0 < t);
        } else if a < p {
            assert(before[a].0 < t);
            assert(before[p].0 <= before[b - 1].0);
        } else if a == p {
            assert(before[p].0 <= before[b - 1].0);
        } else {
            assert(before[a - 1].0 < before[b - 1].0);
        }
    }
}

/// Inserting a newly received event at its place in time keeps the order of
/// what was received before.
proof fn lemma_time_order_insert<T>(s: Seq<(u64, T)>, before: Seq<(u64, T)>, p: int, item: (u64, T))
    requires
        is_time_order(s, before),
        0 <= p <= before.len(),
        forall|m: int| 0 <= m < p ==> #[trigger] before[m].0 < item.0,
        p < before.len() ==> before[p].0 > item.0,
    ensures
        is_time_order(s.push(item), before.insert(p, item)),
{
    let s2 = s.push(item);
    let after = before.insert(p, item);
    let n = s.len() as int;
    let t = item.0;
    lemma_insert_rising(before, p, item);
    assert forall|i: int| 0 <= i < after.len() implies #[trigger] kept_last(s2, after, i) by {
        if i == p {
            assert(last_with_time(s2, n) && after[i] == s2[n]);
        } else {
            let k = if i < p { i } else { i - 1 };
            assert(after[i] == before[k]);
            assert(kept_last(s, before, k));
            let j = choose|j: int| last_with_time(s, j) && before[k] == #[trigger] s[j];
            if k < p {
                assert(before[k].0 < t);
            } else {
                assert(before[p].0 <= before[k].0);
            }
            assert(s2[j] == s[j]);
            assert forall|m: int| j < m < s2.len() implies #[trigger] s2[m].0 != s2[j].0 by {
                if m < n {
                    assert(s2[m] == s[m]);
                }
            }
            assert(last_with_time(s2, j) && after[i] == s2[j]);
        }
    }
    assert forall|j: int| 0 <= j < s2.len() implies has_time(after, (#[trigger] s2[j]).0) by {
        if j == n {
            assert(after[p].0 == s2[j].0);
        } else {
            assert(s2[j] == s[j]);
            assert(has_time(before, s[j].0));
            let i = choose|i: int| 0 <= i < before.len() && (#[trigger] before[i]).0 == s[j].0;
            if i < p {
                assert(after[i].0 == before[i].0);
            } else {
                assert(after[i + 1].0 == before[i].0);
            }
        }
    }
}

/// Puts the events received for an instance in the order in which they are
/// applied: by time, each time once, an event received later replacing one
/// received earlier with the same time.
pub fn in_time_order<T>(received: Vec<(u64, T)>) -> (out: Vec<(u64, T)>)
    ensures
        is_time_order(received@, out@),
{
    let ghost orig = received@;
    let total = received.len();
    let mut rest = received;
    let mut out: Vec<(u64, T)> = Vec::new();
    let mut n: usize = 0;
    assert(orig.skip(0) =~= orig);
    assert(orig.take(0) =~= Seq::<(u64, T)>::empty());
    while rest.len() > 0
        invariant
            n + rest@.len() == orig.len(),
            orig.len() == total,
            rest@ == orig.skip(n as int),
            is_time_order(orig.take(n as int), out@),
        decreases rest@.len(),
    {
        let ghost s = orig.take(n as int);
        let ghost before = out@;
        let (t, v) = rest.remove(0);
        let ghost item = (t, v);
        assert(item == orig[n as int]);
        assert(orig.take(n as int + 1) =~= s.push(item));
        let mut p: usize = 0;
        while p < out.len() && out[p].0 < t
            invariant
                p <= out@.len(),
                out@ == before,
                forall|m: int| 0 <= m < p ==> #[trigger] out@[m].0 < t,
            decreases out@.len() - p,
        {
            p = p + 1;
        }
        if p < out.len() && out[p].0 == t {
            out.set(p, (t, v));
            proof {
                lemma_time_order_replace(s, before, p as int, item);
                assert(out@ =~= before.update(p as int, item));
            }
        } else {
            out.insert(p, (t, v));
            proof {
                lemma_time_order_insert(s, before, p as int, item);
                assert(out@ =~= before.insert(p as int, item));
            }
        }
        assert(orig.skip(n as int + 1) =~= orig.skip(n as int).remove(0));
        n = n + 1;
    }
    assert(orig.take(n as int) =~= orig);
    out
}

/// What became of a received event.
#[derive(Debug)]
pub enum Outcome<B, E, D> {
    /// It applied.
    Applied,
    /// The document store failed: the event is rolled back and ignored, and
    /// the caller logs the failure.
    StoreFailed(B),
    /// The event refused to apply: it is rolled back, and the caller passes
    /// the error on to the sender.
    Rejected(E),
    /// It could not be read: it is ignored, and the caller logs it.
    Malformed(D),
}

/// Sorts the result of reading and applying a received event.
pub fn settle<B, E, D>(result: Result<Result<(), EventError<B, E>>, D>) -> (o: Outcome<B, E, D>)
    ensures
        match result {
            Ok(Ok(())) => o is Applied,
            Ok(Err(EventError::Beaker(b))) => o == Outcome::<B, E, D>::StoreFailed(b),
            Ok(Err(EventError::Event(e))) => o == Outcome::<B, E, D>::Rejected(e),
            Err(d) => o == Outcome::<B, E, D>::Malformed(d),
        },
{
    match result {
        Ok(Ok(())) => Outcome::Applied,
        Ok(Err(EventError::Beaker(b))) => Outcome::StoreFailed(b),
        Ok(Err(EventError::Event(e))) => Outcome::Rejected(e),
        Err(d) => Outcome::Malformed(d),
    }
}

/// An event that applies to a document of type `D`: what the events of a
/// contract implement.  Applying may fail, for the document store
/// (`StoreError`) or for the event itself (`Error`); what a failed
/// application left in the document does not count, since `evaluate` applies
/// events to a draft.
pub trait Reactant<D>: Sized {
    type StoreError;

    type Error;

    /// Whether applying the event to the document `before`, signed and timed
    /// by `metadata`, may end in `result` with the document `after`.
    spec fn applies(
        &self,
        before: D,
        metadata: Metadata,
        result: Result<(), EventError<Self::StoreError, Self::Error>>,
        after: D,
    ) -> bool;

    /// Applies the event to a document.
    fn apply(self, doc: &mut D, metadata: Metadata) -> (r: Result<(), EventError<Self::StoreError, Self::Error>>)
        ensures
            self.applies(*old(doc), metadata, r, *final(doc)),
    ;
}

/// What evaluating a received event does to a document: the document
/// changes only where the event applied, to what the event made of a copy of
/// it; otherwise it stays, and the outcome says why.
pub open spec fn evaluated<R: Reactant<D>, D: Clone, X>(
    decoded: Result<R, X>,
    before: D,
    metadata: Metadata,
    o: Outcome<R::StoreError, R::Error, X>,
    after: D,
) -> bool {
    &&& !(o is Applied) ==> after == before
    &&& match decoded {
        Err(x) => o == Outcome::<R::StoreError, R::Error, X>::Malformed(x),
        Ok(event) => exists|draft: D, r: Result<(), EventError<R::StoreError, R::Error>>, made: D|
            {
                &&& cloned(before, draft)
                &&& event.applies(draft, metadata, r, made)
                &&& match r {
                    Ok(()) => o is Applied && after == made,
                    Err(EventError::Beaker(b)) => o == Outcome::<R::StoreError, R::Error, X>::StoreFailed(b),
                    Err(EventError::Event(e)) => o == Outcome::<R::StoreError, R::Error, X>::Rejected(e),
                }
            },
    }
}

/// Applies a received event to a document, all or nothing: the event, if it
/// could be read, is applied to a copy of the document, and the copy replaces
/// the document only where the event applied.  Where it could not be read,
/// where the store failed, or where the event refused, the document stays as
/// it was.
pub fn evaluate<R: Reactant<D>, D: Clone, X>(decoded: Result<R, X>, doc: &mut D, metadata: Metadata) -> (o: Outcome<R::StoreError, R::Error, X>)
    ensures
        evaluated(decoded, *old(doc), metadata, o, *final(doc)),
{
    match decoded {
        Err(x) => Outcome::Malformed(x),
        Ok(event) => {
            let mut draft = doc.clone();
            let ghost start = draft;
            let ghost ev = event;
            let r = event.apply(&mut draft, metadata);
            let ghost rr = r;
            match r {
                Ok(()) => {
                    let ghost after = draft;
                    *doc = draft;
                    assert(cloned(*old(doc), start) && ev.applies(start, metadata, rr, after));
                    Outcome::Applied
                },
                Err(EventError::Beaker(b)) => {
                    assert(cloned(*old(doc), start) && ev.applies(start, metadata, rr, draft));
                    Outcome::StoreFailed(b)
                },
                Err(EventError::Event(e)) => {
                    assert(cloned(*old(doc), start) && ev.applies(start, metadata, rr, draft));
                    Outcome::Rejected(e)
                },
            }
        },
    }
}

/// The documents of instances, by contract and instance.
pub open spec fn documents_view<D>(entries: Seq<(Id, Id, D)>) -> Seq<(Seq<u8>, Seq<u8>, D)> {
    entries.map_values(|e: (Id, Id, D)| (e.0@, e.1@, e.2))
}

/// Whether no two documents belong to the same instance of the same contract.
pub open spec fn distinct_instances<D>(v: Seq<(Seq<u8>, Seq<u8>, D)>) -> bool {
    forall|a: int, b: int|
        #![trigger v[a], v[b]]
        0 <= a < v.len() && 0 <= b < v.len() && a != b ==> !(v[a].0 == v[b].0 && v[a].1 == v[b].1)
}

/// The documents (the values) of the instances that a manager keeps.
#[derive(Debug)]
pub struct Documents<D> {
    entries: Vec<(Id, Id, D)>,
}

impl<D> View for Documents<D> {
    type V = Seq<(Seq<u8>, Seq<u8>, D)>;

    closed spec fn view(&self) -> Seq<(Seq<u8>, Seq<u8>, D)> {
        documents_view(self.entries@)
    }
}

impl<D> Documents<D> {
    #[verifier::type_invariant]
    closed spec fn wf(self) -> bool {
        distinct_instances(documents_view(self.entries@))
    }

    /// Whether there is a document for an instance of a contract.
    pub open spec fn holds(self, contract: Seq<u8>, instance: Seq<u8>) -> bool {
        exists|k: int| 0 <= k < self@.len() && (#[trigger] self@[k]).0 == contract && self@[k].1 == instance
    }

    /// The document of an instance of a contract.
    pub open spec fn doc(self, contract: Seq<u8>, instance: Seq<u8>) -> D {
        self@[choose|k: int| 0 <= k < self@.len() && (#[trigger] self@[k]).0 == contract && self@[k].1 == instance].2
    }

    /// No documents.
    pub fn new() -> (d: Documents<D>)
        ensures
            forall|c: Seq<u8>, i: Seq<u8>| !d.holds(c, i),
    {
        let d = Documents { entries: Vec::new() };
        assert(d@.len() == 0);
        d
    }

    /// The place of an instance's document.
    fn find(&self, contract: &Id, instance: &Id) -> (k: Option<usize>)
        ensures
            k is Some == self.holds(contract@, instance@),
            k matches Some(k) ==> k < self@.len() && self@[k as int].0 == contract@ && self@[k as int].1
                == instance@ && self.doc(contract@, instance@) == self@[k as int].2,
    {
        proof {
            use_type_invariant(self);
        }
        let mut k: usize = 0;
        while k < self.entries.len()
            invariant
                k <= self.entries@.len(),
                self@ == documents_view(self.entries@),
                distinct_instances(self@),
                forall|j: int| 0 <= j < k ==> !((#[trigger] self@[j]).0 == contract@ && self@[j].1 == instance@),
            decreases self.entries@.len() - k,
        {
            if self.entries[k].0.same(contract) && self.entries[k].1.same(instance) {
                proof {
                    assert(self@[k as int].0 == contract@ && self@[k as int].1 == instance@);
                    let w = choose|w: int| 0 <= w < self@.len() && (#[trigger] self@[w]).0 == contract@ && self@[w].1
                        == instance@;
                    assert(w == k);
                }
                return Some(k);
            }
            k = k + 1;
        }
        None
    }

    /// The document of an instance of a contract, if there is one.
    pub fn get(&self, contract: &Id, instance: &Id) -> (d: Option<&D>)
        ensures
            d is Some == self.holds(contract@, instance@),
            d matches Some(d) ==> *d == self.doc(contract@, instance@),
    {
        match self.find(contract, instance) {
            Some(k) => Some(&self.entries[k].2),
            None => None,
        }
    }

    /// Starts the document of a new instance with its initial value; an
    /// instance that already has a document keeps it.  Returns whether the
    /// document was started.
    pub fn start(&mut self, contract: Id, instance: Id, init: D) -> (started: bool)
        ensures
            started == !old(self).holds(contract@, instance@),
            final(self).holds(contract@, instance@),
            started ==> final(self).doc(contract@, instance@) == init,
            !started ==> final(self)@ == old(self)@,
            forall|c: Seq<u8>, i: Seq<u8>|
                !(c == contract@ && i == instance@) ==> (#[trigger] final(self).holds(c, i) == old(self).holds(c, i)
                    && (old(self).holds(c, i) ==> final(self).doc(c, i) == old(self).doc(c, i))),
    {
        proof {
            use_type_invariant(&*self);
        }
        if self.find(&contract, &instance).is_some() {
            return false;
        }
        let ghost before = self@;
        let ghost old_entries = self.entries@;
        let mut entries: Vec<(Id, Id, D)> = Vec::new();
        std::mem::swap(&mut entries, &mut self.entries);
        let ghost e = (contract, instance, init);
        entries.push((contract, instance, init));
        proof {
            assert(entries@ =~= old_entries.push(e));
            let after = documents_view(entries@);
            assert(after =~= before.push((contract@, instance@, init)));
            assert forall|a: int, b: int|
                #![trigger after[a], after[b]]
                0 <= a < after.len() && 0 <= b < after.len() && a != b implies !(after[a].0 == after[b].0
                    && after[a].1 == after[b].1) by {
                if a < before.len() && b < before.len() {
                    assert(after[a] == before[a] && after[b] == before[b]);
                } else if a < before.len() {
                    assert(after[a] == before[a]);
                } else {
                    assert(after[b] == before[b]);
                }
            }
        }
        self.entries = entries;
        proof {
            let after = self@;
            let n = before.len() as int;
            assert(after[n] == (contract@, instance@, init));
            let w = choose|w: int| 0 <= w < after.len() && (#[trigger] after[w]).0 == contract@ && after[w].1 == instance@;
            assert(w == n);
            assert forall|c: Seq<u8>, i: Seq<u8>|
                !(c == contract@ && i == instance@) implies (#[trigger] self.holds(c, i) == old(self).holds(c, i)
                    && (old(self).holds(c, i) ==> self.doc(c, i) == old(self).doc(c, i))) by {
                if old(self).holds(c, i) {
                    let j = choose|j: int| 0 <= j < before.len() && (#[trigger] before[j]).0 == c && before[j].1 == i;
                    assert(after[j] == before[j]);
                    let jn = choose|j: int| 0 <= j < after.len() && (#[trigger] after[j]).0 == c && after[j].1 == i;
                    assert(jn == j);
                }
                if self.holds(c, i) {
                    let j = choose|j: int| 0 <= j < after.len() && (#[trigger] after[j]).0 == c && after[j].1 == i;
                    assert(j < n);
                    assert(after[j] == before[j]);
                }
            }
        }
        true
    }
}

impl<D: Clone> Documents<D> {
    /// Evaluates a received event on the document of an instance (see
    /// `evaluate`); the other documents stay.  `None` where there is no such
    /// document.
    pub fn apply<R: Reactant<D>, X>(
        &mut self,
        contract: &Id,
        instance: &Id,
        decoded: Result<R, X>,
        metadata: Metadata,
    ) -> (o: Option<Outcome<R::StoreError, R::Error, X>>)
        ensures
            o is None == !old(self).holds(contract@, instance@),
            o is None ==> final(self)@ == old(self)@,
            o matches Some(o) ==> evaluated(
                decoded,
                old(self).doc(contract@, instance@),
                metadata,
                o,
                final(self).doc(contract@, instance@),
            ),
            forall|c: Seq<u8>, i: Seq<u8>| #[trigger] final(self).holds(c, i) == old(self).holds(c, i),
            forall|c: Seq<u8>, i: Seq<u8>|
                !(c == contract@ && i == instance@) && old(self).holds(c, i) ==> #[trigger] final(self).doc(c, i)
                    == old(self).doc(c, i),
    {
        proof {
            use_type_invariant(&*self);
        }
        let k = match self.find(contract, instance) {
            Some(k) => k,
            None => return None,
        };
        let ghost before = self@;
        let ghost old_entries = self.entries@;
        let mut entries: Vec<(Id, Id, D)> = Vec::new();
        std::mem::swap(&mut entries, &mut self.entries);
        let (c0, i0, mut d) = entries.remove(k);
        let o = evaluate(decoded, &mut d, metadata);
        let ghost e = (c0, i0, d);
        entries.insert(k, (c0, i0, d));
        proof {
            assert(entries@ =~= old_entries.update(k as int, e));
            let after = documents_view(entries@);
            assert(after =~= before.update(k as int, (c0@, i0@, d)));
            assert forall|a: int, b: int|
                #![trigger after[a], after[b]]
                0 <= a < after.len() && 0 <= b < after.len() && a != b implies !(after[a].0 == after[b].0
                    && after[a].1 == after[b].1) by {
                assert(after[a].0 == before[a].0 && after[a].1 == before[a].1);
                assert(after[b].0 == before[b].0 && after[b].1 == before[b].1);
            }
        }
        self.entries = entries;
        proof {
            let after = self@;
            let kk = k as int;
            assert(after[kk].2 == d);
            let w = choose|w: int| 0 <= w < after.len() && (#[trigger] after[w]).0 == contract@ && after[w].1 == instance@;
            assert(w == kk);
            assert forall|c: Seq<u8>, i: Seq<u8>| #[trigger] self.holds(c, i) == old(self).holds(c, i) by {
                if old(self).holds(c, i) {
                    let j = choose|j: int| 0 <= j < before.len() && (#[trigger] before[j]).0 == c && before[j].1 == i;
                    assert(after[j].0 == before[j].0 && after[j].1 == before[j].1);
                }
                if self.holds(c, i) {
                    let j = choose|j: int| 0 <= j < after.len() && (#[trigger] after[j]).0 == c && after[j].1 == i;
                    assert(after[j].0 == before[j].0 && after[j].1 == before[j].1);
                }
            }
            assert forall|c: Seq<u8>, i: Seq<u8>|
                !(c == contract@ && i == instance@) && old(self).holds(c, i) implies #[trigger] self.doc(c, i)
                    == old(self).doc(c, i) by {
                let j = choose|j: int| 0 <= j < before.len() && (#[trigger] before[j]).0 == c && before[j].1 == i;
                assert(j != kk);
                assert(after[j] == before[j]);
                let jn = choose|j: int| 0 <= j < after.len() && (#[trigger] after[j]).0 == c && after[j].1 == i;
                assert(jn == j);
            }
        }
        Some(o)
    }
}

} // verus!
