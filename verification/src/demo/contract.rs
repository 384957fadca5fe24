//! A chat room kept as a document: its contract decides what each reactant
//! writes into the document.

use vstd::prelude::*;

use crate::names::{Id, Name, air_id_hash};

verus! {

/// A document value: text, an integer, or a map from keys to values (kept in
/// the order of its keys).
#[derive(Debug)]
pub enum Substance {
    String(String),
    Integer(i64),
    Object(Vec<(String, Substance)>),
}

impl Substance {
    /// An empty map.
    pub fn map() -> (s: Substance)
        ensures
            s matches Substance::Object(v) && v@.len() == 0,
    {
        Substance::Object(Vec::new())
    }
}

/// A write into a document: the value to put at a path (a path ending in `-`
/// appends to the list there).
#[derive(Debug)]
pub struct Write {
    pub path: String,
    pub value: Substance,
}

/// The reactants that a chat room accepts.
#[derive(Clone, Copy, Debug, PartialEq, Eq)]
pub enum ChatRoomReactant {
    ChangeName,
    SendMessage,
}

/// A chat room contract.
#[derive(Clone, Copy, Debug, PartialEq, Eq, Hash)]
pub struct ChatRoom;

impl ChatRoom {
    /// A chat room (its name is set when the document is made).
    pub fn new(_name: &str) -> (room: ChatRoom)
        ensures
            room == ChatRoom,
    {
        ChatRoom
    }

    /// The contract's identifier.
    pub fn id() -> (id: Id)
        ensures
            id@ == air_id_hash("ChatRoom2.5"@),
    {
        Id::hash("ChatRoom2.5")
    }

    /// The first document of a room: its author is the signer, its name
    /// "myroom", and it has an empty map of messages.
    pub fn init(self, signer: &Name, _timestamp: u64) -> (doc: Substance)
        ensures
            doc matches Substance::Object(entries) && entries@.len() == 3 && {
                &&& entries@[0].0@ == "author"@
                &&& entries@[0].1 matches Substance::String(a) && a@ == signer@
                &&& entries@[1].0@ == "messages"@
                &&& entries@[1].1 matches Substance::Object(m) && m@.len() == 0
                &&& entries@[2].0@ == "name"@
                &&& entries@[2].1 matches Substance::String(n) && n@ == "myroom"@
            },
    {
        let mut entries: Vec<(String, Substance)> = Vec::new();
        let signer_text = signer.as_str();
        let author = signer_text.to_string();
        proof {
            vstd::string::to_string_from_display_ensures_for_str(signer_text, author);
        }
        entries.push((String::from_str("author"), Substance::String(author)));
        entries.push((String::from_str("messages"), Substance::map()));
        entries.push((String::from_str("name"), Substance::String(String::from_str("myroom"))));
        Substance::Object(entries)
    }

    /// Which reactants each path of the document accepts.
    pub fn routes() -> (routes: Vec<(String, Vec<ChatRoomReactant>)>)
        ensures
            routes@.len() == 2,
            routes@[0].0@ == "/messages"@,
            routes@[0].1@ == seq![ChatRoomReactant::SendMessage],
            routes@[1].0@ == "/name"@,
            routes@[1].1@ == seq![ChatRoomReactant::ChangeName],
    {
        let mut routes: Vec<(String, Vec<ChatRoomReactant>)> = Vec::new();
        let mut messages: Vec<ChatRoomReactant> = Vec::new();
        messages.push(ChatRoomReactant::SendMessage);
        let mut name: Vec<ChatRoomReactant> = Vec::new();
        name.push(ChatRoomReactant::ChangeName);
        routes.push((String::from_str("/messages"), messages));
        routes.push((String::from_str("/name"), name));
        routes
    }
}

/// Renames a room.
#[derive(Clone, Debug, PartialEq, Eq)]
pub struct ChangeName(pub String);

impl ChangeName {
    /// Renames the room if the signer is its author.  `author` is what the
    /// document holds at `/author`; the result is the write to make, if any.
    pub fn apply(self, author: &Option<Substance>, signer: &Name) -> (w: Option<Write>)
        ensures
            w is Some <==> (author matches Some(Substance::String(a)) && a@ == signer@),
            w matches Some(w) ==> (w.path@ == "/name"@ && (w.value matches Substance::String(n) && n
                == self.0)),
    {
        match author {
            Some(Substance::String(a)) => {
                let signer_text = signer.as_str();
                let expected = signer_text.to_string();
                proof {
                    vstd::string::to_string_from_display_ensures_for_str(signer_text, expected);
                }
                if *a == expected {
                    Some(Write { path: String::from_str("/name"), value: Substance::String(self.0) })
                } else {
                    None
                }
            },
            _ => None,
        }
    }
}

/// Appends a message to a room.
#[derive(Clone, Debug, PartialEq, Eq)]
pub struct SendMessage(pub String);

impl SendMessage {
    /// The write that appends the message to the room's messages: a map of
    /// its author (the signer), body, and timestamp.
    pub fn apply(self, signer: &Name, timestamp: u64) -> (w: Write)
        ensures
            w.path@ == "/messages/-"@,
            w.value matches Substance::Object(e) && e@.len() == 3 && {
                &&& e@[0].0@ == "author"@
                &&& e@[0].1 matches Substance::String(a) && a@ == signer@
                &&& e@[1].0@ == "body"@
                &&& e@[1].1 matches Substance::String(b) && b == self.0
                &&& e@[2].0@ == "timestamp"@
                &&& e@[2].1 matches Substance::Integer(t) && t == timestamp as i64
            },
    {
        let mut entries: Vec<(String, Substance)> = Vec::new();
        let signer_text = signer.as_str();
        let author = signer_text.to_string();
        proof {
            vstd::string::to_string_from_display_ensures_for_str(signer_text, author);
        }
        entries.push((String::from_str("author"), Substance::String(author)));
        entries.push((String::from_str("body"), Substance::String(self.0)));
        entries.push((String::from_str("timestamp"), Substance::Integer(timestamp as i64)));
        Write { path: String::from_str("/messages/-"), value: Substance::Object(entries) }
    }
}

} // verus!
