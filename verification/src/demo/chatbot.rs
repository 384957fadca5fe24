//! A chat room contract, a bot that answers its author, and the editing of
//! the message being typed.

use vstd::prelude::*;

use crate::event::{Event, Key, KeyboardEvent, KeyboardState};
use crate::names::{Id, Metadata, Name, air_id_hash};
use crate::text::{contains, occurs_in, pop_char, prefix, push_str, truncate_chars};

verus! {

/// A message in a room.
#[derive(Clone, Debug, PartialEq, Eq)]
pub struct Message {
    pub author: Name,
    pub timestamp: u64,
    pub body: String,
}

/// A chat room: who made it, its name, and its messages in the order sent.
#[derive(Clone, Debug, PartialEq, Eq)]
pub struct Room {
    pub author: Name,
    pub name: String,
    pub messages: Vec<Message>,
}

impl Room {
    /// The contract's identifier.
    pub fn id() -> (id: Id)
        ensures
            id@ == air_id_hash("Room"@),
    {
        Id::hash("Room")
    }

    /// A new room named `init`, made by the signer, with no messages.
    pub fn init(init: String, metadata: Metadata) -> (room: Room)
        ensures
            room.author == metadata.signer,
            room.name == init,
            room.messages@.len() == 0,
    {
        Room { author: metadata.signer, name: init, messages: Vec::new() }
    }
}

/// Sends a message to a room.
#[derive(Clone, Debug, PartialEq, Eq)]
pub struct SendMessage(pub String);

impl SendMessage {
    /// The reactant's identifier.
    pub fn id() -> (id: Id)
        ensures
            id@ == air_id_hash("SendMessage"@),
    {
        Id::hash("SendMessage")
    }

    /// Appends the message, signed and timed by the metadata, and returns its
    /// index in the room.
    pub fn apply(self, room: &mut Room, metadata: Metadata) -> (index: usize)
        requires
            old(room).messages@.len() < usize::MAX,
        ensures
            final(room).messages@ == old(room).messages@.push(
                Message { author: metadata.signer, timestamp: metadata.timestamp, body: self.0 },
            ),
            final(room).author == old(room).author,
            final(room).name == old(room).name,
            index == old(room).messages@.len(),
    {
        room.messages.push(
            Message { author: metadata.signer, timestamp: metadata.timestamp, body: self.0 },
        );
        room.messages.len() - 1
    }
}

/// What the bot says in reply to a message with this body.
pub open spec fn reply_text(body: Seq<char>) -> Seq<char> {
    "ChatBot Replying to \""@ + prefix(body, 10) + "...\": I totally agree"@
}

/// Whether the bot answers a message: it answers its own user, except for
/// messages that mention it.
pub open spec fn answers(message: Message, me: Seq<char>) -> bool {
    message.author@ == me && !occurs_in("ChatBot"@, message.body@)
}

/// A service that agrees with whatever its user writes in a room.
#[derive(Clone, Copy, Debug, Default)]
pub struct ChatBot;

impl ChatBot {
    /// The service's identifier.
    pub fn id() -> (id: Id)
        ensures
            id@ == air_id_hash("CHATBOT"@),
    {
        Id::hash("CHATBOT")
    }

    /// The bot; it keeps no state of its own.
    pub fn new() -> (bot: ChatBot)
        ensures
            bot == ChatBot,
    {
        ChatBot
    }

    /// The bot's reply to a confirmed message, if it answers it: a message
    /// quoting the first ten characters of the body.
    pub fn reply_to(&self, message: &Message, me: &Name) -> (reply: Option<SendMessage>)
        ensures
            reply is Some == answers(*message, me@),
            reply matches Some(r) ==> r.0@ == reply_text(message.body@),
    {
        if message.author.same(me) && !contains(message.body.as_str(), "ChatBot") {
            let mut text = String::from_str("ChatBot Replying to \"");
            let quoted = truncate_chars(message.body.as_str(), 10);
            push_str(&mut text, quoted.as_str());
            push_str(&mut text, "...\": I totally agree");
            Some(SendMessage(text))
        } else {
            None
        }
    }

    /// What the bot sends to each room when it shuts down.
    pub fn farewell(&self) -> (m: SendMessage)
        ensures
            m.0@ == "ChatBot Shutting Down"@,
    {
        SendMessage(String::from_str("ChatBot Shutting Down"))
    }
}

/// The bot never answers its own replies: a message whose body is a reply
/// of the bot mentions the bot.
pub proof fn lemma_bot_ignores_its_replies(message: Message, me: Seq<char>, quoted: Seq<char>)
    requires
        message.body@ == reply_text(quoted),
    ensures
        !answers(message, me),
{
    reveal_strlit("ChatBot Replying to \"");
    reveal_strlit("ChatBot");
    let body = message.body@;
    assert(body.subrange(0, 7) =~= "ChatBot"@);
    assert(body.subrange(0int, 0int + "ChatBot"@.len()) == "ChatBot"@);
}

/// The line that shows a message: the first ten characters of its author's
/// name, a colon, and the body.
pub open spec fn message_line_text(message: Message) -> Seq<char> {
    message.author@.take(10) + ": "@ + message.body@
}

/// The line that shows a message in the list of messages.
pub fn message_line(message: &Message) -> (line: String)
    ensures
        line@ == message_line_text(*message),
{
    let author = message.author.as_str();
    proof {
        assert forall|i: int| 0 <= i < author@.len() implies '\0' <= #[trigger] author@[i] <= '\u{7f}' by {
            assert(crate::names::is_lower_hex_digit(author@[i]));
        }
    }
    let head = author.substring_ascii(0, 10);
    let mut line = head.to_string();
    proof {
        vstd::string::to_string_from_display_ensures_for_str(head, line);
    }
    push_str(&mut line, ": ");
    push_str(&mut line, message.body.as_str());
    line
}

/// The lines that show the messages of a room, in order.
pub fn message_lines(room: &Room) -> (lines: Vec<String>)
    ensures
        lines@.len() == room.messages@.len(),
        forall|i: int| 0 <= i < lines@.len() ==> #[trigger] lines@[i]@ == message_line_text(room.messages@[i]),
{
    let mut lines: Vec<String> = Vec::new();
    let mut i: usize = 0;
    while i < room.messages.len()
        invariant
            i <= room.messages@.len(),
            lines@.len() == i,
            forall|j: int| 0 <= j < i ==> #[trigger] lines@[j]@ == message_line_text(room.messages@[j]),
        decreases room.messages@.len() - i,
    {
        lines.push(message_line(&room.messages[i]));
        i = i + 1;
    }
    lines
}

/// The text being typed after a key event: a pressed character is appended,
/// a pressed Delete or Backspace removes the last character, a pressed Enter
/// clears it; anything else leaves it.
pub open spec fn edited(text: Seq<char>, event: Event) -> Seq<char> {
    match event {
        Event::Keyboard(KeyboardEvent { key, state: KeyboardState::Pressed, .. }) => match key {
            Key::Character(c) => text + c@,
            Key::Delete | Key::Backspace => if text.len() == 0 {
                text
            } else {
                text.drop_last()
            },
            Key::Enter => Seq::empty(),
            _ => text,
        },
        _ => text,
    }
}

/// The field in which a message is typed.
#[derive(Clone, Debug, PartialEq, Eq)]
pub struct TextInput {
    pub text: String,
}

impl TextInput {
    /// A field showing a placeholder.
    pub fn new() -> (t: TextInput)
        ensures
            t.text@ == "placeholder"@,
    {
        TextInput { text: String::from_str("placeholder") }
    }

    /// Edits the text for a key event.
    pub fn on_event(&mut self, event: &Event)
        ensures
            final(self).text@ == edited(old(self).text@, *event),
    {
        match event {
            Event::Keyboard(KeyboardEvent { key, state: KeyboardState::Pressed, .. }) => match key {
                Key::Character(c) => {
                    push_str(&mut self.text, c.as_str());
                },
                Key::Delete | Key::Backspace => {
                    let _ = pop_char(&mut self.text);
                },
                Key::Enter => {
                    self.text = String::new();
                },
                _ => {},
            },
            _ => {},
        }
    }
}

/// A pressed key with no modifiers.
pub open spec fn pressed(key: Key) -> Event {
    Event::Keyboard(
        KeyboardEvent {
            key,
            state: KeyboardState::Pressed,
            modifiers: crate::event::Modifiers {
                shift: false,
                control: false,
                alt: false,
                supermeta: false,
            },
        },
    )
}

/// Typing one character and then Backspace leaves the text as it was.
pub proof fn lemma_backspace_undoes_typing(text: Seq<char>, c: String)
    requires
        c@.len() == 1,
    ensures
        edited(edited(text, pressed(Key::Character(c))), pressed(Key::Backspace)) == text,
{
    assert((text + c@).drop_last() =~= text);
}

/// Enter clears the text, whatever it was.
pub proof fn lemma_enter_clears(text: Seq<char>)
    ensures
        edited(text, pressed(Key::Enter)) == Seq::<char>::empty(),
{
}

/// What the list of messages sends for an event: on a pressed Enter, the text
/// being typed.
pub fn message_to_send(event: &Event, typed: &TextInput) -> (m: Option<SendMessage>)
    ensures
        m is Some <==> event matches Event::Keyboard(
            KeyboardEvent { key: Key::Enter, state: KeyboardState::Pressed, .. },
        ),
        m matches Some(s) ==> s.0 == typed.text,
{
    match event {
        Event::Keyboard(KeyboardEvent { key: Key::Enter, state: KeyboardState::Pressed, .. }) => Some(
            SendMessage(typed.text.clone()),
        ),
        _ => None,
    }
}

/// A pressed character is appended to the typed text, whatever modifiers are
/// held.
pub proof fn lemma_typed_character_appended(text: Seq<char>, c: String, modifiers: crate::event::Modifiers)
    ensures
        edited(
            text,
            Event::Keyboard(KeyboardEvent { key: Key::Character(c), state: KeyboardState::Pressed, modifiers }),
        ) == text + c@,
{
}

/// The bot answers exactly its own user's messages that do not mention it;
/// nothing else about the body matters.
pub proof fn lemma_bot_answers_its_user(message: Message, me: Seq<char>)
    ensures
        answers(message, me) <==> (message.author@ == me && !occurs_in("ChatBot"@, message.body@)),
{
}

/// Two messages of the same author that do not mention the bot are answered
/// alike, whatever their bodies say.
pub proof fn lemma_answer_ignores_body(a: Message, b: Message, me: Seq<char>)
    requires
        a.author@ == b.author@,
        !occurs_in("ChatBot"@, a.body@),
        !occurs_in("ChatBot"@, b.body@),
    ensures
        answers(a, me) == answers(b, me),
{
}

/// Editing, whatever modifiers are held: Backspace and Delete remove the
/// last character (if any), Enter empties the text, other pressed keys and
/// any repeated or released key leave it as it was.
pub proof fn lemma_editing_keys(text: Seq<char>, key: Key, state: KeyboardState, modifiers: crate::event::Modifiers)
    ensures
        ({
            let e = Event::Keyboard(KeyboardEvent { key, state, modifiers });
            &&& state != KeyboardState::Pressed ==> edited(text, e) == text
            &&& state == KeyboardState::Pressed && (key == Key::Backspace || key == Key::Delete) ==> {
                &&& text.len() > 0 ==> edited(text, e) == text.take(text.len() - 1)
                &&& text.len() == 0 ==> edited(text, e).len() == 0
            }
            &&& state == KeyboardState::Pressed && key == Key::Enter ==> edited(text, e).len() == 0
            &&& state == KeyboardState::Pressed && !(key is Character) && key != Key::Backspace && key
                != Key::Delete && key != Key::Enter ==> edited(text, e) == text
        }),
{
    let e = Event::Keyboard(KeyboardEvent { key, state, modifiers });
    if text.len() > 0 {
        assert(text.drop_last() =~= text.take(text.len() - 1));
    }
}

/// Events other than keys leave the typed text as it was.
pub proof fn lemma_other_events_keep_text(text: Seq<char>, event: Event)
    requires
        !(event is Keyboard),
    ensures
        edited(text, event) == text,
{
}

} // verus!
