use ramp::demo::chatbot::{
    message_line, message_lines, message_to_send, ChatBot, Message, Room, SendMessage, TextInput,
};
use ramp::event::{Event, Key, KeyboardEvent, KeyboardState, Modifiers, MouseButton, MouseEvent, MouseState};
use ramp::names::{Metadata, Name};

const ALICE: &str = "0279be667ef9dcbbac55a06295ce870b07029bfcdb2dce28d959f2815b16f81798";
const BOB: &str = "02c6047f9441ed7d6d3045406e95c07cd85c778e4b8cef3ca7abac09b95c709ee5";

fn name(text: &str) -> Name {
    Name::parse(text).unwrap()
}

fn key(key: Key, state: KeyboardState) -> Event {
    Event::Keyboard(KeyboardEvent {
        key,
        state,
        modifiers: Modifiers { shift: false, control: false, alt: false, supermeta: false },
    })
}

fn message(author: &str, body: &str) -> Message {
    Message { author: name(author), timestamp: 1, body: body.to_string() }
}

#[test]
fn room_starts_empty() {
    let room = Room::init("Default".to_string(), Metadata { signer: name(ALICE), timestamp: 3 });
    assert_eq!(room.author.as_str(), ALICE);
    assert_eq!(room.name, "Default");
    assert!(room.messages.is_empty());
    assert_eq!(Room::id().bytes, <[u8; 32]>::from(air::Id::hash("Room")));
    assert_eq!(SendMessage::id().bytes, <[u8; 32]>::from(air::Id::hash("SendMessage")));
    assert_eq!(ChatBot::id().bytes, <[u8; 32]>::from(air::Id::hash("CHATBOT")));
}

#[test]
fn send_message_appends_and_indexes() {
    let mut room = Room::init("r".to_string(), Metadata { signer: name(ALICE), timestamp: 0 });
    let i = SendMessage("Hello".to_string()).apply(&mut room, Metadata { signer: name(BOB), timestamp: 10 });
    assert_eq!(i, 0);
    let j = SendMessage("Goodbye".to_string()).apply(&mut room, Metadata { signer: name(ALICE), timestamp: 11 });
    assert_eq!(j, 1);
    assert_eq!(room.messages[0].body, "Hello");
    assert_eq!(room.messages[0].author.as_str(), BOB);
    assert_eq!(room.messages[0].timestamp, 10);
    assert_eq!(room.messages[1].body, "Goodbye");
    assert_eq!(room.author.as_str(), ALICE);
}

#[test]
fn bot_replies_to_its_user() {
    let bot = ChatBot::new();
    let reply = bot.reply_to(&message(ALICE, "Hello there world!"), &name(ALICE)).unwrap();
    assert_eq!(reply.0, "ChatBot Replying to \"Hello ther...\": I totally agree");
    let short = bot.reply_to(&message(ALICE, "Hi"), &name(ALICE)).unwrap();
    assert_eq!(short.0, "ChatBot Replying to \"Hi...\": I totally agree");
}

#[test]
fn bot_ignores_others_and_itself() {
    let bot = ChatBot::new();
    assert!(bot.reply_to(&message(BOB, "Hello"), &name(ALICE)).is_none());
    assert!(bot.reply_to(&message(ALICE, "what does ChatBot think"), &name(ALICE)).is_none());
    let reply = bot.reply_to(&message(ALICE, "Hello"), &name(ALICE)).unwrap();
    assert!(bot.reply_to(&message(ALICE, &reply.0), &name(ALICE)).is_none());
}

#[test]
fn bot_farewell() {
    assert_eq!(ChatBot::new().farewell().0, "ChatBot Shutting Down");
}

#[test]
fn message_lines_show_author_prefix() {
    assert_eq!(message_line(&message(ALICE, "Hello")), "0279be667e: Hello");
    let mut room = Room::init("r".to_string(), Metadata { signer: name(ALICE), timestamp: 0 });
    SendMessage("a".to_string()).apply(&mut room, Metadata { signer: name(BOB), timestamp: 1 });
    SendMessage("b".to_string()).apply(&mut room, Metadata { signer: name(ALICE), timestamp: 2 });
    assert_eq!(message_lines(&room), vec!["02c6047f94: a".to_string(), "0279be667e: b".to_string()]);
}

#[test]
fn typing_edits_text() {
    let mut input = TextInput::new();
    assert_eq!(input.text, "placeholder");
    input.on_event(&key(Key::Enter, KeyboardState::Pressed));
    assert_eq!(input.text, "");
    input.on_event(&key(Key::Character("h".to_string()), KeyboardState::Pressed));
    input.on_event(&key(Key::Character("i".to_string()), KeyboardState::Pressed));
    assert_eq!(input.text, "hi");
    input.on_event(&key(Key::Character("x".to_string()), KeyboardState::Released));
    input.on_event(&key(Key::Left, KeyboardState::Pressed));
    assert_eq!(input.text, "hi");
    input.on_event(&key(Key::Backspace, KeyboardState::Pressed));
    assert_eq!(input.text, "h");
    input.on_event(&key(Key::Delete, KeyboardState::Pressed));
    input.on_event(&key(Key::Delete, KeyboardState::Pressed));
    assert_eq!(input.text, "");
    input.on_event(&Event::Mouse(MouseEvent { state: MouseState::Pressed(MouseButton::Left), positioned: true }));
    assert_eq!(input.text, "");
}

#[test]
fn backspace_undoes_a_character() {
    let mut input = TextInput { text: "abc".to_string() };
    input.on_event(&key(Key::Character("é".to_string()), KeyboardState::Pressed));
    assert_eq!(input.text, "abcé");
    input.on_event(&key(Key::Backspace, KeyboardState::Pressed));
    assert_eq!(input.text, "abc");
}

#[test]
fn enter_sends_typed_text() {
    let input = TextInput { text: "hello".to_string() };
    let sent = message_to_send(&key(Key::Enter, KeyboardState::Pressed), &input).unwrap();
    assert_eq!(sent.0, "hello");
    assert!(message_to_send(&key(Key::Enter, KeyboardState::Released), &input).is_none());
    assert!(message_to_send(&Event::Tick, &input).is_none());
}
