use ramp::demo::contract::{ChangeName, ChatRoom, ChatRoomReactant, SendMessage, Substance};
use ramp::names::Name;

const ALICE: &str = "0279be667ef9dcbbac55a06295ce870b07029bfcdb2dce28d959f2815b16f81798";
const BOB: &str = "02c6047f9441ed7d6d3045406e95c07cd85c778e4b8cef3ca7abac09b95c709ee5";

fn name(text: &str) -> Name {
    Name::parse(text).unwrap()
}

fn text(s: &Substance) -> &str {
    match s {
        Substance::String(t) => t.as_str(),
        other => panic!("not text: {:?}", other),
    }
}

#[test]
fn chat_room_document() {
    let room = ChatRoom::new("anything");
    assert_eq!(ChatRoom::id().bytes, <[u8; 32]>::from(air::Id::hash("ChatRoom2.5")));
    match room.init(&name(ALICE), 5) {
        Substance::Object(entries) => {
            assert_eq!(entries.len(), 3);
            assert_eq!(entries[0].0, "author");
            assert_eq!(text(&entries[0].1), ALICE);
            assert_eq!(entries[1].0, "messages");
            assert!(matches!(&entries[1].1, Substance::Object(m) if m.is_empty()));
            assert_eq!(entries[2].0, "name");
            assert_eq!(text(&entries[2].1), "myroom");
        },
        other => panic!("unexpected {:?}", other),
    }
}

#[test]
fn chat_room_routes() {
    let routes = ChatRoom::routes();
    assert_eq!(routes.len(), 2);
    assert_eq!(routes[0].0, "/messages");
    assert_eq!(routes[0].1, vec![ChatRoomReactant::SendMessage]);
    assert_eq!(routes[1].0, "/name");
    assert_eq!(routes[1].1, vec![ChatRoomReactant::ChangeName]);
}

#[test]
fn only_the_author_renames() {
    let author = Some(Substance::String(ALICE.to_string()));
    let w = ChangeName("new name".to_string()).apply(&author, &name(ALICE)).unwrap();
    assert_eq!(w.path, "/name");
    assert_eq!(text(&w.value), "new name");
    assert!(ChangeName("x".to_string()).apply(&author, &name(BOB)).is_none());
    assert!(ChangeName("x".to_string()).apply(&None, &name(ALICE)).is_none());
    assert!(ChangeName("x".to_string()).apply(&Some(Substance::Integer(1)), &name(ALICE)).is_none());
}

#[test]
fn send_message_writes_a_record() {
    let w = SendMessage("hello".to_string()).apply(&name(BOB), 1234);
    assert_eq!(w.path, "/messages/-");
    match w.value {
        Substance::Object(e) => {
            assert_eq!(e[0].0, "author");
            assert_eq!(text(&e[0].1), BOB);
            assert_eq!(e[1].0, "body");
            assert_eq!(text(&e[1].1), "hello");
            assert_eq!(e[2].0, "timestamp");
            assert!(matches!(e[2].1, Substance::Integer(1234)));
        },
        other => panic!("unexpected {:?}", other),
    }
    let late = SendMessage(String::new()).apply(&name(BOB), u64::MAX);
    match late.value {
        Substance::Object(e) => assert!(matches!(e[2].1, Substance::Integer(-1))),
        other => panic!("unexpected {:?}", other),
    }
    assert!(matches!(Substance::map(), Substance::Object(v) if v.is_empty()));
}
