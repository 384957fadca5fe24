use std::any::TypeId;

use ramp::air::{
    accepts_instance, event_target, handler, in_time_order, instance_path, latest_timestamp, settle, Contracts,
    Erased, Error, EventError, Outcome, Registry, Route, TaskAction, TaskInput, Documents,
};
use ramp::air::step;
use ramp::names::{Id, Name};

fn erased<T: 'static>(name: &str) -> Erased {
    Erased { type_id: TypeId::of::<T>(), name: name.to_string() }
}

fn routes() -> Vec<Route> {
    vec![
        Route { path: vec!["/".to_string()], events: vec![erased::<u8>("u8"), erased::<u16>("u16")] },
        Route { path: vec!["/".to_string(), "name".to_string()], events: vec![erased::<u32>("u32")] },
    ]
}

#[test]
fn registry_add_and_lookup() {
    let room = Id::hash("Room");
    let wallet = Id::hash("Wallet");
    let c = Contracts::new();
    assert!(c.get(&room).is_none());
    let c = c.add(room, TypeId::of::<String>(), routes());
    let c = c.add(wallet, TypeId::of::<bool>(), vec![]);
    assert_eq!(c.get(&room).unwrap().type_id, TypeId::of::<String>());
    assert_eq!(c.get(&room).unwrap().routes.len(), 2);
    assert_eq!(c.get(&wallet).unwrap().type_id, TypeId::of::<bool>());
    let c = c.add(room, TypeId::of::<i64>(), vec![]);
    assert_eq!(c.get(&room).unwrap().type_id, TypeId::of::<i64>());
    assert!(c.get(&room).unwrap().routes.is_empty());
    assert_eq!(c.get(&wallet).unwrap().type_id, TypeId::of::<bool>());
}

#[test]
fn events_are_found_by_index() {
    let room = Id::hash("Room");
    let c = Contracts::new().add(room, TypeId::of::<String>(), routes());
    let root = vec!["/".to_string()];
    let e = &c.get(&room).unwrap().routes[0].events;
    assert_eq!(ramp::air::event_index(e, &TypeId::of::<u16>()), Some(1));
    assert_eq!(ramp::air::event_index(e, &TypeId::of::<u64>()), None);
    assert_eq!(handler(&c, &room, &root, 1).unwrap().name, "u16");
    assert!(handler(&c, &room, &root, 2).is_none());
    let named = vec!["/".to_string(), "name".to_string()];
    assert_eq!(handler(&c, &room, &named, 0).unwrap().name, "u32");
    assert!(handler(&c, &room, &vec!["x".to_string()], 0).is_none());
    assert!(handler(&c, &Id::hash("Other"), &root, 0).is_none());
    assert!(ramp::air::route_at(&routes(), &named).is_some());
}

#[test]
fn event_targets_are_read_from_paths() {
    let c = Id::hash("Room");
    let i = Id::hash("instance");
    let path = format!("{}/{}/messages/-", c.to_text(), i.to_text());
    let t = event_target::<()>(&path).unwrap();
    assert_eq!(t.contract, c);
    assert_eq!(t.instance, i);
    assert_eq!(t.path, vec!["messages".to_string(), "-".to_string()]);
    let bare = event_target::<()>(&instance_path(&c, &i)).unwrap();
    assert!(bare.path.is_empty());
    assert_eq!(bare.contract, c);
    assert_eq!(bare.instance, i);
    assert!(matches!(event_target::<()>("nothing"), Err(Error::InvalidEvent)));
    assert!(matches!(event_target::<()>(&format!("{}/zz/x", c.to_text())), Err(Error::InvalidEvent)));
    assert!(matches!(event_target::<()>(&format!("/{}/{}", c.to_text(), i.to_text())), Err(Error::InvalidEvent)));
}

#[test]
fn instance_paths() {
    let c = Id::new([0x11; 32]);
    let i = Id::new([0xab; 32]);
    assert_eq!(instance_path(&c, &i), format!("{}/{}", "11".repeat(32), "ab".repeat(32)));
}

#[test]
fn cursor_moves_to_latest() {
    assert_eq!(latest_timestamp(5, &vec![]), 5);
    assert_eq!(latest_timestamp(5, &vec![3, 9, 7]), 9);
    assert_eq!(latest_timestamp(50, &vec![3, 9, 7]), 50);
}

#[test]
fn only_own_instances() {
    let a = Name::parse("0279be667ef9dcbbac55a06295ce870b07029bfcdb2dce28d959f2815b16f81798").unwrap();
    let b = Name::parse("02c6047f9441ed7d6d3045406e95c07cd85c778e4b8cef3ca7abac09b95c709ee5").unwrap();
    assert!(accepts_instance(&a, &a.clone()));
    assert!(!accepts_instance(&b, &a));
}

#[test]
fn outcomes() {
    assert!(matches!(settle::<u8, u16, u32>(Ok(Ok(()))), Outcome::Applied));
    assert!(matches!(settle::<u8, u16, u32>(Ok(Err(EventError::Beaker(1)))), Outcome::StoreFailed(1)));
    assert!(matches!(settle::<u8, u16, u32>(Ok(Err(EventError::Event(2)))), Outcome::Rejected(2)));
    assert!(matches!(settle::<u8, u16, u32>(Err(3)), Outcome::Malformed(3)));
    assert!(matches!(EventError::<u8, u16>::from_beaker(4), EventError::Beaker(4)));
    assert!(matches!(Error::from_event(5u8), Error::Event(5)));
}

#[test]
fn sent_index_leads_back_to_type() {
    let room = Id::hash("Room");
    let c = Contracts::new().add(room, TypeId::of::<String>(), routes());
    let root = vec!["/".to_string()];
    for (ty, name) in [(TypeId::of::<u8>(), "u8"), (TypeId::of::<u16>(), "u16")] {
        let index = ramp::air::outgoing_index(&c, &room, &root, &ty).unwrap();
        let h = handler(&c, &room, &root, index).unwrap();
        assert_eq!(h.type_id, ty);
        assert_eq!(h.name, name);
    }
    assert!(ramp::air::outgoing_index(&c, &room, &root, &TypeId::of::<u32>()).is_none());
    assert!(ramp::air::outgoing_index(&c, &room, &vec!["x".to_string()], &TypeId::of::<u8>()).is_none());
}

#[test]
fn erased_constructor() {
    let e = Erased::new(TypeId::of::<u8>(), "u8".to_string());
    assert_eq!(e.type_id, TypeId::of::<u8>());
    assert_eq!(e.name, "u8");
}

#[test]
fn created_instance_is_a_target() {
    let room = Id::hash("Room");
    let instance = Id::new([0x5a; 32]);
    let t = event_target::<()>(&instance_path(&room, &instance)).unwrap();
    assert_eq!((t.contract, t.instance, t.path.len()), (room, instance, 0));
}

#[test]
fn registry_learns_followed_instances() {
    let me = Name::parse("0279be667ef9dcbbac55a06295ce870b07029bfcdb2dce28d959f2815b16f81798").unwrap();
    let other = Name::parse("02c6047f9441ed7d6d3045406e95c07cd85c778e4b8cef3ca7abac09b95c709ee5").unwrap();
    let room = Id::hash("Room");
    let wallet = Id::hash("Wallet");
    let a = Id::new([1; 32]);
    let b = Id::new([2; 32]);
    let mut r = Registry::new(7);
    assert_eq!(r.cursor(), 7);
    assert!(!r.follows(&room));
    assert!(!r.receive_share(&room, a));
    assert!(!r.knows_instance(&room, &a));
    r.follow(room);
    r.follow(room);
    assert!(r.follows(&room));
    assert!(!r.follows(&wallet));
    assert!(r.receive_share(&room, a));
    assert!(r.receive_share(&room, a));
    assert!(r.knows_instance(&room, &a));
    assert!(!r.knows_instance(&wallet, &a));
    assert!(!r.receive_announcement(&room, b, &other, &me));
    assert!(!r.knows_instance(&room, &b));
    assert!(r.receive_announcement(&room, b, &me, &me));
    assert!(r.knows_instance(&room, &b));
    assert!(!r.receive_announcement(&wallet, b, &me, &me));
    r.read_inbox(&vec![3, 12, 9]);
    assert_eq!(r.cursor(), 12);
    r.read_inbox(&vec![1]);
    assert_eq!(r.cursor(), 12);
}

#[test]
fn pending_events_apply_in_time_order() {
    let pending = vec![(20u64, "Goodbye"), (10, "Hello")];
    assert_eq!(in_time_order(pending), vec![(10, "Hello"), (20, "Goodbye")]);
    let twice = vec![(5u64, "first"), (3, "x"), (5, "second")];
    assert_eq!(in_time_order(twice), vec![(3, "x"), (5, "second")]);
    assert!(in_time_order(Vec::<(u64, u8)>::new()).is_empty());
}

#[test]
fn manager_steps() {
    let me = Name::parse("0279be667ef9dcbbac55a06295ce870b07029bfcdb2dce28d959f2815b16f81798").unwrap();
    let other = Name::parse("02c6047f9441ed7d6d3045406e95c07cd85c778e4b8cef3ca7abac09b95c709ee5").unwrap();
    let room = Id::hash("Room");
    let a = Id::new([1; 32]);
    let b = Id::new([2; 32]);
    let contracts = Contracts::new().add(room, TypeId::of::<String>(), routes());
    let mut r = Registry::new(0);
    let mut docs: Documents<u8> = Documents::new();
    let refused = step(&mut r, &mut docs, &contracts, &me, TaskInput::Create { contract: room, instance: a, init: 5 });
    assert!(matches!(refused, TaskAction::Refuse));
    assert!(docs.get(&room, &a).is_none());
    r.follow(room);
    let announce = step(&mut r, &mut docs, &contracts, &me, TaskInput::Create { contract: room, instance: a, init: 5 });
    assert!(matches!(announce, TaskAction::Announce { contract, instance } if contract == room && instance == a));
    assert!(!r.knows_instance(&room, &a));
    assert_eq!(docs.get(&room, &a), Some(&5));
    let share = TaskInput::Share { contract: room, instance: a, with: other.clone() };
    assert!(matches!(step(&mut r, &mut docs, &contracts, &me, share), TaskAction::Refuse));
    let seen = TaskInput::Announced { contract: room, instance: a, signer: me.clone() };
    assert!(matches!(step(&mut r, &mut docs, &contracts, &me, seen), TaskAction::Nothing));
    assert!(r.knows_instance(&room, &a));
    let foreign = TaskInput::Announced { contract: room, instance: b, signer: other.clone() };
    step(&mut r, &mut docs, &contracts, &me, foreign);
    assert!(!r.knows_instance(&room, &b));
    step(&mut r, &mut docs, &contracts, &me, TaskInput::Missive { timestamp: 40, share: Some((room, b)) });
    assert!(r.knows_instance(&room, &b));
    assert_eq!(r.cursor(), 40);
    step(&mut r, &mut docs, &contracts, &me, TaskInput::Missive { timestamp: 30, share: None });
    assert_eq!(r.cursor(), 40);
    let share = TaskInput::Share { contract: room, instance: a, with: other.clone() };
    match step(&mut r, &mut docs, &contracts, &me, share) {
        TaskAction::ShareKey { contract, instance, with } => {
            assert_eq!((contract, instance), (room, a));
            assert_eq!(with, other);
        },
        _ => panic!("the instance is known"),
    }
    let root = vec!["/".to_string()];
    let send = TaskInput::Send { contract: room, instance: a, path: root.clone(), type_id: TypeId::of::<u16>() };
    match step(&mut r, &mut docs, &contracts, &me, send) {
        TaskAction::SendEvent { contract, instance, path, index } => {
            assert_eq!((contract, instance, index), (room, a, 1));
            assert_eq!(path, root);
        },
        _ => panic!("the route takes u16"),
    }
    let unknown_type = TaskInput::Send { contract: room, instance: a, path: root.clone(), type_id: TypeId::of::<u64>() };
    assert!(matches!(step(&mut r, &mut docs, &contracts, &me, unknown_type), TaskAction::Refuse));
    let unknown_instance = TaskInput::Send { contract: room, instance: Id::new([9; 32]), path: root, type_id: TypeId::of::<u8>() };
    assert!(matches!(step(&mut r, &mut docs, &contracts, &me, unknown_instance), TaskAction::Refuse));
}

#[test]
fn missives_move_the_cursor() {
    let room = Id::hash("Room");
    let mut r = Registry::new(10);
    r.read_missive(5, None);
    assert_eq!(r.cursor(), 10);
    r.read_missive(15, Some((room, Id::new([3; 32]))));
    assert_eq!(r.cursor(), 15);
    assert!(!r.knows_instance(&room, &Id::new([3; 32])));
}

#[test]
fn manager_for_registered_contracts() {
    let me = Name::parse("0279be667ef9dcbbac55a06295ce870b07029bfcdb2dce28d959f2815b16f81798").unwrap();
    let room = Id::hash("Room");
    let contracts = Contracts::new().add(room, TypeId::of::<String>(), routes());
    let mut r = Registry::for_contracts(&contracts, 3);
    assert_eq!(r.cursor(), 3);
    assert!(r.follows(&room));
    assert!(!r.follows(&Id::hash("Other")));
    let mut docs: Documents<Vec<String>> = Documents::new();
    let instance = Id::new([4; 32]);
    let create = TaskInput::Create { contract: room, instance, init: vec![] };
    assert!(matches!(step(&mut r, &mut docs, &contracts, &me, create), TaskAction::Announce { .. }));
    assert_eq!(docs.get(&room, &instance), Some(&vec![]));
    let again = TaskInput::Create { contract: room, instance, init: vec!["x".to_string()] };
    step(&mut r, &mut docs, &contracts, &me, again);
    assert_eq!(docs.get(&room, &instance), Some(&vec![]));
}
