use chat_server::backend::Backend;
use chat_server::backend::RegistryError;
use chat_server::backend::RoomRecv;

#[test]
fn create_then_get() {
    let mut backend = Backend::new();
    assert!(backend.new_room("general".to_string()).is_ok());
    assert!(backend.get_room("general".to_string()).is_ok());
}

#[test]
fn create_same_name_twice_fails_and_keeps_one() {
    let mut backend = Backend::new();
    assert!(backend.new_room("general".to_string()).is_ok());
    let second = backend.new_room("general".to_string());
    assert_eq!(second, Err(RegistryError::RoomAlreadyExists));
    let names = backend.list();
    assert_eq!(
        names.iter().filter(|n| n.as_str() == "general").count(),
        1
    );
    assert_eq!(names.len(), 1);
}

#[test]
fn get_of_never_created_room_fails() {
    let mut backend = Backend::new();
    assert_eq!(
        backend.get_room("nowhere".to_string()),
        Err(RegistryError::RoomNotFound)
    );
    assert!(backend.new_room("somewhere".to_string()).is_ok());
    assert_eq!(
        backend.get_room("nowhere".to_string()),
        Err(RegistryError::RoomNotFound)
    );
}

#[test]
fn error_messages() {
    assert_eq!(RegistryError::RoomAlreadyExists.message(), "Room already exists");
    assert_eq!(RegistryError::RoomNotFound.message(), "Could not find room");
}

#[test]
fn list_has_each_created_name_exactly_once() {
    let mut backend = Backend::new();
    assert!(backend.new_room("a".to_string()).is_ok());
    assert!(backend.new_room("b".to_string()).is_ok());
    assert!(backend.new_room("c".to_string()).is_ok());
    let mut names = backend.list();
    names.sort();
    assert_eq!(names, vec!["a".to_string(), "b".to_string(), "c".to_string()]);

    let mut other_order = Backend::new();
    assert!(other_order.new_room("c".to_string()).is_ok());
    assert!(other_order.new_room("a".to_string()).is_ok());
    assert!(other_order.new_room("b".to_string()).is_ok());
    let mut names2 = other_order.list();
    names2.sort();
    assert_eq!(names, names2);
}

#[test]
fn list_of_empty_registry_is_empty() {
    let backend = Backend::new();
    assert!(backend.list().is_empty());
}

#[test]
fn subscribe_emits_join_notice_to_existing_members_only() {
    let mut backend = Backend::new();
    assert!(backend.new_room("general".to_string()).is_ok());
    let room = backend.get_room("general".to_string()).unwrap();
    let alice = backend.subscribe(room, "alice");
    let bob = backend.subscribe(room, "bob");
    // alice was already subscribed, so she sees bob's join notice
    match backend.recv_from(room, alice) {
        RoomRecv::Message { msg, next } => {
            assert_eq!(msg.content, "User bob joined");
            assert_eq!(msg.sender_name, "Room");
            assert_eq!(msg.sender_uuid, "");
            assert_eq!(next, bob);
        }
        _ => panic!("alice should see bob's join notice"),
    }
    // bob's own cursor starts past his notice: nothing to read
    assert!(matches!(backend.recv_from(room, bob), RoomRecv::Empty));
}
