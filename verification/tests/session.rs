use chat_server::backend::Backend;
use chat_server::backend::ChatRoom;
use chat_server::backend::RoomRecv;
use chat_server::communication::ChatMessage;
use chat_server::communication::ClientMakeChatRoomRequest;
use chat_server::communication::ClientMessage;
use chat_server::communication::JoinChatRoomRequest;
use chat_server::communication::SendMessageRequest;
use chat_server::communication::ChangeNameRequest;
use chat_server::communication::ServerMessage;
use chat_server::handler::Handler;

fn make(name: &str) -> ClientMessage {
    ClientMessage::MakeChatRoom(ClientMakeChatRoomRequest::new(name.to_string()))
}

fn join(name: &str) -> ClientMessage {
    ClientMessage::JoinChatRoom(JoinChatRoomRequest::new(name.to_string()))
}

fn send(text: &str) -> ClientMessage {
    ClientMessage::SendMessage(SendMessageRequest::new(text.to_string()))
}

fn rename(name: &str) -> ClientMessage {
    ClientMessage::ChangeName(ChangeNameRequest::new(name.to_string()))
}

/// Read the next broadcast the session would forward to its client, skipping
/// what it suppresses (its own messages) and gaps.
fn next_forwarded(session: &mut Handler, backend: &Backend) -> Option<ServerMessage> {
    loop {
        match session.recv_broadcast(backend) {
            RoomRecv::Empty => return None,
            RoomRecv::Lagged { .. } => continue,
            RoomRecv::Message { msg, .. } => match session.handle_room_msg(msg) {
                Some(reply) => return Some(reply),
                None => continue,
            },
        }
    }
}

#[test]
fn message_reaches_other_member_not_sender() {
    let mut backend = Backend::new();
    let mut s1 = Handler::new("id-1".to_string());
    let mut s2 = Handler::new("id-2".to_string());

    assert!(s1.handle_client_msg(&mut backend, make("general")).is_none());
    let r1 = s1.handle_client_msg(&mut backend, join("general"));
    assert!(matches!(r1, Some(ServerMessage::JoinedChatRoom(ref j)) if j.name == "general"));
    let r2 = s2.handle_client_msg(&mut backend, join("general"));
    assert!(matches!(r2, Some(ServerMessage::JoinedChatRoom(_))));

    assert!(s1.handle_client_msg(&mut backend, send("hi")).is_none());

    // s2 receives s1's message with s1's current name
    match next_forwarded(&mut s2, &backend) {
        Some(ServerMessage::NewMessage(nm)) => {
            assert_eq!(nm.content, "hi");
            assert_eq!(nm.user_name, "anonymous");
        }
        other => panic!("s2 should receive the message, got {:?}", other),
    }

    // s1 sees s2's join notice (from the room) but never its own message back
    match next_forwarded(&mut s1, &backend) {
        Some(ServerMessage::NewMessage(nm)) => {
            assert_eq!(nm.user_name, "Room");
            assert_eq!(nm.content, "User anonymous joined");
        }
        other => panic!("s1 should see s2's join notice, got {:?}", other),
    }
    assert!(next_forwarded(&mut s1, &backend).is_none());
}

#[test]
fn renaming_applies_to_later_sends_only() {
    let mut backend = Backend::new();
    let mut s1 = Handler::new("id-1".to_string());
    let mut s2 = Handler::new("id-2".to_string());

    assert!(s1.handle_client_msg(&mut backend, make("general")).is_none());
    s1.handle_client_msg(&mut backend, join("general"));
    s2.handle_client_msg(&mut backend, join("general"));

    assert!(s1.handle_client_msg(&mut backend, rename("anon")).is_none());
    assert!(s1.handle_client_msg(&mut backend, send("first")).is_none());

    // s2 consumes the first message before the rename
    match next_forwarded(&mut s2, &backend) {
        Some(ServerMessage::NewMessage(nm)) => {
            assert_eq!(nm.content, "first");
            assert_eq!(nm.user_name, "anon");
        }
        other => panic!("expected the first message, got {:?}", other),
    }

    assert!(s1.handle_client_msg(&mut backend, rename("bob")).is_none());
    assert!(s1.handle_client_msg(&mut backend, send("yo")).is_none());

    match next_forwarded(&mut s2, &backend) {
        Some(ServerMessage::NewMessage(nm)) => {
            assert_eq!(nm.content, "yo");
            assert_eq!(nm.user_name, "bob");
        }
        other => panic!("expected the renamed message, got {:?}", other),
    }
}

#[test]
fn switching_rooms_switches_delivery() {
    let mut backend = Backend::new();
    let mut s1 = Handler::new("id-1".to_string());
    let mut s2 = Handler::new("id-2".to_string());
    let mut s3 = Handler::new("id-3".to_string());

    s1.handle_client_msg(&mut backend, make("general"));
    s1.handle_client_msg(&mut backend, make("random"));
    s2.handle_client_msg(&mut backend, join("general"));
    s3.handle_client_msg(&mut backend, join("random"));

    s1.handle_client_msg(&mut backend, join("general"));
    s1.handle_client_msg(&mut backend, join("random"));
    // drain whatever s1 saw while still in "general"
    while next_forwarded(&mut s1, &backend).is_some() {}

    // a message sent in "general" after the switch is not delivered to s1
    s2.handle_client_msg(&mut backend, send("in-general"));
    assert!(next_forwarded(&mut s1, &backend).is_none());

    // a message sent in "random" is
    s3.handle_client_msg(&mut backend, send("in-random"));
    match next_forwarded(&mut s1, &backend) {
        Some(ServerMessage::NewMessage(nm)) => {
            assert_eq!(nm.content, "in-random");
        }
        other => panic!("expected the random-room message, got {:?}", other),
    }
}

#[test]
fn joining_a_missing_room_keeps_the_session_where_it_was() {
    let mut backend = Backend::new();
    let mut s1 = Handler::new("id-1".to_string());
    let mut s2 = Handler::new("id-2".to_string());

    s1.handle_client_msg(&mut backend, make("general"));
    s1.handle_client_msg(&mut backend, join("general"));
    s2.handle_client_msg(&mut backend, join("general"));

    let r = s1.handle_client_msg(&mut backend, join("missing"));
    assert!(matches!(r, Some(ServerMessage::Error(ref e)) if e == "Could not find room"));

    // s1 still receives messages published in "general"
    while next_forwarded(&mut s1, &backend).is_some() {}
    s2.handle_client_msg(&mut backend, send("still here"));
    match next_forwarded(&mut s1, &backend) {
        Some(ServerMessage::NewMessage(nm)) => assert_eq!(nm.content, "still here"),
        other => panic!("expected delivery in the old room, got {:?}", other),
    }
}

#[test]
fn making_a_taken_room_name_reports_the_error() {
    let mut backend = Backend::new();
    let mut s1 = Handler::new("id-1".to_string());
    assert!(s1.handle_client_msg(&mut backend, make("general")).is_none());
    let r = s1.handle_client_msg(&mut backend, make("general"));
    assert!(matches!(r, Some(ServerMessage::Error(ref e)) if e == "Room already exists"));
}

#[test]
fn list_reply_carries_all_names() {
    let mut backend = Backend::new();
    let mut s1 = Handler::new("id-1".to_string());
    s1.handle_client_msg(&mut backend, make("a"));
    s1.handle_client_msg(&mut backend, make("b"));
    match s1.handle_client_msg(&mut backend, ClientMessage::ListChatRooms()) {
        Some(ServerMessage::ListChatRooms(resp)) => {
            let mut names = resp.names;
            names.sort();
            assert_eq!(names, vec!["a".to_string(), "b".to_string()]);
        }
        other => panic!("expected the room list, got {:?}", other),
    }
}

#[test]
fn unjoined_sends_are_accepted_and_reach_nobody() {
    let mut backend = Backend::new();
    let mut s1 = Handler::new("id-1".to_string());
    let mut s2 = Handler::new("id-2".to_string());
    s1.handle_client_msg(&mut backend, make("general"));
    s2.handle_client_msg(&mut backend, join("general"));

    // s1 never joined: the send succeeds but nobody receives anything,
    // not even s1 itself (its own messages are suppressed).
    assert!(s1.handle_client_msg(&mut backend, send("into the void")).is_none());
    assert!(next_forwarded(&mut s1, &backend).is_none());
    assert!(next_forwarded(&mut s2, &backend).is_none());
}

#[test]
fn leaving_publishes_a_courtesy_notice_to_the_old_room() {
    let mut backend = Backend::new();
    let mut s1 = Handler::new("id-1".to_string());
    let mut s2 = Handler::new("id-2".to_string());
    s1.handle_client_msg(&mut backend, make("general"));
    s1.handle_client_msg(&mut backend, make("random"));
    s1.handle_client_msg(&mut backend, rename("bob"));
    s1.handle_client_msg(&mut backend, join("general"));
    s2.handle_client_msg(&mut backend, join("general"));
    while next_forwarded(&mut s2, &backend).is_some() {}

    s1.handle_client_msg(&mut backend, join("random"));
    match next_forwarded(&mut s2, &backend) {
        Some(ServerMessage::NewMessage(nm)) => {
            assert_eq!(nm.content, "User bob left the chat room");
            assert_eq!(nm.user_name, "bob");
        }
        other => panic!("expected the leave notice, got {:?}", other),
    }
}

#[test]
fn rejoining_the_same_room_notifies_the_others_twice() {
    let mut backend = Backend::new();
    let mut s1 = Handler::new("id-1".to_string());
    let mut s2 = Handler::new("id-2".to_string());
    s1.handle_client_msg(&mut backend, make("general"));
    s1.handle_client_msg(&mut backend, rename("bob"));
    s1.handle_client_msg(&mut backend, join("general"));
    s2.handle_client_msg(&mut backend, join("general"));
    while next_forwarded(&mut s1, &backend).is_some() {}

    s1.handle_client_msg(&mut backend, join("general"));

    // the other member sees bob's fresh join notice, then the courtesy
    // leave notice for the channel bob was on before
    match next_forwarded(&mut s2, &backend) {
        Some(ServerMessage::NewMessage(nm)) => {
            assert_eq!(nm.content, "User bob joined");
            assert_eq!(nm.user_name, "Room");
        }
        other => panic!("expected the join notice, got {:?}", other),
    }
    match next_forwarded(&mut s2, &backend) {
        Some(ServerMessage::NewMessage(nm)) => {
            assert_eq!(nm.content, "User bob left the chat room");
            assert_eq!(nm.user_name, "bob");
        }
        other => panic!("expected the leave notice, got {:?}", other),
    }

    // bob's new cursor sits between the two notices: his own leave notice
    // is next but suppressed, his join notice is behind him
    assert!(next_forwarded(&mut s1, &backend).is_none());
}

#[test]
fn polling_with_nothing_new_is_empty() {
    let mut backend = Backend::new();
    let mut s1 = Handler::new("id-1".to_string());
    assert!(matches!(s1.recv_broadcast(&backend), RoomRecv::Empty));
    s1.handle_client_msg(&mut backend, make("general"));
    s1.handle_client_msg(&mut backend, join("general"));
    assert!(matches!(s1.recv_broadcast(&backend), RoomRecv::Empty));
}

#[test]
fn help_replies_with_the_command_summary_and_changes_nothing() {
    let mut backend = Backend::new();
    let mut s1 = Handler::new("id-1".to_string());
    match s1.handle_client_msg(&mut backend, ClientMessage::Help()) {
        Some(ServerMessage::NewMessage(nm)) => {
            assert!(nm.content.starts_with("usage:"));
            assert!(nm.content.contains("/make <room-name>"));
            assert!(nm.content.contains("/exit"));
            assert_eq!(nm.user_name, "Server");
        }
        other => panic!("expected the command summary, got {:?}", other),
    }
    assert!(backend.list().is_empty());
}

#[test]
fn own_message_is_suppressed_and_foreign_forwarded() {
    let s1 = Handler::new("id-1".to_string());
    let own = ChatMessage {
        content: "mine".to_string(),
        sender_name: "me".to_string(),
        sender_uuid: "id-1".to_string(),
    };
    assert!(s1.handle_room_msg(own).is_none());
    let foreign = ChatMessage {
        content: "yours".to_string(),
        sender_name: "you".to_string(),
        sender_uuid: "id-2".to_string(),
    };
    match s1.handle_room_msg(foreign) {
        Some(ServerMessage::NewMessage(nm)) => {
            assert_eq!(nm.content, "yours");
            assert_eq!(nm.user_name, "you");
        }
        other => panic!("expected a forwarded message, got {:?}", other),
    }
}

#[test]
fn slow_reader_observes_a_gap_and_publish_never_blocks() {
    let mut room = ChatRoom::new();
    let cursor = room.subscribe("slow");
    for k in 0..15u32 {
        // publish is a plain total call: it returns every time, however far
        // behind the reader is
        room.publish(ChatMessage {
            content: format!("m{}", k),
            sender_name: "s".to_string(),
            sender_uuid: "x".to_string(),
        });
    }
    match room.recv_from(cursor) {
        RoomRecv::Lagged { missed, resume_at } => {
            assert_eq!(missed, 5);
            assert_eq!(resume_at, 6);
            // reading resumes at the oldest retained message
            match room.recv_from(resume_at) {
                RoomRecv::Message { msg, .. } => assert_eq!(msg.content, "m5"),
                other => panic!("expected a message after the gap, got {:?}", other),
            }
        }
        other => panic!("expected a gap, got {:?}", other),
    }
}

#[test]
fn reader_exactly_at_capacity_sees_everything() {
    let mut room = ChatRoom::new();
    let cursor = room.subscribe("edge");
    for k in 0..10u32 {
        room.publish(ChatMessage {
            content: format!("m{}", k),
            sender_name: "s".to_string(),
            sender_uuid: "x".to_string(),
        });
    }
    let mut at = cursor;
    let mut seen = Vec::new();
    loop {
        match room.recv_from(at) {
            RoomRecv::Message { msg, next } => {
                seen.push(msg.content);
                at = next;
            }
            RoomRecv::Empty => break,
            RoomRecv::Lagged { .. } => panic!("no gap expected at exactly the buffer depth"),
        }
    }
    assert_eq!(seen.len(), 10);
    assert_eq!(seen[0], "m0");
    assert_eq!(seen[9], "m9");
}
