//! Wire protocol shapes: the tagged unions exchanged between client and
//! server, and the payload that travels through a room's broadcast channel.

use vstd::prelude::*;

verus! {

/// One payload travelling through a room: the text, the sender's display name
/// as it was at send time, and the sender's connection id.  A later name
/// change never relabels a message that already carries the old name.
#[derive(Debug)]
pub struct ChatMessage {
    pub content: String,
    pub sender_name: String,
    pub sender_uuid: String,
}

impl Clone for ChatMessage {
    fn clone(&self) -> (r: Self)
        ensures
            r == *self,
    {
        ChatMessage {
            content: self.content.clone(),
            sender_name: self.sender_name.clone(),
            sender_uuid: self.sender_uuid.clone(),
        }
    }
}

/// Client request: broadcast `content` into the sender's current room.
#[derive(Debug)]
pub struct SendMessageRequest {
    pub content: String,
}

impl SendMessageRequest {
    pub fn new(content: String) -> (r: Self)
        ensures
            r.content == content,
    {
        Self { content }
    }
}

/// Client request: create a room with the given name.
#[derive(Debug)]
pub struct ClientMakeChatRoomRequest {
    pub name: String,
}

impl ClientMakeChatRoomRequest {
    pub fn new(name: String) -> (r: Self)
        ensures
            r.name == name,
    {
        Self { name }
    }
}

/// Client request: subscribe to the room with the given name.
#[derive(Debug)]
pub struct JoinChatRoomRequest {
    pub name: String,
}

impl JoinChatRoomRequest {
    pub fn new(name: String) -> (r: Self)
        ensures
            r.name == name,
    {
        JoinChatRoomRequest { name }
    }
}

/// Client request: use `new_name` as the display name from now on.
#[derive(Debug)]
pub struct ChangeNameRequest {
    pub new_name: String,
}

impl ChangeNameRequest {
    pub fn new(new_name: String) -> (r: Self)
        ensures
            r.new_name == new_name,
    {
        Self { new_name }
    }
}

/// Everything a client may ask of the server over the wire.
#[derive(Debug)]
pub enum ClientMessage {
    SendMessage(SendMessageRequest),
    MakeChatRoom(ClientMakeChatRoomRequest),
    JoinChatRoom(JoinChatRoomRequest),
    ChangeName(ChangeNameRequest),
    ListChatRooms(),
    Help(),
}

/// Server reply: a room broadcast forwarded to this client.
#[derive(Debug)]
pub struct NewMessageRequest {
    pub content: String,
    pub user_name: String,
}

impl NewMessageRequest {
    pub fn new(content: String, user_name: String) -> (r: Self)
        ensures
            r.content == content,
            r.user_name == user_name,
    {
        Self { content, user_name }
    }
}

/// Server reply: the join request succeeded for the named room.
#[derive(Debug)]
pub struct JoinChatRoomResponse {
    pub name: String,
}

impl JoinChatRoomResponse {
    pub fn new(name: String) -> (r: Self)
        ensures
            r.name == name,
    {
        Self { name }
    }
}

/// Server reply: the names of all rooms known to the registry.
#[derive(Debug)]
pub struct ListChatRoomsResponse {
    pub names: Vec<String>,
}

impl ListChatRoomsResponse {
    pub fn new(names: Vec<String>) -> (r: Self)
        ensures
            r.names == names,
    {
        Self { names }
    }
}

/// Everything the server may send back to a client.
#[derive(Debug)]
pub enum ServerMessage {
    NewMessage(NewMessageRequest),
    JoinedChatRoom(JoinChatRoomResponse),
    ListChatRooms(ListChatRoomsResponse),
    Error(String),
}

/// Request shape kept for the handler-to-handler channel.
#[derive(Debug)]
pub struct HandlerMakeChatRoomRequest {
    pub name: String,
}

/// Messages exchanged between handlers.
#[derive(Debug)]
pub enum HandlerMessage {
    MakeChatRoom(HandlerMakeChatRoomRequest),
}

} // verus!
