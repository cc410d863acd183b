//! The per-connection session actor.
//!
//! A handler owns one client's identity, display name and current room
//! subscription, and turns each decoded client command into registry updates,
//! room publishes and at most one direct reply.  The surrounding event loop
//! feeds it from two sources: the next decoded frame goes to
//! [`Handler::handle_client_msg`], and the subscribed channel is polled with
//! [`Handler::recv_broadcast`], whose result is passed through
//! [`Handler::handle_room_msg`] so the session never echoes its own messages
//! back to its client.

use vstd::prelude::*;

use crate::backend::Backend;
use crate::backend::ChatRoom;
use crate::backend::RoomRecv;
use crate::backend::index_of;
use crate::backend::is_join_notice;
use crate::backend::lemma_index_of;
use crate::backend::lemma_room_appended_extends;
use crate::backend::lemma_room_extended_trans;
use crate::backend::room_appended;
use crate::backend::room_extended;
use crate::communication::ChatMessage;
use crate::communication::ClientMessage;
use crate::communication::JoinChatRoomResponse;
use crate::communication::ListChatRoomsResponse;
use crate::communication::NewMessageRequest;
use crate::communication::ServerMessage;

verus! {

/// The static command summary a session answers a Help request with.  The
/// closed response set has no dedicated shape for it, so it travels as a
/// `NewMessage` sent by "Server".
pub open spec fn help_summary() -> Seq<char> {
    "usage:\n\t/make <room-name>\tcreate a new chatroom\n\t/join <room-name>\tjoins a chatroom\n\t/list\t\t\tlists all chatrooms\n\t/cname <new-username>\tchanges used name\n\t/exit\t\t\texits the application"@
}

/// The courtesy notice a session publishes into the channel it is leaving.
pub open spec fn is_leave_notice(m: ChatMessage, name: Seq<char>, uuid: Seq<char>) -> bool {
    &&& m.content@ == "User "@ + name + " left the chat room"@
    &&& m.sender_name@ == name
    &&& m.sender_uuid@ == uuid
}

/// A payload as a session publishes it: the session's id, its display name as
/// of the send, and the text.
pub open spec fn is_user_message(
    m: ChatMessage,
    uuid: Seq<char>,
    name: Seq<char>,
    content: Seq<char>,
) -> bool {
    &&& m.content@ == content
    &&& m.sender_name@ == name
    &&& m.sender_uuid@ == uuid
}

/// One client's server-side session: identity, display name, and the current
/// subscription.  While unjoined, the session reads and writes a private
/// channel with no other subscriber, so sends are accepted but reach nobody.
pub struct Handler {
    /// The connection id, fixed at accept time.
    uuid: String,
    /// The display name; starts as the anonymous placeholder.
    name: String,
    /// The subscribed room's registry index, or `None` while unjoined.
    current: Option<usize>,
    /// Sequence number of the next message to read from the subscription.
    cursor: u64,
    /// The un-broadcast default channel used while unjoined.
    private_room: ChatRoom,
}

impl Handler {
    /// The connection id this session was created with.
    pub closed spec fn id(&self) -> Seq<char> {
        self.uuid@
    }

    /// The display name future sends will carry.
    pub closed spec fn display_name(&self) -> Seq<char> {
        self.name@
    }

    /// The registry index of the subscribed room, `None` while unjoined.
    pub closed spec fn joined(&self) -> Option<int> {
        match self.current {
            Some(i) => Some(i as int),
            None => None,
        }
    }

    /// Sequence number of the next message this session will read.
    pub closed spec fn cursor(&self) -> int {
        self.cursor as int
    }

    /// The default channel that serves an unjoined session.
    pub closed spec fn private_channel(&self) -> ChatRoom {
        self.private_room
    }

    /// The channel this session currently reads and publishes.
    pub open spec fn subscribed_channel(&self, reg: Backend) -> ChatRoom {
        match self.joined() {
            Some(i) => reg.room(i),
            None => self.private_channel(),
        }
    }

    /// Session invariant against the registry it runs on: the private channel
    /// is well-formed, the subscription index is a live room, and the cursor
    /// never runs ahead of the subscribed channel's log.
    pub open spec fn inv(&self, reg: Backend) -> bool {
        &&& self.private_channel().wf()
        &&& match self.joined() {
            Some(i) => 0 <= i < reg.num_rooms(),
            None => true,
        }
        &&& self.cursor() <= self.subscribed_channel(reg).log_len()
    }

    /// The private channel's log is far enough from the sequence-counter
    /// limit for the at most two publishes a single command can cause.
    pub open spec fn not_saturated(&self) -> bool {
        self.private_channel().log_len() + 2 <= u64::MAX
    }

    /// A fresh session: anonymous name, nothing joined, reading the start of
    /// an empty private channel.
    pub fn new(uuid: String) -> (r: Handler)
        ensures
            r.id() == uuid@,
            r.display_name() == "anonymous"@,
            r.joined() is None,
            r.cursor() == 0,
            r.private_channel().log_len() == 0,
            r.private_channel().wf(),
            r.not_saturated(),
            forall|reg: Backend| r.inv(reg),
    {
        Handler {
            uuid,
            name: String::from_str("anonymous"),
            current: None,
            cursor: 0,
            private_room: ChatRoom::with_capacity(1),
        }
    }

    /// Publish into the channel the session is currently subscribed to.
    fn publish_current(&mut self, backend: &mut Backend, m: ChatMessage)
        requires
            old(backend).inv(),
            old(self).inv(*old(backend)),
            old(self).subscribed_channel(*old(backend)).log_len() < u64::MAX,
        ensures
            final(backend).inv(),
            final(self).inv(*final(backend)),
            final(self).id() == old(self).id(),
            final(self).display_name() == old(self).display_name(),
            final(self).joined() == old(self).joined(),
            final(self).cursor() == old(self).cursor(),
            final(backend).names() == old(backend).names(),
            final(backend).num_rooms() == old(backend).num_rooms(),
            room_appended(
                old(self).subscribed_channel(*old(backend)),
                final(self).subscribed_channel(*final(backend)),
                m,
            ),
            final(self).subscribed_channel(*final(backend)).log_len() == old(self).subscribed_channel(*old(backend)).log_len() + 1,
            final(self).subscribed_channel(*final(backend)).message_at(
                old(self).subscribed_channel(*old(backend)).log_len(),
            ) == m,
            match old(self).joined() {
                Some(i) => final(self).private_channel() == old(self).private_channel()
                    && forall|r: int|
                    0 <= r < old(backend).num_rooms() && r != i ==> final(backend).room(r) == old(backend).room(r),
                None => *final(backend) == *old(backend),
            },
    {
        match self.current {
            Some(i) => backend.publish(i, m),
            None => self.private_room.publish(m),
        }
    }

    /// Act on one decoded client command: update the registry and the
    /// session, publish what the command requires, and return the reply owed
    /// to this client, if any.  Domain errors come back as `Error` replies
    /// and change nothing.
    pub fn handle_client_msg(&mut self, backend: &mut Backend, msg: ClientMessage) -> (reply:
        Option<ServerMessage>)
        requires
            old(backend).inv(),
            old(backend).not_saturated(),
            old(self).inv(*old(backend)),
            old(self).not_saturated(),
        ensures
            final(backend).inv(),
            final(self).inv(*final(backend)),
            final(self).id() == old(self).id(),
            final(backend).num_rooms() >= old(backend).num_rooms(),
            // Create a room: the name is inserted exactly when it is free;
            // the only reply is the error for a taken name.
            msg matches ClientMessage::MakeChatRoom(req) ==> {
                &&& final(backend).names() == crate::backend::create_names(
                    old(backend).names(),
                    req.name@,
                )
                &&& *final(self) == *old(self)
                &&& if old(backend).has_room(req.name@) {
                    &&& *final(backend) == *old(backend)
                    &&& reply matches Some(ServerMessage::Error(e)) && e@ == "Room already exists"@
                } else {
                    &&& reply is None
                    &&& final(backend).num_rooms() == old(backend).num_rooms() + 1
                    &&& forall|j: int|
                        0 <= j < old(backend).num_rooms() ==> final(backend).room(j) == old(backend).room(j)
                    &&& final(backend).room(old(backend).num_rooms()).log_len() == 0
                }
            },
            // List rooms: a snapshot of every name, each exactly once, and no
            // other effect.
            msg matches ClientMessage::ListChatRooms() ==> {
                &&& *final(backend) == *old(backend)
                &&& *final(self) == *old(self)
                &&& reply matches Some(ServerMessage::ListChatRooms(resp)) && {
                    &&& resp.names@.len() == old(backend).names().len()
                    &&& forall|i: int|
                        0 <= i < resp.names@.len() ==> resp.names@[i]@ == old(backend).names()[i]
                    &&& forall|i: int, j: int|
                        0 <= i < j < resp.names@.len() ==> resp.names@[i]@ != resp.names@[j]@
                }
            },
            // Join: on an unknown name, an error reply and no change at all.
            msg matches ClientMessage::JoinChatRoom(req) ==> !old(backend).has_room(req.name@)
                ==> {
                &&& *final(backend) == *old(backend)
                &&& *final(self) == *old(self)
                &&& reply matches Some(ServerMessage::Error(e)) && e@ == "Could not find room"@
            },
            // Join: on a known name, the session switches there; the room
            // gets the join notice, which the already-subscribed members will
            // read but the new cursor sits just past; the channel being left
            // gets the courtesy leave notice.
            msg matches ClientMessage::JoinChatRoom(req) ==> old(backend).has_room(req.name@)
                ==> {
                let j = index_of(old(backend).names(), req.name@);
                let jn = final(backend).room(j).message_at(old(backend).room(j).log_len());
                &&& reply matches Some(ServerMessage::JoinedChatRoom(resp)) && resp.name@
                    == req.name@
                &&& final(backend).names() == old(backend).names()
                &&& final(self).display_name() == old(self).display_name()
                &&& final(self).joined() == Some(j)
                &&& final(self).cursor() == old(backend).room(j).log_len() + 1
                &&& is_join_notice(jn, old(self).display_name())
                &&& match old(self).joined() {
                    None => {
                        let ln = final(self).private_channel().message_at(
                            old(self).private_channel().log_len(),
                        );
                        &&& room_extended(old(backend).room(j), final(backend).room(j), seq![jn])
                        &&& room_extended(
                            old(self).private_channel(),
                            final(self).private_channel(),
                            seq![ln],
                        )
                        &&& is_leave_notice(ln, old(self).display_name(), old(self).id())
                        &&& forall|r: int|
                            0 <= r < old(backend).num_rooms() && r != j ==> final(backend).room(r)
                                == old(backend).room(r)
                    },
                    Some(i) => {
                        &&& final(self).private_channel() == old(self).private_channel()
                        &&& if i == j {
                            let ln = final(backend).room(j).message_at(
                                old(backend).room(j).log_len() + 1,
                            );
                            &&& room_extended(
                                old(backend).room(j),
                                final(backend).room(j),
                                seq![jn, ln],
                            )
                            &&& is_leave_notice(ln, old(self).display_name(), old(self).id())
                            &&& forall|r: int|
                                0 <= r < old(backend).num_rooms() && r != j ==> final(backend).room(r) == old(backend).room(r)
                        } else {
                            let ln = final(backend).room(i).message_at(
                                old(backend).room(i).log_len(),
                            );
                            &&& room_extended(
                                old(backend).room(j),
                                final(backend).room(j),
                                seq![jn],
                            )
                            &&& room_extended(
                                old(backend).room(i),
                                final(backend).room(i),
                                seq![ln],
                            )
                            &&& is_leave_notice(ln, old(self).display_name(), old(self).id())
                            &&& forall|r: int|
                                0 <= r < old(backend).num_rooms() && r != j && r != i ==> final(backend).room(r) == old(backend).room(r)
                        }
                    },
                }
            },
            // Send: the text goes to the subscribed channel under the
            // session's id and current display name; no reply.
            msg matches ClientMessage::SendMessage(req) ==> {
                &&& reply is None
                &&& final(self).joined() == old(self).joined()
                &&& final(self).cursor() == old(self).cursor()
                &&& final(self).display_name() == old(self).display_name()
                &&& final(backend).names() == old(backend).names()
                &&& room_appended(
                    old(self).subscribed_channel(*old(backend)),
                    final(self).subscribed_channel(*final(backend)),
                    final(self).subscribed_channel(*final(backend)).message_at(
                        old(self).subscribed_channel(*old(backend)).log_len(),
                    ),
                )
                &&& is_user_message(
                    final(self).subscribed_channel(*final(backend)).message_at(
                        old(self).subscribed_channel(*old(backend)).log_len(),
                    ),
                    old(self).id(),
                    old(self).display_name(),
                    req.content@,
                )
                &&& match old(self).joined() {
                    Some(i) => final(self).private_channel() == old(self).private_channel()
                        && forall|r: int|
                        0 <= r < old(backend).num_rooms() && r != i ==> final(backend).room(r)
                            == old(backend).room(r),
                    None => *final(backend) == *old(backend),
                }
            },
            // Rename: only the display name changes; future sends use it.
            msg matches ClientMessage::ChangeName(req) ==> {
                &&& reply is None
                &&& *final(backend) == *old(backend)
                &&& final(self).display_name() == req.new_name@
                &&& final(self).joined() == old(self).joined()
                &&& final(self).cursor() == old(self).cursor()
                &&& final(self).private_channel() == old(self).private_channel()
            },
            // Help: the static command summary, and no other effect.
            msg matches ClientMessage::Help() ==> {
                &&& *final(backend) == *old(backend)
                &&& *final(self) == *old(self)
                &&& reply matches Some(ServerMessage::NewMessage(nm)) && nm.content@
                    == help_summary() && nm.user_name@ == "Server"@
            },
            // However the command went, no room's log grew by more than the
            // two notices a join can cause, a created room starts empty, and
            // the private channel took at most one message: a caller chaining
            // commands can bound every log without a case analysis.
            final(backend).num_rooms() <= old(backend).num_rooms() + 1,
            forall|r: int|
                0 <= r < old(backend).num_rooms() ==> (#[trigger] final(backend).room(
                    r,
                )).log_len() <= old(backend).room(r).log_len() + 2,
            forall|r: int|
                old(backend).num_rooms() <= r < final(backend).num_rooms() ==> (
                #[trigger] final(backend).room(r)).log_len() == 0,
            final(self).private_channel().log_len() <= old(self).private_channel().log_len() + 1,
    {
        match msg {
            ClientMessage::MakeChatRoom(req) => {
                match backend.new_room(req.name) {
                    Err(e) => Some(ServerMessage::Error(e.message())),
                    Ok(()) => None,
                }
            },
            ClientMessage::ListChatRooms() => {
                let rooms = backend.list();
                Some(ServerMessage::ListChatRooms(ListChatRoomsResponse::new(rooms)))
            },
            ClientMessage::JoinChatRoom(req) => {
                let name = req.name;
                match backend.get_room(name.clone()) {
                    Err(e) => Some(ServerMessage::Error(e.message())),
                    Ok(j) => {
                        proof {
                            lemma_index_of(backend.names(), name@, j as int);
                        }
                        let ghost b0 = *backend;
                        let ghost s0 = *self;
                        let new_cursor = backend.subscribe(j, self.name.as_str());
                        proof {
                            lemma_room_appended_extends(
                                b0.room(j as int),
                                backend.room(j as int),
                                backend.room(j as int).message_at(b0.room(j as int).log_len()),
                            );
                        }
                        let ghost b1 = *backend;
                        let leave = ChatMessage {
                            content: String::from_str("User ").concat(self.name.as_str()).concat(
                                " left the chat room",
                            ),
                            sender_name: self.name.clone(),
                            sender_uuid: self.uuid.clone(),
                        };
                        self.publish_current(backend, leave);
                        proof {
                            match s0.joined() {
                                Some(i) => {
                                    lemma_room_appended_extends(
                                        b1.room(i),
                                        backend.room(i),
                                        backend.room(i).message_at(b1.room(i).log_len()),
                                    );
                                    if i == j as int {
                                        lemma_room_extended_trans(
                                            b0.room(i),
                                            b1.room(i),
                                            backend.room(i),
                                            seq![b1.room(i).message_at(b0.room(i).log_len())],
                                            seq![backend.room(i).message_at(b1.room(i).log_len())],
                                        );
                                    }
                                },
                                None => {
                                    lemma_room_appended_extends(
                                        s0.private_channel(),
                                        self.private_channel(),
                                        self.private_channel().message_at(
                                            s0.private_channel().log_len(),
                                        ),
                                    );
                                },
                            }
                        }
                        self.current = Some(j);
                        self.cursor = new_cursor;
                        Some(ServerMessage::JoinedChatRoom(JoinChatRoomResponse::new(name)))
                    },
                }
            },
            ClientMessage::SendMessage(req) => {
                let m = ChatMessage {
                    content: req.content,
                    sender_name: self.name.clone(),
                    sender_uuid: self.uuid.clone(),
                };
                self.publish_current(backend, m);
                None
            },
            ClientMessage::ChangeName(req) => {
                self.name = req.new_name;
                None
            },
            ClientMessage::Help() => {
                Some(
                    ServerMessage::NewMessage(
                        NewMessageRequest::new(
                            String::from_str(
                                "usage:\n\t/make <room-name>\tcreate a new chatroom\n\t/join <room-name>\tjoins a chatroom\n\t/list\t\t\tlists all chatrooms\n\t/cname <new-username>\tchanges used name\n\t/exit\t\t\texits the application",
                            ),
                            String::from_str("Server"),
                        ),
                    ),
                )
            },
        }
    }

    /// Forward one received broadcast to the client, unless this session sent
    /// it: a session never receives its own message back.
    pub fn handle_room_msg(&self, msg: ChatMessage) -> (r: Option<ServerMessage>)
        ensures
            msg.sender_uuid@ == self.id() ==> r is None,
            msg.sender_uuid@ != self.id() ==> (r matches Some(ServerMessage::NewMessage(nm))
                && nm.content == msg.content && nm.user_name == msg.sender_name),
    {
        if msg.sender_uuid == self.uuid {
            None
        } else {
            Some(ServerMessage::NewMessage(NewMessageRequest::new(msg.content, msg.sender_name)))
        }
    }

    /// Poll the subscribed channel once, advancing the cursor: to just past a
    /// delivered message, or to the oldest retained message after a gap.
    /// Never waits, whatever the publishers do.
    pub fn recv_broadcast(&mut self, backend: &Backend) -> (r: RoomRecv)
        requires
            backend.inv(),
            old(self).inv(*backend),
        ensures
            final(self).inv(*backend),
            final(self).id() == old(self).id(),
            final(self).display_name() == old(self).display_name(),
            final(self).joined() == old(self).joined(),
            final(self).private_channel() == old(self).private_channel(),
            r == old(self).subscribed_channel(*backend).recv_spec(old(self).cursor() as u64),
            match r {
                RoomRecv::Empty => final(self).cursor() == old(self).cursor(),
                RoomRecv::Lagged { missed, resume_at } => final(self).cursor() == resume_at,
                RoomRecv::Message { msg, next } => final(self).cursor() == next,
            },
    {
        let r = match self.current {
            Some(i) => backend.recv_from(i, self.cursor),
            None => self.private_room.recv_from(self.cursor),
        };
        match &r {
            RoomRecv::Empty => {},
            RoomRecv::Lagged { missed, resume_at } => {
                self.cursor = *resume_at;
            },
            RoomRecv::Message { msg, next } => {
                self.cursor = *next;
            },
        }
        r
    }
}

} // verus!
