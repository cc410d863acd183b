//! The room engine: a bounded, lossy broadcast log per room, and the
//! name-keyed registry that owns all rooms.
//!
//! A room is modelled as a log of published messages.  Every message gets a
//! sequence number; only the most recent `cap()` messages are retained, so a
//! reader that falls behind by more than the room's capacity observes a gap
//! instead of blocking the publisher.  Readers hold a cursor (the sequence
//! number of the next message they want) and poll with [`ChatRoom::recv_from`].

use vstd::prelude::*;

use crate::communication::ChatMessage;

verus! {

/// Subscriber buffer depth of a room created by the registry: a reader more
/// than this many messages behind loses the oldest unread ones.
pub const ROOM_BUFFER_CAPACITY: usize = 10;

/// Outcome of polling a room's broadcast log at a given cursor.
#[derive(Debug)]
pub enum RoomRecv {
    /// Nothing has been published at or past the cursor yet.
    Empty,
    /// The reader fell behind and `missed` messages were dropped; reading
    /// resumes at the oldest retained message, `resume_at`.
    Lagged { missed: u64, resume_at: u64 },
    /// The message the cursor points at, and the cursor for the next poll.
    Message { msg: ChatMessage, next: u64 },
}

/// One room: a broadcast log bounded to the most recent `cap()` messages.
pub struct ChatRoom {
    /// Sequence number of the oldest retained message.
    base: u64,
    /// Retained messages, oldest first; never more than `capacity`.
    items: Vec<ChatMessage>,
    /// How many messages are retained for slow readers.
    capacity: usize,
}

/// `post` is `pre` with `m` published: the log grew by `m`, and the oldest
/// retained message fell out if the buffer was already full.
pub open spec fn room_appended(pre: ChatRoom, post: ChatRoom, m: ChatMessage) -> bool {
    &&& post.cap() == pre.cap()
    &&& post.first_retained() == if pre.retained().len() == pre.cap() {
        pre.first_retained() + 1
    } else {
        pre.first_retained()
    }
    &&& post.retained() == if pre.retained().len() == pre.cap() {
        pre.retained().drop_first().push(m)
    } else {
        pre.retained().push(m)
    }
}

/// `post` is `pre` after the messages of `msgs` were published in order.
/// Retention follows: the oldest retained message is the later of what it was
/// and what the capacity allows; everything still retained is unchanged, and
/// each new message sits at the sequence number it was published with.  The
/// last clause pins every new message, so it describes batches of at most
/// `cap()` messages, which is all a single command can cause.
pub open spec fn room_extended(pre: ChatRoom, post: ChatRoom, msgs: Seq<ChatMessage>) -> bool {
    &&& post.cap() == pre.cap()
    &&& post.log_len() == pre.log_len() + msgs.len()
    &&& post.first_retained() == vstd::math::max(
        pre.first_retained(),
        post.log_len() - post.cap(),
    )
    &&& forall|s: int|
        post.first_retained() <= s < pre.log_len() ==> post.message_at(s) == pre.message_at(s)
    &&& forall|k: int| 0 <= k < msgs.len() ==> post.message_at(pre.log_len() + k) == msgs[k]
}

/// A single publish is a batch of one.
pub proof fn lemma_room_appended_extends(pre: ChatRoom, post: ChatRoom, m: ChatMessage)
    requires
        pre.wf(),
        pre.log_len() < u64::MAX,
        room_appended(pre, post, m),
    ensures
        post.wf(),
        room_extended(pre, post, seq![m]),
{
    assert(post.retained().len() == if pre.retained().len() == pre.cap() {
        pre.retained().len()
    } else {
        pre.retained().len() + 1
    });
    assert(post.message_at(pre.log_len()) == post.retained().last());
}

/// Two consecutive batches make one, as long as together they fit the buffer.
pub proof fn lemma_room_extended_trans(
    a: ChatRoom,
    b: ChatRoom,
    c: ChatRoom,
    s1: Seq<ChatMessage>,
    s2: Seq<ChatMessage>,
)
    requires
        a.wf(),
        room_extended(a, b, s1),
        room_extended(b, c, s2),
        s1.len() + s2.len() <= a.cap(),
    ensures
        room_extended(a, c, s1 + s2),
{
    assert forall|k: int| 0 <= k < (s1 + s2).len() implies c.message_at(a.log_len() + k) == (s1
        + s2)[k] by {
        if k < s1.len() {
            assert(b.message_at(a.log_len() + k) == s1[k]);
            assert(c.first_retained() <= a.log_len() + k);
        } else {
            assert(c.message_at(b.log_len() + (k - s1.len())) == s2[k - s1.len()]);
        }
    }
}

/// The index of the entry holding `name`, when one does.
pub open spec fn index_of(names: Seq<Seq<char>>, name: Seq<char>) -> int {
    choose|i: int| 0 <= i < names.len() && names[i] == name
}

/// With unique names, `index_of` is exactly the index any lookup finds.
pub proof fn lemma_index_of(names: Seq<Seq<char>>, name: Seq<char>, i: int)
    requires
        names_unique(names),
        0 <= i < names.len(),
        names[i] == name,
    ensures
        index_of(names, name) == i,
        contains_name(names, name),
{
    assert(contains_name(names, name));
    let j = index_of(names, name);
    assert(0 <= j < names.len() && names[j] == name);
    if i != j {
        assert(names[i] != names[j]);
    }
}

/// The synthetic notice a room emits when a user subscribes: sent by "Room",
/// announcing that the named user joined.
pub open spec fn is_join_notice(m: ChatMessage, name: Seq<char>) -> bool {
    &&& m.content@ == "User "@ + name + " joined"@
    &&& m.sender_name@ == "Room"@
    &&& m.sender_uuid@ == Seq::<char>::empty()
}

impl ChatRoom {
    /// Sequence number of the oldest message still retained.
    pub closed spec fn first_retained(&self) -> int {
        self.base as int
    }

    /// The retained messages, oldest first.
    pub closed spec fn retained(&self) -> Seq<ChatMessage> {
        self.items@
    }

    /// The buffer depth this room was created with.
    pub closed spec fn cap(&self) -> int {
        self.capacity as int
    }

    /// How many messages were ever published: the sequence number the next
    /// published message will get.
    pub open spec fn log_len(&self) -> int {
        self.first_retained() + self.retained().len()
    }

    /// The message that was published with sequence number `i`, for
    /// `first_retained() <= i < log_len()`.
    pub open spec fn message_at(&self, i: int) -> ChatMessage {
        self.retained()[i - self.first_retained()]
    }

    pub open spec fn wf(&self) -> bool {
        &&& 1 <= self.cap()
        &&& 0 <= self.first_retained()
        &&& self.retained().len() <= self.cap()
        &&& self.log_len() <= u64::MAX
    }

    /// A room with the registry's standard buffer depth and an empty log.
    pub fn new() -> (r: ChatRoom)
        ensures
            r.wf(),
            r.cap() == ROOM_BUFFER_CAPACITY,
            r.log_len() == 0,
            r.first_retained() == 0,
    {
        ChatRoom::with_capacity(ROOM_BUFFER_CAPACITY)
    }

    /// A room that retains the most recent `capacity` messages.
    pub fn with_capacity(capacity: usize) -> (r: ChatRoom)
        requires
            capacity >= 1,
        ensures
            r.wf(),
            r.cap() == capacity,
            r.log_len() == 0,
            r.first_retained() == 0,
    {
        ChatRoom { base: 0, items: Vec::new(), capacity }
    }

    /// Publish `msg` to every current subscriber.  Publishing is total: it
    /// never waits for a reader, however far behind one may be; a full buffer
    /// drops its oldest message instead.
    pub fn publish(&mut self, msg: ChatMessage)
        requires
            old(self).wf(),
            old(self).log_len() < u64::MAX,
        ensures
            final(self).wf(),
            room_appended(*old(self), *final(self), msg),
            final(self).log_len() == old(self).log_len() + 1,
            final(self).message_at(old(self).log_len()) == msg,
    {
        if self.items.len() == self.capacity {
            let _ = self.items.remove(0);
            self.base = self.base + 1;
            proof {
                assert(self.items@ == old(self).items@.drop_first());
            }
        }
        self.items.push(msg);
    }

    /// Subscribe a user: emit the synthetic join notice to the members that
    /// are already reading, and hand back a cursor placed after the notice,
    /// so the new subscriber sees later messages but not the notice itself
    /// and no backlog.
    pub fn subscribe(&mut self, name: &str) -> (cursor: u64)
        requires
            old(self).wf(),
            old(self).log_len() < u64::MAX,
        ensures
            final(self).wf(),
            room_appended(*old(self), *final(self), final(self).message_at(old(self).log_len())),
            is_join_notice(final(self).message_at(old(self).log_len()), name@),
            final(self).log_len() == old(self).log_len() + 1,
            cursor == final(self).log_len(),
    {
        let notice = ChatMessage {
            content: String::from_str("User ").concat(name).concat(" joined"),
            sender_name: String::from_str("Room"),
            sender_uuid: String::new(),
        };
        self.publish(notice);
        self.base + (self.items.len() as u64)
    }

    /// What a poll at `cursor` yields: the next message in publish order, a
    /// gap report when the cursor fell out of the retained window, or nothing
    /// when the cursor is already at the end of the log.
    pub open spec fn recv_spec(&self, cursor: u64) -> RoomRecv {
        if cursor >= self.log_len() {
            RoomRecv::Empty
        } else if (cursor as int) < self.first_retained() {
            RoomRecv::Lagged {
                missed: (self.first_retained() - cursor) as u64,
                resume_at: self.first_retained() as u64,
            }
        } else {
            RoomRecv::Message { msg: self.message_at(cursor as int), next: (cursor + 1) as u64 }
        }
    }

    /// Poll the log at `cursor`.  Never waits: a reader that fell behind is
    /// told how many messages it lost and where reading resumes.
    pub fn recv_from(&self, cursor: u64) -> (r: RoomRecv)
        requires
            self.wf(),
        ensures
            r == self.recv_spec(cursor),
    {
        if cursor >= self.base + (self.items.len() as u64) {
            RoomRecv::Empty
        } else if cursor < self.base {
            RoomRecv::Lagged { missed: self.base - cursor, resume_at: self.base }
        } else {
            let idx: usize = (cursor - self.base) as usize;
            RoomRecv::Message { msg: self.items[idx].clone(), next: cursor + 1 }
        }
    }
}

/// Broadcasts come out in publish order: a reader whose cursor is inside the
/// retained window reads exactly the message that was published with that
/// sequence number, and moves on to the next one.
pub proof fn lemma_in_order_delivery(room: ChatRoom, cursor: u64)
    requires
        room.wf(),
        room.first_retained() <= cursor < room.log_len(),
    ensures
        room.recv_spec(cursor) == (RoomRecv::Message {
            msg: room.message_at(cursor as int),
            next: (cursor + 1) as u64,
        }),
{
}

/// Publishing never rewrites history: every message still retained afterwards
/// is exactly what it was.  In particular a sender's later name change never
/// relabels a message that was already published.
pub proof fn lemma_no_retroactive_relabel(pre: ChatRoom, post: ChatRoom, m: ChatMessage, i: int)
    requires
        pre.wf(),
        room_appended(pre, post, m),
        post.first_retained() <= i < pre.log_len(),
    ensures
        post.message_at(i) == pre.message_at(i),
{
}

/// A reader that stopped reading for more than the room's capacity observes a
/// gap, never a stall: polling reports how many messages were lost and where
/// reading resumes, and the publisher was never waited on.
pub proof fn lemma_slow_reader_gap(room: ChatRoom, cursor: u64)
    requires
        room.wf(),
        room.log_len() - cursor > room.cap(),
    ensures
        room.recv_spec(cursor) == (RoomRecv::Lagged {
            missed: (room.first_retained() - cursor) as u64,
            resume_at: room.first_retained() as u64,
        }),
        room.first_retained() - cursor >= 1,
{
    assert(room.first_retained() >= room.log_len() - room.cap());
}

/// Why a registry operation was refused.
#[derive(Clone, Copy, Debug, PartialEq, Eq, Structural)]
pub enum RegistryError {
    /// `new_room` found a room with the requested name.
    RoomAlreadyExists,
    /// `get_room` found no room with the requested name.
    RoomNotFound,
}

impl RegistryError {
    /// The human-readable description sent back to the client.
    pub fn message(&self) -> (r: String)
        ensures
            *self is RoomAlreadyExists ==> r@ == "Room already exists"@,
            *self is RoomNotFound ==> r@ == "Could not find room"@,
    {
        match self {
            RegistryError::RoomAlreadyExists => String::from_str("Room already exists"),
            RegistryError::RoomNotFound => String::from_str("Could not find room"),
        }
    }
}

/// No two entries hold the same name.
pub open spec fn names_unique(names: Seq<Seq<char>>) -> bool {
    forall|i: int, j: int| 0 <= i < j < names.len() ==> names[i] != names[j]
}

/// Some entry holds this name.
pub open spec fn contains_name(names: Seq<Seq<char>>, name: Seq<char>) -> bool {
    exists|i: int| 0 <= i < names.len() && names[i] == name
}

/// The registry's name list after a create request: unchanged when the name
/// is already taken, extended by the name otherwise.
pub open spec fn create_names(names: Seq<Seq<char>>, name: Seq<char>) -> Seq<Seq<char>> {
    if contains_name(names, name) {
        names
    } else {
        names.push(name)
    }
}

/// Creating a name twice in a row: the second create finds the name taken,
/// so it is refused and changes nothing, and the registry holds exactly one
/// entry with that name.
pub proof fn lemma_create_same_name_twice(names: Seq<Seq<char>>, name: Seq<char>)
    requires
        names_unique(names),
    ensures
        ({
            let once = create_names(names, name);
            &&& names_unique(once)
            &&& contains_name(once, name)
            &&& create_names(once, name) == once
            &&& forall|i: int, j: int|
                0 <= i < once.len() && 0 <= j < once.len() && once[i] == name && once[j] == name
                    ==> i == j
        }),
{
    let once = create_names(names, name);
    if !contains_name(names, name) {
        assert(once[names.len() as int] == name);
        assert forall|i: int, j: int| 0 <= i < j < once.len() implies once[i] != once[j] by {
            if j < names.len() {
                assert(names[i] != names[j]);
            } else {
                assert(!(exists|k: int| 0 <= k < names.len() && names[k] == name));
                assert(once[i] == names[i]);
            }
        }
    }
    assert forall|i: int, j: int|
        0 <= i < once.len() && 0 <= j < once.len() && once[i] == name && once[j] == name implies i
        == j by {
        if i < j {
            assert(once[i] != once[j]);
        }
        if j < i {
            assert(once[j] != once[i]);
        }
    }
}

/// Creating rooms under other names never makes an absent name present: a
/// lookup of a name that was never created still fails.
pub proof fn lemma_create_other_keeps_absent(names: Seq<Seq<char>>, other: Seq<char>, name: Seq<char>)
    requires
        other != name,
        !contains_name(names, name),
    ensures
        !contains_name(create_names(names, other), name),
{
    let once = create_names(names, other);
    assert forall|i: int| 0 <= i < once.len() implies once[i] != name by {
        if i < names.len() {
            assert(names[i] != name);
        }
    }
}

/// The set of names a registry ends up with does not depend on the order two
/// different rooms were created in.
pub proof fn lemma_create_order_irrelevant(names: Seq<Seq<char>>, a: Seq<char>, b: Seq<char>)
    ensures
        forall|x: Seq<char>|
            contains_name(create_names(create_names(names, a), b), x) == contains_name(
                create_names(create_names(names, b), a),
                x,
            ),
{
    assert forall|x: Seq<char>|
        contains_name(create_names(create_names(names, a), b), x) == contains_name(
            create_names(create_names(names, b), a),
            x,
        ) by {
        lemma_contains_create(names, a, x);
        lemma_contains_create(names, b, x);
        lemma_contains_create(create_names(names, a), b, x);
        lemma_contains_create(create_names(names, b), a, x);
    }
}

/// Membership after a create: the name just asked for, or anything that was
/// already there.
proof fn lemma_contains_create(names: Seq<Seq<char>>, n: Seq<char>, x: Seq<char>)
    ensures
        contains_name(create_names(names, n), x) == (contains_name(names, x) || x == n),
{
    let once = create_names(names, n);
    if contains_name(names, n) {
        if x == n {
            assert(contains_name(names, x));
        }
    } else {
        assert(once[names.len() as int] == n);
        if contains_name(once, x) && x != n {
            let i = choose|i: int| 0 <= i < once.len() && once[i] == x;
            assert(names[i] == x);
        }
        if contains_name(names, x) {
            let i = choose|i: int| 0 <= i < names.len() && names[i] == x;
            assert(once[i] == x);
        }
    }
}

/// The name-keyed collection of all rooms.  Names are unique at all times;
/// rooms are created only here and live for the registry's lifetime.
pub struct Backend {
    rooms: Vec<(String, ChatRoom)>,
}

impl Backend {
    /// The rooms, in creation order, as (name, room) pairs.
    pub closed spec fn entries(&self) -> Seq<(String, ChatRoom)> {
        self.rooms@
    }

    pub open spec fn num_rooms(&self) -> int {
        self.entries().len() as int
    }

    /// The room names, in creation order.
    pub open spec fn names(&self) -> Seq<Seq<char>> {
        self.entries().map(|i: int, p: (String, ChatRoom)| p.0@)
    }

    /// The room stored at index `i`.
    pub open spec fn room(&self, i: int) -> ChatRoom {
        self.entries()[i].1
    }

    pub open spec fn has_room(&self, name: Seq<char>) -> bool {
        contains_name(self.names(), name)
    }

    /// Registry invariant: room names never repeat, and every room is a
    /// well-formed broadcast log with the standard buffer depth.
    pub open spec fn inv(&self) -> bool {
        &&& names_unique(self.names())
        &&& forall|i: int|
            0 <= i < self.num_rooms() ==> (#[trigger] self.room(i)).wf() && self.room(i).cap()
                == ROOM_BUFFER_CAPACITY
    }

    /// Every room's log is far enough from the sequence-counter limit for the
    /// at most two publishes a single command can cause.
    pub open spec fn not_saturated(&self) -> bool {
        forall|i: int|
            0 <= i < self.num_rooms() ==> (#[trigger] self.room(i)).log_len() + 2 <= u64::MAX
    }

    /// An empty registry.
    pub fn new() -> (r: Backend)
        ensures
            r.inv(),
            r.num_rooms() == 0,
    {
        Backend { rooms: Vec::new() }
    }

    /// Create a room: refused, and the registry left unchanged, exactly when
    /// the name is already taken; otherwise a new empty room is added under
    /// the name.
    pub fn new_room(&mut self, name: String) -> (r: Result<(), RegistryError>)
        requires
            old(self).inv(),
        ensures
            final(self).inv(),
            final(self).names() == create_names(old(self).names(), name@),
            r is Ok <==> !old(self).has_room(name@),
            r is Err ==> r == Err::<(), RegistryError>(RegistryError::RoomAlreadyExists)
                && *final(self) == *old(self),
            r is Ok ==> {
                &&& final(self).num_rooms() == old(self).num_rooms() + 1
                &&& forall|j: int|
                    0 <= j < old(self).num_rooms() ==> final(self).room(j) == old(self).room(j)
                &&& final(self).room(old(self).num_rooms()).log_len() == 0
                &&& final(self).room(old(self).num_rooms()).first_retained() == 0
            },
    {
        match self.find_room(&name) {
            Some(_) => Err(RegistryError::RoomAlreadyExists),
            None => {
                let room = ChatRoom::new();
                self.rooms.push((name, room));
                proof {
                    assert(self.names() =~= old(self).names().push(self.entries().last().0@));
                    assert forall|i: int, j: int|
                        0 <= i < j < self.names().len() implies self.names()[i] != self.names()[j] by {
                        if j < old(self).num_rooms() {
                            assert(old(self).names()[i] != old(self).names()[j]);
                        } else {
                            assert(old(self).names()[i] != self.names()[j]);
                        }
                    }
                    assert forall|i: int|
                        0 <= i < self.num_rooms() implies (#[trigger] self.room(i)).wf()
                        && self.room(i).cap() == ROOM_BUFFER_CAPACITY by {
                        if i < old(self).num_rooms() {
                            assert(self.room(i) == old(self).room(i));
                        }
                    }
                }
                Ok(())
            },
        }
    }

    /// Look a name up: the index of the room that holds it, if any.
    fn find_room(&self, name: &String) -> (r: Option<usize>)
        ensures
            match r {
                Some(i) => 0 <= i < self.num_rooms() && self.names()[i as int] == name@,
                None => !self.has_room(name@),
            },
    {
        let n = self.rooms.len();
        for i in 0..n
            invariant
                n == self.num_rooms(),
                forall|j: int| 0 <= j < i ==> self.names()[j] != name@,
        {
            if self.rooms[i].0 == *name {
                return Some(i);
            }
        }
        None
    }

    /// Fetch a room handle by name: the room's index, usable to publish,
    /// subscribe and poll; `RoomNotFound` exactly when no room has the name.
    pub fn get_room(&self, name: String) -> (r: Result<usize, RegistryError>)
        ensures
            match r {
                Ok(i) => 0 <= i < self.num_rooms() && self.names()[i as int] == name@,
                Err(e) => e == RegistryError::RoomNotFound && !self.has_room(name@),
            },
    {
        match self.find_room(&name) {
            Some(i) => Ok(i),
            None => Err(RegistryError::RoomNotFound),
        }
    }

    /// A snapshot of all room names, each exactly once, in creation order.
    pub fn list(&self) -> (r: Vec<String>)
        requires
            self.inv(),
        ensures
            r@.len() == self.names().len(),
            forall|i: int| 0 <= i < r@.len() ==> r@[i]@ == self.names()[i],
            forall|i: int, j: int| 0 <= i < j < r@.len() ==> r@[i]@ != r@[j]@,
    {
        let n = self.rooms.len();
        let mut out: Vec<String> = Vec::new();
        for i in 0..n
            invariant
                n == self.num_rooms(),
                out@.len() == i,
                forall|j: int| 0 <= j < i ==> out@[j]@ == self.names()[j],
        {
            out.push(self.rooms[i].0.clone());
        }
        proof {
            assert forall|i: int, j: int| 0 <= i < j < out@.len() implies out@[i]@ != out@[j]@ by {
                assert(out@[i]@ == self.names()[i]);
                assert(out@[j]@ == self.names()[j]);
                assert(self.names()[i] != self.names()[j]);
            }
        }
        out
    }

    /// Publish `msg` into the room at index `room`; no other room changes,
    /// and the publisher never waits on any reader.
    pub fn publish(&mut self, room: usize, msg: ChatMessage)
        requires
            old(self).inv(),
            room < old(self).num_rooms(),
            old(self).room(room as int).log_len() < u64::MAX,
        ensures
            final(self).inv(),
            final(self).names() == old(self).names(),
            final(self).num_rooms() == old(self).num_rooms(),
            forall|j: int|
                0 <= j < old(self).num_rooms() && j != room ==> final(self).room(j) == old(
                    self,
                ).room(j),
            room_appended(old(self).room(room as int), final(self).room(room as int), msg),
            final(self).room(room as int).log_len() == old(self).room(room as int).log_len() + 1,
            final(self).room(room as int).message_at(old(self).room(room as int).log_len()) == msg,
    {
        self.rooms[room].1.publish(msg);
        proof {
            assert(self.names() =~= old(self).names());
            assert forall|j: int|
                0 <= j < self.num_rooms() implies (#[trigger] self.room(j)).wf() && self.room(
                j,
            ).cap() == ROOM_BUFFER_CAPACITY by {
                if j != room {
                    assert(self.room(j) == old(self).room(j));
                }
            }
        }
    }

    /// Subscribe a user to the room at index `room`: the join notice goes to
    /// the members already reading, and the returned cursor starts just past
    /// it, so the new subscriber sees no backlog and not the notice itself.
    pub fn subscribe(&mut self, room: usize, name: &str) -> (cursor: u64)
        requires
            old(self).inv(),
            room < old(self).num_rooms(),
            old(self).room(room as int).log_len() < u64::MAX,
        ensures
            final(self).inv(),
            final(self).names() == old(self).names(),
            final(self).num_rooms() == old(self).num_rooms(),
            forall|j: int|
                0 <= j < old(self).num_rooms() && j != room ==> final(self).room(j) == old(
                    self,
                ).room(j),
            room_appended(
                old(self).room(room as int),
                final(self).room(room as int),
                final(self).room(room as int).message_at(old(self).room(room as int).log_len()),
            ),
            is_join_notice(
                final(self).room(room as int).message_at(old(self).room(room as int).log_len()),
                name@,
            ),
            final(self).room(room as int).log_len() == old(self).room(room as int).log_len() + 1,
            cursor == final(self).room(room as int).log_len(),
    {
        let cursor = self.rooms[room].1.subscribe(name);
        proof {
            assert(self.names() =~= old(self).names());
            assert forall|j: int|
                0 <= j < self.num_rooms() implies (#[trigger] self.room(j)).wf() && self.room(
                j,
            ).cap() == ROOM_BUFFER_CAPACITY by {
                if j != room {
                    assert(self.room(j) == old(self).room(j));
                }
            }
        }
        cursor
    }

    /// Poll the room at index `room` at the reader's cursor.
    pub fn recv_from(&self, room: usize, cursor: u64) -> (r: RoomRecv)
        requires
            self.inv(),
            room < self.num_rooms(),
        ensures
            r == self.room(room as int).recv_spec(cursor),
    {
        self.rooms[room].1.recv_from(cursor)
    }
}

} // verus!
