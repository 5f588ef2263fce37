//! The chat hub: the set of open chat sessions and the queue of notes that
//! waits for each of them. A note sent on one session is put on the queue of
//! every other session that can take it.

use std::collections::VecDeque;
use vstd::prelude::*;
use crate::geo::{note_views, RouteNote, RouteNoteView};

verus! {

/// The handle of a chat session. The hub hands each handle out once.
#[derive(Clone, Copy, Debug, PartialEq, Eq, Hash, Structural)]
pub struct SessionId(pub u64);

/// What a session is in contracts.
pub struct SessionView {
    /// The handle of the session.
    pub id: SessionId,
    /// The way out to the session's peer is open.
    pub open: bool,
    /// The notes that wait to go out, oldest first.
    pub outbox: Seq<RouteNoteView>,
}

impl SessionView {
    /// The session takes a note sent by `sender`: it is another session, its
    /// way out is open and its queue has room.
    pub open spec fn takes(self, sender: SessionId, capacity: nat) -> bool {
        self.id != sender && self.open && self.outbox.len() < capacity
    }

    /// The session after a note was sent by `sender`: the note is last on
    /// the queue where the session takes it, and dropped where it does not.
    pub open spec fn deliver(self, sender: SessionId, note: RouteNoteView, capacity: nat) -> SessionView {
        if self.takes(sender, capacity) {
            SessionView { id: self.id, open: self.open, outbox: self.outbox.push(note) }
        } else {
            self
        }
    }

    /// The session after its oldest waiting note went out.
    pub open spec fn pop(self) -> SessionView {
        if self.outbox.len() > 0 {
            SessionView { id: self.id, open: self.open, outbox: self.outbox.drop_first() }
        } else {
            self
        }
    }

    /// The session after its way out was closed: nothing waits any more.
    pub open spec fn shut(self) -> SessionView {
        SessionView { id: self.id, open: false, outbox: Seq::empty() }
    }
}

/// What the hub is in contracts.
pub struct RoomView {
    /// How many notes may wait for one session.
    pub capacity: nat,
    /// How many handles were handed out so far.
    pub issued: nat,
    /// The open sessions, in the order in which they joined.
    pub sessions: Seq<SessionView>,
}

impl RoomView {
    /// The hub with no session.
    pub open spec fn empty(capacity: nat) -> RoomView {
        RoomView { capacity, issued: 0, sessions: Seq::empty() }
    }

    /// The hub with no session whose first handle is the one numbered
    /// `first`, as if that many handles had been handed out already.
    pub open spec fn empty_from(capacity: nat, first: nat) -> RoomView {
        RoomView { capacity, issued: first, sessions: Seq::empty() }
    }

    /// No two sessions share a handle, every handle was handed out by this
    /// hub, and no queue is longer than the capacity.
    pub open spec fn wf(self) -> bool {
        &&& self.issued <= u64::MAX
        &&& forall|i: int| 0 <= i < self.sessions.len() ==> (#[trigger] self.sessions[i]).id.0 < self.issued
        &&& forall|i: int, j: int|
            0 <= i < self.sessions.len() && 0 <= j < self.sessions.len() && i != j ==> (
            #[trigger] self.sessions[i]).id != (#[trigger] self.sessions[j]).id
        &&& forall|i: int| 0 <= i < self.sessions.len() ==> (#[trigger] self.sessions[i]).outbox.len() <= self.capacity
    }

    /// The session with this handle stands at position `at`.
    pub open spec fn at(self, id: SessionId, at: int) -> bool {
        0 <= at < self.sessions.len() && self.sessions[at].id == id
    }

    /// The session with this handle is open.
    pub open spec fn has(self, id: SessionId) -> bool {
        exists|at: int| self.at(id, at)
    }

    /// The position of the session with this handle.
    pub open spec fn position(self, id: SessionId) -> int {
        choose|at: int| self.at(id, at)
    }

    /// The session with this handle.
    pub open spec fn session(self, id: SessionId) -> SessionView {
        self.sessions[self.position(id)]
    }

    /// The notes that wait for the session with this handle, oldest first.
    pub open spec fn outbox(self, id: SessionId) -> Seq<RouteNoteView> {
        self.session(id).outbox
    }

    /// The handle that the next session gets, unless all were handed out.
    pub open spec fn next_id(self) -> Option<SessionId> {
        if self.issued < u64::MAX {
            Some(SessionId(self.issued as u64))
        } else {
            None
        }
    }

    /// The hub after one more session joined, with an open way out and an
    /// empty queue.
    pub open spec fn joined(self) -> RoomView {
        match self.next_id() {
            Some(id) => RoomView {
                capacity: self.capacity,
                issued: self.issued + 1,
                sessions: self.sessions.push(SessionView { id, open: true, outbox: Seq::empty() }),
            },
            None => self,
        }
    }

    /// The hub after the session with this handle left. The notes that
    /// waited for it are gone with it.
    pub open spec fn left(self, id: SessionId) -> RoomView {
        if self.has(id) {
            RoomView {
                capacity: self.capacity,
                issued: self.issued,
                sessions: self.sessions.remove(self.position(id)),
            }
        } else {
            self
        }
    }

    /// The hub after the way out of the session with this handle was closed.
    pub open spec fn closed(self, id: SessionId) -> RoomView {
        if self.has(id) {
            RoomView {
                capacity: self.capacity,
                issued: self.issued,
                sessions: self.sessions.update(self.position(id), self.session(id).shut()),
            }
        } else {
            self
        }
    }

    /// The hub after `sender` sent a note: every session is offered the
    /// note, in one pass over the sessions that are open at that moment.
    pub open spec fn broadcast(self, sender: SessionId, note: RouteNoteView) -> RoomView {
        RoomView {
            capacity: self.capacity,
            issued: self.issued,
            sessions: Seq::new(
                self.sessions.len(),
                |i: int| self.sessions[i].deliver(sender, note, self.capacity),
            ),
        }
    }

    /// How many sessions take a note sent by `sender`.
    pub open spec fn takers(self, sender: SessionId) -> nat {
        self.sessions.filter(|session: SessionView| session.takes(sender, self.capacity)).len()
    }

    /// The oldest note that waits for the session with this handle.
    pub open spec fn head(self, id: SessionId) -> Option<RouteNoteView> {
        if self.has(id) && self.outbox(id).len() > 0 {
            Some(self.outbox(id)[0])
        } else {
            None
        }
    }

    /// The hub after the oldest note that waited for the session with this
    /// handle went out.
    pub open spec fn received(self, id: SessionId) -> RoomView {
        if self.has(id) {
            RoomView {
                capacity: self.capacity,
                issued: self.issued,
                sessions: self.sessions.update(self.position(id), self.session(id).pop()),
            }
        } else {
            self
        }
    }
}

/// In a well-formed hub a handle stands at one position only.
pub proof fn lemma_position_is_unique(room: RoomView, id: SessionId, at: int)
    requires
        room.wf(),
        room.at(id, at),
    ensures
        room.has(id),
        room.position(id) == at,
        room.session(id) == room.sessions[at],
{
    let chosen = room.position(id);
    assert(room.at(id, chosen));
    if chosen != at {
        assert(room.sessions[chosen].id != room.sessions[at].id);
    }
}

/// A hub stays well formed when a session joins, and the handle of the new
/// session is one that no open session has.
pub proof fn lemma_joined_keeps_wf(room: RoomView)
    requires
        room.wf(),
    ensures
        room.joined().wf(),
        room.next_id() matches Some(id) ==> !room.has(id) && room.joined().at(
            id,
            room.sessions.len() as int,
        ),
{
    if room.next_id() is Some {
        let id = room.next_id()->0;
        if room.has(id) {
            let at = room.position(id);
            assert(room.sessions[at].id.0 < room.issued);
        }
    }
}

/// A hub stays well formed when a session leaves.
pub proof fn lemma_left_keeps_wf(room: RoomView, id: SessionId)
    requires
        room.wf(),
    ensures
        room.left(id).wf(),
{
    if room.has(id) {
        let at = room.position(id);
        let after = room.left(id);
        assert forall|i: int| 0 <= i < after.sessions.len() implies (#[trigger] after.sessions[i]).id.0
            < after.issued && after.sessions[i].outbox.len() <= after.capacity by {
            if i < at {
                assert(after.sessions[i] == room.sessions[i]);
            } else {
                assert(after.sessions[i] == room.sessions[i + 1]);
            }
        }
        assert forall|i: int, j: int|
            0 <= i < after.sessions.len() && 0 <= j < after.sessions.len() && i != j implies (
        #[trigger] after.sessions[i]).id != (#[trigger] after.sessions[j]).id by {
            let from_i = if i < at { i } else { i + 1 };
            let from_j = if j < at { j } else { j + 1 };
            assert(after.sessions[i] == room.sessions[from_i]);
            assert(after.sessions[j] == room.sessions[from_j]);
        }
    }
}

/// A hub stays well formed when the way out of a session is closed.
pub proof fn lemma_closed_keeps_wf(room: RoomView, id: SessionId)
    requires
        room.wf(),
    ensures
        room.closed(id).wf(),
{
}

/// A hub stays well formed when a note is sent.
pub proof fn lemma_broadcast_keeps_wf(room: RoomView, sender: SessionId, note: RouteNoteView)
    requires
        room.wf(),
    ensures
        room.broadcast(sender, note).wf(),
{
}

/// A hub stays well formed when a note goes out.
pub proof fn lemma_received_keeps_wf(room: RoomView, id: SessionId)
    requires
        room.wf(),
    ensures
        room.received(id).wf(),
{
}

/// Sending a note keeps every session where it is: the same sessions are
/// open afterwards, at the same positions, and nothing but their queues has
/// changed.
pub proof fn lemma_broadcast_keeps_members(
    room: RoomView,
    sender: SessionId,
    note: RouteNoteView,
    id: SessionId,
)
    requires
        room.wf(),
    ensures
        room.broadcast(sender, note).has(id) == room.has(id),
        room.has(id) ==> room.broadcast(sender, note).position(id) == room.position(id),
        room.has(id) ==> room.broadcast(sender, note).session(id).open == room.session(id).open,
{
    let after = room.broadcast(sender, note);
    lemma_broadcast_keeps_wf(room, sender, note);
    if room.has(id) {
        let at = room.position(id);
        assert(after.at(id, at));
        lemma_position_is_unique(after, id, at);
    }
    if after.has(id) {
        let at = after.position(id);
        assert(room.at(id, at));
    }
}

/// A note reaches every other session that can take it, as the last note on
/// its queue, and reaches no one else: the queue of the sender, of a session
/// whose way out is closed and of a session whose queue is full stay as they
/// were.
pub proof fn lemma_broadcast_reaches_others(
    room: RoomView,
    sender: SessionId,
    note: RouteNoteView,
    receiver: SessionId,
)
    requires
        room.wf(),
        room.has(receiver),
    ensures
        room.broadcast(sender, note).has(receiver),
        room.broadcast(sender, note).session(receiver) == room.session(receiver).deliver(
            sender,
            note,
            room.capacity,
        ),
        room.session(receiver).takes(sender, room.capacity) ==> room.broadcast(sender, note).outbox(
            receiver,
        ) == room.outbox(receiver).push(note),
        !room.session(receiver).takes(sender, room.capacity) ==> room.broadcast(sender, note).outbox(
            receiver,
        ) == room.outbox(receiver),
        receiver == sender ==> room.broadcast(sender, note).outbox(receiver) == room.outbox(receiver),
{
    let after = room.broadcast(sender, note);
    let at = room.position(receiver);
    lemma_broadcast_keeps_wf(room, sender, note);
    lemma_position_is_unique(room, receiver, at);
    assert(after.at(receiver, at));
    lemma_position_is_unique(after, receiver, at);
}

/// A session that has left is open no more, and the other sessions are not
/// touched by its leaving.
pub proof fn lemma_left_removes_one(room: RoomView, leaver: SessionId, id: SessionId)
    requires
        room.wf(),
    ensures
        !room.left(leaver).has(leaver),
        id != leaver ==> room.left(leaver).has(id) == room.has(id),
        id != leaver && room.has(id) ==> room.left(leaver).session(id) == room.session(id),
{
    let after = room.left(leaver);
    lemma_left_keeps_wf(room, leaver);
    if room.has(leaver) {
        let gone = room.position(leaver);
        lemma_position_is_unique(room, leaver, gone);
        if after.has(leaver) {
            let at = after.position(leaver);
            let from = if at < gone { at } else { at + 1 };
            assert(after.sessions[at] == room.sessions[from]);
            lemma_position_is_unique(room, leaver, from);
        }
        if id != leaver {
            if room.has(id) {
                let at = room.position(id);
                let to = if at < gone { at } else { at - 1 };
                assert(after.sessions[to] == room.sessions[at]);
                assert(after.at(id, to));
                lemma_position_is_unique(after, id, to);
            }
            if after.has(id) {
                let at = after.position(id);
                let from = if at < gone { at } else { at + 1 };
                assert(after.sessions[at] == room.sessions[from]);
                assert(room.at(id, from));
            }
        }
    }
}

/// A note sent after a session has left passes that session by and reaches
/// the others as if it had never been there: leaving and sending may be
/// exchanged.
pub proof fn lemma_leaver_is_skipped(
    room: RoomView,
    leaver: SessionId,
    sender: SessionId,
    note: RouteNoteView,
)
    requires
        room.wf(),
    ensures
        room.left(leaver).broadcast(sender, note) == room.broadcast(sender, note).left(leaver),
        !room.left(leaver).broadcast(sender, note).has(leaver),
{
    let sent = room.broadcast(sender, note);
    lemma_broadcast_keeps_members(room, sender, note, leaver);
    lemma_left_keeps_wf(room, leaver);
    lemma_left_removes_one(room, leaver, leaver);
    lemma_broadcast_keeps_members(room.left(leaver), sender, note, leaver);
    if room.has(leaver) {
        let gone = room.position(leaver);
        assert(room.left(leaver).broadcast(sender, note).sessions =~= sent.sessions.remove(gone));
    }
}

/// A session that joins starts with an empty queue, so none of the notes
/// sent before it joined waits for it; the sessions that were open stay as
/// they were.
pub proof fn lemma_joiner_starts_empty(room: RoomView, id: SessionId)
    requires
        room.wf(),
    ensures
        room.next_id() matches Some(joiner) ==> room.joined().has(joiner) && room.joined().outbox(
            joiner,
        ) == Seq::<RouteNoteView>::empty() && room.joined().session(joiner).open,
        room.has(id) ==> room.joined().has(id) && room.joined().session(id) == room.session(id),
{
    let after = room.joined();
    lemma_joined_keeps_wf(room);
    if room.next_id() is Some {
        let joiner = room.next_id()->0;
        lemma_position_is_unique(after, joiner, room.sessions.len() as int);
    }
    if room.has(id) {
        let at = room.position(id);
        assert(after.at(id, at));
        lemma_position_is_unique(after, id, at);
    }
}

/// Two notes sent one after the other on one session wait for a receiver in
/// the order in which they were sent, behind the notes that waited before.
pub proof fn lemma_notes_keep_sender_order(
    room: RoomView,
    sender: SessionId,
    first: RouteNoteView,
    second: RouteNoteView,
    receiver: SessionId,
)
    requires
        room.wf(),
        room.has(receiver),
        receiver != sender,
        room.session(receiver).open,
        room.outbox(receiver).len() + 2 <= room.capacity,
    ensures
        room.broadcast(sender, first).broadcast(sender, second).outbox(receiver) == room.outbox(
            receiver,
        ).push(first).push(second),
{
    let once = room.broadcast(sender, first);
    lemma_broadcast_keeps_wf(room, sender, first);
    lemma_broadcast_reaches_others(room, sender, first, receiver);
    lemma_broadcast_reaches_others(once, sender, second, receiver);
}

/// Notes go out oldest first: what goes out is the note at the head of the
/// queue, the rest of the queue keeps its order, and the queues of the other
/// sessions are not touched.
pub proof fn lemma_received_takes_oldest(room: RoomView, id: SessionId, other: SessionId)
    requires
        room.wf(),
        room.has(id),
    ensures
        room.received(id).has(id),
        room.outbox(id).len() > 0 ==> room.head(id) == Some(room.outbox(id)[0]) && room.received(
            id,
        ).outbox(id) == room.outbox(id).drop_first(),
        room.outbox(id).len() == 0 ==> room.head(id) is None && room.received(id) == room,
        other != id && room.has(other) ==> room.received(id).has(other) && room.received(id).session(
            other,
        ) == room.session(other),
{
    let after = room.received(id);
    let at = room.position(id);
    lemma_received_keeps_wf(room, id);
    lemma_position_is_unique(room, id, at);
    assert(after.at(id, at));
    lemma_position_is_unique(after, id, at);
    if room.outbox(id).len() == 0 {
        assert(after.sessions =~= room.sessions);
    }
    if other != id && room.has(other) {
        let there = room.position(other);
        assert(after.at(other, there));
        lemma_position_is_unique(after, other, there);
    }
}

/// With three sessions open, a note sent on the first waits for the second
/// and for the third, each of which can take it, and not for the first.
/// Where the second has left before the note is sent, the note waits for the
/// third alone, and the first sees no difference.
pub proof fn lemma_note_goes_to_the_others(
    room: RoomView,
    a: SessionId,
    b: SessionId,
    c: SessionId,
    note: RouteNoteView,
)
    requires
        room.wf(),
        room.has(a),
        room.has(b),
        room.has(c),
        a != b && a != c && b != c,
        room.session(b).takes(a, room.capacity),
        room.session(c).takes(a, room.capacity),
    ensures
        room.broadcast(a, note).outbox(b) == room.outbox(b).push(note),
        room.broadcast(a, note).outbox(c) == room.outbox(c).push(note),
        room.broadcast(a, note).outbox(a) == room.outbox(a),
        !room.left(b).broadcast(a, note).has(b),
        room.left(b).broadcast(a, note).has(a),
        room.left(b).broadcast(a, note).has(c),
        room.left(b).broadcast(a, note).outbox(c) == room.outbox(c).push(note),
        room.left(b).broadcast(a, note).outbox(a) == room.outbox(a),
{
    lemma_broadcast_reaches_others(room, a, note, a);
    lemma_broadcast_reaches_others(room, a, note, b);
    lemma_broadcast_reaches_others(room, a, note, c);
    let rest = room.left(b);
    lemma_left_keeps_wf(room, b);
    lemma_left_removes_one(room, b, a);
    lemma_left_removes_one(room, b, c);
    lemma_broadcast_keeps_members(rest, a, note, b);
    lemma_broadcast_reaches_others(rest, a, note, a);
    lemma_broadcast_reaches_others(rest, a, note, c);
}

struct Session {
    id: SessionId,
    open: bool,
    outbox: VecDeque<RouteNote>,
}

impl View for Session {
    type V = SessionView;

    closed spec fn view(&self) -> SessionView {
        SessionView { id: self.id, open: self.open, outbox: note_views(self.outbox@) }
    }
}

/// The views of a sequence of sessions, in the same order.
spec fn session_views(sessions: Seq<Session>) -> Seq<SessionView> {
    sessions.map_values(|session: Session| session@)
}

/// The hub that is made of these parts.
spec fn room_of(capacity: usize, issued: u64, sessions: Seq<Session>) -> RoomView {
    RoomView { capacity: capacity as nat, issued: issued as nat, sessions: session_views(sessions) }
}

/// The chat hub. One hub serves all chat calls; whoever shares it among
/// calls that run at the same time lets one call at a time use it.
pub struct ChatRoom {
    capacity: usize,
    issued: u64,
    sessions: Vec<Session>,
}

impl View for ChatRoom {
    type V = RoomView;

    closed spec fn view(&self) -> RoomView {
        room_of(self.capacity, self.issued, self.sessions@)
    }
}

impl ChatRoom {
    #[verifier::type_invariant]
    spec fn sound(self) -> bool {
        self@.wf()
    }

    /// A hub without sessions, in which up to `capacity` notes may wait for
    /// one session.
    pub fn new(capacity: usize) -> (room: ChatRoom)
        ensures
            room@ == RoomView::empty(capacity as nat),
            room@.wf(),
    {
        let room = ChatRoom { capacity, issued: 0, sessions: Vec::new() };
        assert(room@.sessions =~= Seq::<SessionView>::empty());
        room
    }

    /// A hub without sessions that numbers its handles from `first` on, so
    /// that several hubs can hand out handles that never meet.
    pub fn with_handles_from(capacity: usize, first: u64) -> (room: ChatRoom)
        ensures
            room@ == RoomView::empty_from(capacity as nat, first as nat),
            room@.wf(),
    {
        let room = ChatRoom { capacity, issued: first, sessions: Vec::new() };
        assert(room@.sessions =~= Seq::<SessionView>::empty());
        room
    }

    /// How many notes may wait for one session.
    pub fn capacity(&self) -> (capacity: usize)
        ensures
            capacity == self@.capacity,
            self@.wf(),
    {
        proof {
            use_type_invariant(self);
        }
        self.capacity
    }

    /// How many sessions are open.
    pub fn len(&self) -> (count: usize)
        ensures
            count == self@.sessions.len(),
    {
        self.sessions.len()
    }

    /// The position of the session with this handle.
    fn find(&self, id: SessionId) -> (found: Option<usize>)
        ensures
            match found {
                Some(at) => self@.at(id, at as int) && self@.has(id) && self@.position(id) == at,
                None => !self@.has(id),
            },
    {
        let mut at: usize = 0;
        while at < self.sessions.len()
            invariant
                at <= self.sessions.len(),
                forall|k: int| 0 <= k < at ==> !self@.at(id, k),
            decreases self.sessions.len() - at,
        {
            if self.sessions[at].id == id {
                proof {
                    use_type_invariant(self);
                    assert(self@.at(id, at as int));
                    lemma_position_is_unique(self@, id, at as int);
                }
                return Some(at);
            }
            at += 1;
        }
        None
    }

    /// Tells whether the session with this handle is open.
    pub fn contains(&self, id: SessionId) -> (open: bool)
        ensures
            open == self@.has(id),
    {
        self.find(id).is_some()
    }

    /// How many notes wait for the session with this handle, or nothing
    /// where no such session is open.
    pub fn pending(&self, id: SessionId) -> (waiting: Option<usize>)
        ensures
            waiting == if self@.has(id) {
                Some(self@.outbox(id).len() as usize)
            } else {
                None
            },
    {
        match self.find(id) {
            Some(at) => Some(self.sessions[at].outbox.len()),
            None => None,
        }
    }

    /// Takes the sessions out of the hub, which is left without any, so
    /// that they can be changed and put back.
    fn take_sessions(&mut self) -> (sessions: Vec<Session>)
        ensures
            sessions == old(self).sessions,
            final(self).sessions@.len() == 0,
            final(self).capacity == old(self).capacity,
            final(self).issued == old(self).issued,
    {
        let mut sessions: Vec<Session> = Vec::new();
        core::mem::swap(&mut self.sessions, &mut sessions);
        sessions
    }

    /// Opens a session and gives its handle: one that this hub has not
    /// handed out before. The session starts with an open way out and an
    /// empty queue, so it gets none of the notes sent before it joined.
    /// Nothing is opened once every handle has been handed out.
    pub fn join(&mut self) -> (id: Option<SessionId>)
        ensures
            id == old(self)@.next_id(),
            final(self)@ == old(self)@.joined(),
            final(self)@.wf(),
    {
        proof {
            use_type_invariant(&*self);
        }
        if self.issued == u64::MAX {
            return None;
        }
        let ghost before = self@;
        let id = SessionId(self.issued);
        let mut sessions = self.take_sessions();
        sessions.push(Session { id, open: true, outbox: VecDeque::new() });
        self.issued = self.issued + 1;
        proof {
            assert(note_views(Seq::<RouteNote>::empty()) =~= Seq::<RouteNoteView>::empty());
            assert(session_views(sessions@) =~= before.joined().sessions);
            assert(room_of(self.capacity, self.issued, sessions@) == before.joined());
            lemma_joined_keeps_wf(before);
        }
        self.sessions = sessions;
        Some(id)
    }

    /// Closes the session with this handle, whatever state it is in: the
    /// notes that waited for it are dropped and it gets none from now on.
    /// Tells whether such a session was open.
    pub fn leave(&mut self, id: SessionId) -> (was_open: bool)
        ensures
            was_open == old(self)@.has(id),
            final(self)@ == old(self)@.left(id),
            final(self)@.wf(),
    {
        proof {
            use_type_invariant(&*self);
        }
        match self.find(id) {
            Some(at) => {
                let ghost before = self@;
                let mut sessions = self.take_sessions();
                sessions.remove(at);
                proof {
                    assert(session_views(sessions@) =~= before.sessions.remove(at as int));
                    assert(room_of(self.capacity, self.issued, sessions@) == before.left(id));
                    lemma_left_keeps_wf(before, id);
                }
                self.sessions = sessions;
                true
            },
            None => false,
        }
    }

    /// Closes the way out of the session with this handle: the notes that
    /// waited for it are dropped, and notes sent from now on pass it by. The
    /// session stays open until it leaves. Tells whether such a session was
    /// open.
    pub fn close(&mut self, id: SessionId) -> (was_open: bool)
        ensures
            was_open == old(self)@.has(id),
            final(self)@ == old(self)@.closed(id),
            final(self)@.wf(),
    {
        proof {
            use_type_invariant(&*self);
        }
        match self.find(id) {
            Some(at) => {
                let ghost before = self@;
                let mut sessions = self.take_sessions();
                sessions[at].open = false;
                sessions[at].outbox.clear();
                proof {
                    assert(note_views(Seq::<RouteNote>::empty()) =~= Seq::<RouteNoteView>::empty());
                    assert(session_views(sessions@) =~= before.sessions.update(
                        at as int,
                        before.session(id).shut(),
                    ));
                    assert(room_of(self.capacity, self.issued, sessions@) == before.closed(id));
                    lemma_closed_keeps_wf(before, id);
                }
                self.sessions = sessions;
                true
            },
            None => false,
        }
    }

    /// Sends a note on behalf of `sender` to every other open session, in
    /// one pass over the sessions that are open now. A session whose way out
    /// is closed, or whose queue is full, is passed by: the note is dropped
    /// for that session alone, and the others get it all the same. The
    /// sender gets nothing back, and nothing is reported to it. Gives the
    /// number of sessions that took the note.
    pub fn broadcast(&mut self, sender: SessionId, note: &RouteNote) -> (taken: usize)
        ensures
            final(self)@ == old(self)@.broadcast(sender, note@),
            taken == old(self)@.takers(sender),
            final(self)@.wf(),
    {
        proof {
            use_type_invariant(&*self);
        }
        let ghost before = self@;
        let ghost takes = |session: SessionView| session.takes(sender, before.capacity);
        let capacity = self.capacity;
        let mut sessions = self.take_sessions();
        let mut taken: usize = 0;
        let mut at: usize = 0;
        proof {
            reveal(Seq::filter);
            assert(before.sessions.take(0) =~= Seq::<SessionView>::empty());
        }
        while at < sessions.len()
            invariant
                before.wf(),
                capacity == before.capacity,
                takes == (|session: SessionView| session.takes(sender, before.capacity)),
                at <= sessions.len(),
                sessions.len() == before.sessions.len(),
                taken == before.sessions.take(at as int).filter(takes).len(),
                taken <= at,
                forall|k: int| 0 <= k < at ==> (#[trigger] sessions[k])@ == before.sessions[k].deliver(
                    sender,
                    note@,
                    before.capacity,
                ),
                forall|k: int| at <= k < sessions.len() ==> (#[trigger] sessions[k])@ == before.sessions[k],
            decreases sessions.len() - at,
        {
            proof {
                reveal(Seq::filter);
                assert(before.sessions.take(at + 1).drop_last() =~= before.sessions.take(at as int));
                assert(before.sessions.take(at + 1).last() == before.sessions[at as int]);
            }
            let ghost prior = sessions@;
            if sessions[at].id != sender && sessions[at].open && sessions[at].outbox.len() < capacity {
                let ghost waiting = sessions[at as int].outbox@;
                sessions[at].outbox.push_back(note.clone());
                proof {
                    assert(note_views(sessions[at as int].outbox@) =~= note_views(waiting).push(note@));
                    assert forall|k: int| 0 <= k < sessions.len() && k != at implies sessions[k]
                        == prior[k] by {}
                }
                taken += 1;
            }
            at += 1;
        }
        proof {
            assert(before.sessions.take(at as int) =~= before.sessions);
            assert(session_views(sessions@) =~= before.broadcast(sender, note@).sessions);
            assert(room_of(self.capacity, self.issued, sessions@) == before.broadcast(sender, note@));
            lemma_broadcast_keeps_wf(before, sender, note@);
        }
        self.sessions = sessions;
        taken
    }

    /// Takes the oldest note that waits for the session with this handle off
    /// its queue, so that notes go out in the order in which they came in.
    /// Gives nothing where no note waits or no such session is open.
    pub fn receive(&mut self, id: SessionId) -> (note: Option<RouteNote>)
        ensures
            match note {
                Some(note) => old(self)@.head(id) == Some(note@),
                None => old(self)@.head(id) is None,
            },
            final(self)@ == old(self)@.received(id),
            final(self)@.wf(),
    {
        proof {
            use_type_invariant(&*self);
        }
        match self.find(id) {
            Some(at) => {
                let ghost before = self@;
                let mut sessions = self.take_sessions();
                let ghost waiting = sessions[at as int].outbox@;
                let note = sessions[at].outbox.pop_front();
                proof {
                    if waiting.len() > 0 {
                        assert(note_views(waiting.subrange(1, waiting.len() as int)) =~= note_views(
                            waiting,
                        ).drop_first());
                    }
                    assert(session_views(sessions@) =~= before.sessions.update(
                        at as int,
                        before.session(id).pop(),
                    ));
                    assert(room_of(self.capacity, self.issued, sessions@) == before.received(id));
                    lemma_received_keeps_wf(before, id);
                }
                self.sessions = sessions;
                note
            },
            None => None,
        }
    }
}

} // verus!
