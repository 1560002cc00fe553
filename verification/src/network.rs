//! The session layer: per-connection rate limiting and the table of live
//! connections.

use vstd::prelude::*;
use vstd::std_specs::iter::IteratorSpec;
use std::collections::HashMap;
use crate::clock::{elapsed_micros, monotonic_now};
use crate::proto::{MessageType, NetworkMessage};
use crate::state_sync::lemma_filter_step;
use crate::types::PlayerId;

verus! {

/// What a connection reports to the server.
#[derive(Debug)]
pub enum NetworkEvent {
    PlayerConnected { player_id: PlayerId },
    PlayerDisconnected { player_id: PlayerId },
    MessageReceived { player_id: PlayerId, message: NetworkMessage },
}

/// Microseconds from `stamp` to `now`; none where `stamp` lies after `now`.
pub open spec fn age(now: u64, stamp: u64) -> int {
    if now >= stamp {
        now - stamp
    } else {
        0
    }
}

/// Whether a message taken at `stamp` still counts at `now`.
pub open spec fn in_window(window: u64, now: u64) -> spec_fn(u64) -> bool {
    |stamp: u64| age(now, stamp) < window
}

/// Lets through at most a fixed number of messages in any window of one second.
pub struct RateLimiter {
    max_messages_per_second: u32,
    window_size: u64,
    message_timestamps: Vec<u64>,
    started: std::time::Instant,
}

impl RateLimiter {
    /// The number of messages let through per window.
    pub closed spec fn limit(&self) -> u32 {
        self.max_messages_per_second
    }

    /// The length of the window, in microseconds.
    pub closed spec fn window(&self) -> u64 {
        self.window_size
    }

    /// When the messages that still count were taken, oldest first, in
    /// microseconds since the limiter was made.
    pub closed spec fn timestamps(&self) -> Seq<u64> {
        self.message_timestamps@
    }

    /// The limiter never holds more messages than its limit.
    pub open spec fn wf(&self) -> bool {
        self.timestamps().len() <= self.limit()
    }

    /// A limiter for `max_messages_per_second` messages in a window of one second.
    pub fn new(max_messages_per_second: u32) -> (l: RateLimiter)
        ensures
            l.wf(),
            l.limit() == max_messages_per_second,
            l.window() == 1_000_000,
            l.timestamps() == Seq::<u64>::empty(),
    {
        RateLimiter {
            max_messages_per_second,
            window_size: 1_000_000,
            message_timestamps: Vec::new(),
            started: monotonic_now(),
        }
    }

    /// Decides on a message that arrives at `now`: forgets the messages that
    /// no longer count, then takes the message if fewer than the limit are
    /// left, and turns it away otherwise.
    pub fn allow_message_at(&mut self, now: u64) -> (allowed: bool)
        requires
            old(self).wf(),
        ensures
            final(self).wf(),
            final(self).limit() == old(self).limit(),
            final(self).window() == old(self).window(),
            allowed == (old(self).timestamps().filter(in_window(old(self).window(), now)).len()
                < old(self).limit()),
            final(self).timestamps() == if allowed {
                old(self).timestamps().filter(in_window(old(self).window(), now)).push(now)
            } else {
                old(self).timestamps().filter(in_window(old(self).window(), now))
            },
    {
        let ghost counts = in_window(self.window_size, now);
        let ghost stamps = self.message_timestamps@;
        let mut kept: Vec<u64> = Vec::new();
        let mut i: usize = 0;
        proof {
            reveal(Seq::filter);
            assert(stamps.take(0).filter(counts) =~= Seq::<u64>::empty());
        }
        while i < self.message_timestamps.len()
            invariant
                i <= self.message_timestamps.len(),
                *self == *old(self),
                stamps == self.message_timestamps@,
                counts == in_window(self.window_size, now),
                kept@ == stamps.take(i as int).filter(counts),
                kept.len() <= i,
            decreases self.message_timestamps.len() - i,
        {
            let stamp = self.message_timestamps[i];
            let elapsed: u64 = if now >= stamp {
                now - stamp
            } else {
                0
            };
            proof {
                lemma_filter_step(stamps, counts, i as int);
            }
            if elapsed < self.window_size {
                kept.push(stamp);
            }
            i += 1;
        }
        assert(stamps.take(stamps.len() as int) =~= stamps);
        let allowed = kept.len() < self.max_messages_per_second as usize;
        if allowed {
            kept.push(now);
        }
        self.message_timestamps = kept;
        allowed
    }

    /// Decides on a message that arrives at the time of the call, as
    /// `allow_message_at` does for that time.
    pub fn allow_message(&mut self) -> (allowed: bool)
        requires
            old(self).wf(),
        ensures
            final(self).wf(),
            final(self).limit() == old(self).limit(),
            final(self).window() == old(self).window(),
            exists|now: u64|
                {
                    let counting = #[trigger] old(self).timestamps().filter(
                        in_window(old(self).window(), now),
                    );
                    &&& allowed == (counting.len() < old(self).limit())
                    &&& final(self).timestamps() == if allowed {
                        counting.push(now)
                    } else {
                        counting
                    }
                },
    {
        let now = elapsed_micros(&self.started);
        self.allow_message_at(now)
    }
}

/// What arrives on a connection.
#[derive(Debug)]
pub enum Frame {
    /// A binary frame that holds a message.
    Message(NetworkMessage),
    /// A binary frame that holds no message.
    Malformed,
    /// A text frame.
    Text,
    /// A transport-level ping with its payload.
    Ping(Vec<u8>),
    /// A transport-level pong.
    Pong,
    /// The peer closes the connection.
    Close,
    /// The transport failed.
    Failed,
    /// Any other frame.
    Other,
}

/// What the connection does about a frame.
#[derive(Debug)]
pub enum Reaction {
    /// Hand the event to the server.
    Deliver(NetworkEvent),
    /// Send a transport-level pong with this payload.
    Pong(Vec<u8>),
    /// Do nothing.
    Ignore,
    /// Stop reading, and report the player as disconnected.
    Disconnect(NetworkEvent),
}

/// The session of one connected client.
pub struct ClientConnection {
    player_id: PlayerId,
    rate_limiter: RateLimiter,
}

/// Whether a message is a player's input, the one kind that is rate limited.
pub open spec fn is_input(message: NetworkMessage) -> bool {
    message.message_type matches Some(MessageType::PlayerInput(_))
}

impl ClientConnection {
    /// The player of the session.
    pub closed spec fn id(&self) -> PlayerId {
        self.player_id
    }

    /// The limiter of the session's inputs.
    pub closed spec fn limiter(&self) -> RateLimiter {
        self.rate_limiter
    }

    pub open spec fn wf(&self) -> bool {
        self.limiter().wf()
    }

    /// A session for `player_id` with a limiter of 30 inputs per second.
    pub fn new(player_id: PlayerId) -> (c: ClientConnection)
        ensures
            c.wf(),
            c.id() == player_id,
            c.limiter().limit() == 30,
            c.limiter().window() == 1_000_000,
            c.limiter().timestamps() == Seq::<u64>::empty(),
    {
        ClientConnection { player_id, rate_limiter: RateLimiter::new(30) }
    }

    /// The player of the session.
    pub fn player_id(&self) -> (id: PlayerId)
        ensures
            id == self.id(),
    {
        self.player_id
    }

    /// The event with which the session announces itself.
    pub fn connected(&self) -> (event: NetworkEvent)
        ensures
            event == (NetworkEvent::PlayerConnected { player_id: self.id() }),
    {
        NetworkEvent::PlayerConnected { player_id: self.player_id }
    }

    /// Decides on a frame that arrives at `now`. A message is delivered,
    /// unless it is an input that the limiter turns away, which is dropped
    /// without an answer; a ping is answered; a close or a failure ends the
    /// session; all else is ignored.
    pub fn receive_at(&mut self, frame: Frame, now: u64) -> (reaction: Reaction)
        requires
            old(self).wf(),
        ensures
            final(self).wf(),
            frame_received(*old(self), *final(self), frame, now, reaction),
    {
        match frame {
            Frame::Message(message) => {
                let should_process = match &message.message_type {
                    Some(MessageType::PlayerInput(_)) => self.rate_limiter.allow_message_at(now),
                    _ => true,
                };
                if should_process {
                    Reaction::Deliver(
                        NetworkEvent::MessageReceived { player_id: self.player_id, message },
                    )
                } else {
                    Reaction::Ignore
                }
            },
            Frame::Ping(payload) => Reaction::Pong(payload),
            Frame::Close => Reaction::Disconnect(
                NetworkEvent::PlayerDisconnected { player_id: self.player_id },
            ),
            Frame::Failed => Reaction::Disconnect(
                NetworkEvent::PlayerDisconnected { player_id: self.player_id },
            ),
            _ => Reaction::Ignore,
        }
    }

    /// Decides on a frame that arrives at the time of the call, as
    /// `receive_at` does for that time.
    pub fn receive(&mut self, frame: Frame) -> (reaction: Reaction)
        requires
            old(self).wf(),
        ensures
            final(self).wf(),
            exists|now: u64| #[trigger] frame_received(*old(self), *final(self), frame, now, reaction),
    {
        let now = elapsed_micros(&self.rate_limiter.started);
        self.receive_at(frame, now)
    }
}

/// What `ClientConnection::receive_at` makes of a frame that arrives at `now`.
///
/// A message is delivered, and an input counts against the limit: where the
/// inputs that still count number the limit already, the input is dropped
/// without an answer. A ping is answered with its payload. A close or a
/// failure ends the session. Any other frame is ignored. Only an input
/// changes what the limiter holds.
pub open spec fn frame_received(
    before: ClientConnection,
    after: ClientConnection,
    frame: Frame,
    now: u64,
    reaction: Reaction,
) -> bool {
    let delivery = Reaction::Deliver(
        NetworkEvent::MessageReceived { player_id: before.id(), message: frame->Message_0 },
    );
    let counting = before.limiter().timestamps().filter(
        in_window(before.limiter().window(), now),
    );
    &&& after.id() == before.id()
    &&& after.limiter().limit() == before.limiter().limit()
    &&& after.limiter().window() == before.limiter().window()
    &&& if frame is Message && is_input(frame->Message_0) {
        if counting.len() < before.limiter().limit() {
            reaction == delivery && after.limiter().timestamps() == counting.push(now)
        } else {
            reaction == Reaction::Ignore && after.limiter().timestamps() == counting
        }
    } else {
        &&& after.limiter().timestamps() == before.limiter().timestamps()
        &&& reaction == match frame {
            Frame::Message(_) => delivery,
            Frame::Ping(payload) => Reaction::Pong(payload),
            Frame::Close | Frame::Failed => Reaction::Disconnect(
                NetworkEvent::PlayerDisconnected { player_id: before.id() },
            ),
            _ => Reaction::Ignore,
        }
    }
}

/// What `NetworkManager::receive_at` makes of a frame on the connection of
/// `player_id`: the session of the player decides on it as `frame_received`
/// says, and no other session changes. Without a session of the player
/// nothing is decided and nothing changes.
pub open spec fn session_received(
    before: Map<PlayerId, ClientConnection>,
    after: Map<PlayerId, ClientConnection>,
    player_id: PlayerId,
    frame: Frame,
    now: u64,
    reaction: Option<Reaction>,
) -> bool {
    if before.contains_key(player_id) {
        &&& reaction is Some
        &&& after.contains_key(player_id)
        &&& after == before.insert(player_id, after[player_id])
        &&& frame_received(before[player_id], after[player_id], frame, now, reaction->0)
    } else {
        after == before && reaction is None
    }
}

/// Whether every session of a table is sound and stands under its own player.
pub open spec fn sessions_wf(sessions: Map<PlayerId, ClientConnection>) -> bool {
    forall|id: PlayerId| #[trigger]
        sessions.contains_key(id) ==> sessions[id].wf() && sessions[id].id() == id
}

/// Whether a session is one that was just opened for `player_id`: its
/// limiter lets 30 inputs through per second and has seen none.
pub open spec fn is_new_session(session: ClientConnection, player_id: PlayerId) -> bool {
    &&& session.id() == player_id
    &&& session.limiter().limit() == 30
    &&& session.limiter().window() == 1_000_000
    &&& session.limiter().timestamps() == Seq::<u64>::empty()
}

/// The table of live sessions, by player.
pub struct NetworkManager {
    connections: HashMap<PlayerId, ClientConnection>,
}

impl NetworkManager {
    /// The live sessions, by player.
    pub closed spec fn sessions(&self) -> Map<PlayerId, ClientConnection> {
        self.connections@
    }

    /// The players with a live session.
    pub open spec fn players(&self) -> Set<PlayerId> {
        self.sessions().dom()
    }

    /// The session of a player that has one.
    pub open spec fn session(&self, id: PlayerId) -> ClientConnection {
        self.sessions()[id]
    }

    /// Every session is sound and stands under its own player.
    pub open spec fn wf(&self) -> bool {
        sessions_wf(self.sessions())
    }

    /// An empty table.
    pub fn new() -> (m: NetworkManager)
        ensures
            m.wf(),
            m.sessions() == Map::<PlayerId, ClientConnection>::empty(),
    {
        NetworkManager { connections: HashMap::new() }
    }

    /// Whether a player has a live session.
    pub fn contains(&self, player_id: PlayerId) -> (found: bool)
        ensures
            found == self.players().contains(player_id),
    {
        broadcast use vstd::std_specs::hash::group_hash_axioms;

        self.connections.contains_key(&player_id)
    }

    /// Adds a session, in place of the one the player had. No other session
    /// changes.
    pub fn add_connection(&mut self, connection: ClientConnection)
        requires
            old(self).wf(),
            connection.wf(),
        ensures
            final(self).wf(),
            final(self).sessions() == old(self).sessions().insert(connection.id(), connection),
    {
        broadcast use vstd::std_specs::hash::group_hash_axioms;

        let player_id = connection.player_id();
        let _ = self.connections.insert(player_id, connection);
    }

    /// Removes the session of a player, if there is one. No other session
    /// changes.
    pub fn remove_connection(&mut self, player_id: PlayerId)
        requires
            old(self).wf(),
        ensures
            final(self).wf(),
            final(self).sessions() == old(self).sessions().remove(player_id),
    {
        broadcast use vstd::std_specs::hash::group_hash_axioms;

        let _ = self.connections.remove(&player_id);
    }

    /// Lets the session of `player_id` decide on a frame that arrives at
    /// `now`.
    pub fn receive_at(&mut self, player_id: PlayerId, frame: Frame, now: u64) -> (reaction: Option<
        Reaction,
    >)
        requires
            old(self).wf(),
        ensures
            final(self).wf(),
            session_received(
                old(self).sessions(),
                final(self).sessions(),
                player_id,
                frame,
                now,
                reaction,
            ),
    {
        broadcast use vstd::std_specs::hash::group_hash_axioms;

        match self.connections.remove(&player_id) {
            Some(connection) => {
                let mut connection = connection;
                let reaction = connection.receive_at(frame, now);
                let _ = self.connections.insert(player_id, connection);
                assert(self.sessions() =~= old(self).sessions().insert(player_id, connection));
                Some(reaction)
            },
            None => {
                assert(self.sessions() =~= old(self).sessions());
                None
            },
        }
    }

    /// Lets the session of `player_id` decide on a frame that arrives at the
    /// time of the call.
    pub fn receive(&mut self, player_id: PlayerId, frame: Frame) -> (reaction: Option<Reaction>)
        requires
            old(self).wf(),
        ensures
            final(self).wf(),
            exists|now: u64| #[trigger]
                session_received(
                    old(self).sessions(),
                    final(self).sessions(),
                    player_id,
                    frame,
                    now,
                    reaction,
                ),
    {
        broadcast use vstd::std_specs::hash::group_hash_axioms;

        match self.connections.remove(&player_id) {
            Some(connection) => {
                let ghost taken = connection;
                let mut connection = connection;
                let reaction = connection.receive(frame);
                let _ = self.connections.insert(player_id, connection);
                proof {
                    assert(self.sessions() =~= old(self).sessions().insert(player_id, connection));
                    let now = choose|now: u64| #[trigger]
                        frame_received(taken, connection, frame, now, reaction);
                    assert(session_received(
                        old(self).sessions(),
                        self.sessions(),
                        player_id,
                        frame,
                        now,
                        Some(reaction),
                    ));
                }
                Some(reaction)
            },
            None => {
                assert(self.sessions() =~= old(self).sessions());
                assert(session_received(
                    old(self).sessions(),
                    self.sessions(),
                    player_id,
                    frame,
                    0,
                    None,
                ));
                None
            },
        }
    }

    /// The number of live sessions.
    pub fn connection_count(&self) -> (n: usize)
        ensures
            self.players().finite(),
            n == self.players().len(),
    {
        broadcast use vstd::std_specs::hash::group_hash_axioms;

        self.connections.len()
    }

    /// The players to whom a broadcast goes: every live session, once.
    pub fn recipients(&self) -> (ids: Vec<PlayerId>)
        ensures
            ids@.no_duplicates(),
            ids@.to_set() == self.players(),
    {
        broadcast use vstd::std_specs::hash::group_hash_axioms;

        let mut ids: Vec<PlayerId> = Vec::new();
        let keys = self.connections.keys();
        for id in iter: keys
            invariant
                ids.len() == iter.index(),
                forall|i: int| 0 <= i < ids.len() ==> ids@[i] == *iter.seq()[i],
        {
            ids.push(*id);
        }
        assert(ids@ =~= self.connections.keys().remaining().unref());
        ids
    }

    /// Ends a broadcast: the sessions to which the send failed are removed,
    /// and no other session changes.
    pub fn remove_failed(&mut self, failed: &Vec<PlayerId>)
        requires
            old(self).wf(),
        ensures
            final(self).wf(),
            final(self).sessions() == old(self).sessions().remove_keys(failed@.to_set()),
    {
        let mut i: usize = 0;
        assert(self.sessions() =~= old(self).sessions().remove_keys(failed@.take(0).to_set()));
        while i < failed.len()
            invariant
                i <= failed.len(),
                self.wf(),
                self.sessions() == old(self).sessions().remove_keys(
                    failed@.take(i as int).to_set(),
                ),
            decreases failed.len() - i,
        {
            self.remove_connection(failed[i]);
            proof {
                let done = failed@.take(i as int);
                let more = failed@.take(i + 1);
                assert(more =~= done.push(failed[i as int]));
                assert(more.to_set() =~= done.to_set().insert(failed[i as int])) by {
                    assert forall|id: PlayerId| more.to_set().contains(id)
                        <==> done.to_set().insert(failed[i as int]).contains(id) by {
                        if more.contains(id) {
                            let k = choose|k: int| 0 <= k < more.len() && more[k] == id;
                            if k < done.len() {
                                assert(done[k] == id);
                            }
                        }
                        if done.contains(id) {
                            let k = choose|k: int| 0 <= k < done.len() && done[k] == id;
                            assert(more[k] == id);
                        }
                        if id == failed[i as int] {
                            assert(more[i as int] == id);
                        }
                    }
                }
                assert(self.sessions() =~= old(self).sessions().remove_keys(more.to_set()));
            }
            i += 1;
        }
        assert(failed@.take(failed.len() as int) =~= failed@);
    }
}

/// The stamps that a limiter holds after the messages that arrive at
/// `times`, one after the other, where it held none before.
pub open spec fn stamps_after(limit: u32, window: u64, times: Seq<u64>) -> Seq<u64>
    decreases times.len(),
{
    if times.len() == 0 {
        Seq::empty()
    } else {
        let counting = stamps_after(limit, window, times.drop_last()).filter(
            in_window(window, times.last()),
        );
        if counting.len() < limit {
            counting.push(times.last())
        } else {
            counting
        }
    }
}

/// The times of the messages that such a limiter lets through.
pub open spec fn accepted_times(limit: u32, window: u64, times: Seq<u64>) -> Seq<u64>
    decreases times.len(),
{
    if times.len() == 0 {
        Seq::empty()
    } else {
        let earlier = accepted_times(limit, window, times.drop_last());
        let counting = stamps_after(limit, window, times.drop_last()).filter(
            in_window(window, times.last()),
        );
        if counting.len() < limit {
            earlier.push(times.last())
        } else {
            earlier
        }
    }
}

/// Whether times never go back.
pub open spec fn ascending(times: Seq<u64>) -> bool {
    forall|i: int, j: int| 0 <= i <= j < times.len() ==> times[i] <= times[j]
}

/// Filtering with a predicate and then with a stricter one is filtering
/// with the stricter one.
proof fn lemma_filter_twice(s: Seq<u64>, loose: spec_fn(u64) -> bool, strict: spec_fn(u64) -> bool)
    requires
        forall|i: int| 0 <= i < s.len() && strict(#[trigger] s[i]) ==> loose(s[i]),
    ensures
        s.filter(loose).filter(strict) == s.filter(strict),
    decreases s.len(),
{
    reveal(Seq::filter);
    if s.len() > 0 {
        let rest = s.drop_last();
        assert forall|i: int| 0 <= i < rest.len() && strict(#[trigger] rest[i]) implies loose(
            rest[i],
        ) by {
            assert(rest[i] == s[i]);
        }
        lemma_filter_twice(rest, loose, strict);
        if loose(s.last()) {
            let kept = rest.filter(loose);
            assert(kept.push(s.last()).drop_last() =~= kept);
        }
    }
}

/// Every accepted time is one of the times, so none lies after the last.
proof fn lemma_accepted_bound(limit: u32, window: u64, times: Seq<u64>)
    requires
        ascending(times),
    ensures
        forall|i: int|
            0 <= i < accepted_times(limit, window, times).len() ==> times.len() > 0 && (
            #[trigger] accepted_times(limit, window, times)[i]) <= times.last(),
    decreases times.len(),
{
    if times.len() > 0 {
        let rest = times.drop_last();
        assert(ascending(rest)) by {
            assert forall|i: int, j: int| 0 <= i <= j < rest.len() implies rest[i] <= rest[j] by {
                assert(rest[i] == times[i] && rest[j] == times[j]);
            }
        }
        lemma_accepted_bound(limit, window, rest);
        let earlier = accepted_times(limit, window, rest);
        let all = accepted_times(limit, window, times);
        assert forall|i: int| 0 <= i < all.len() implies (#[trigger] all[i]) <= times.last() by {
            if i < earlier.len() {
                assert(all[i] == earlier[i]);
                assert(rest.len() > 0);
                assert(rest.last() == times[rest.len() - 1]);
                assert(earlier[i] <= rest.last());
            }
        }
    }
}

/// The rate limit: however the messages arrive, as long as time does not go
/// back, the limiter holds exactly the accepted messages that lie within one
/// window of the last arrival, and these number at most the limit. So no
/// window that ends at an arrival holds more accepted messages than the limit.
pub proof fn lemma_rate_limit(limit: u32, window: u64, times: Seq<u64>)
    requires
        window > 0,
        ascending(times),
        times.len() > 0,
    ensures
        stamps_after(limit, window, times) == accepted_times(limit, window, times).filter(
            in_window(window, times.last()),
        ),
        accepted_times(limit, window, times).filter(in_window(window, times.last())).len()
            <= limit,
    decreases times.len(),
{
    reveal(Seq::filter);
    let rest = times.drop_last();
    let now = times.last();
    let counts = in_window(window, now);
    let earlier = accepted_times(limit, window, rest);
    let held = stamps_after(limit, window, rest);
    assert(ascending(rest)) by {
        assert forall|i: int, j: int| 0 <= i <= j < rest.len() implies rest[i] <= rest[j] by {
            assert(rest[i] == times[i] && rest[j] == times[j]);
        }
    }
    if rest.len() == 0 {
        assert(held =~= Seq::<u64>::empty());
        assert(earlier =~= Seq::<u64>::empty());
    } else {
        lemma_rate_limit(limit, window, rest);
        lemma_accepted_bound(limit, window, rest);
        let before = in_window(window, rest.last());
        assert(rest.last() == times[rest.len() - 1]);
        assert(rest.last() <= now);
        assert forall|i: int| 0 <= i < earlier.len() && counts(#[trigger] earlier[i]) implies before(
            earlier[i],
        ) by {
            assert(earlier[i] <= rest.last());
        }
        lemma_filter_twice(earlier, before, counts);
    }
    assert(held.filter(counts) == earlier.filter(counts));
    let counting = held.filter(counts);
    if counting.len() < limit {
        assert(counts(now));
        assert(earlier.push(now).drop_last() =~= earlier);
    }
}

} // verus!
