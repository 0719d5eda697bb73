//! The broadcast hub: the live connections, and what each receives when a
//! vote changes.
//!
//! The hub decides who gets which message. Sending is the caller's part, and
//! a send that fails concerns no other connection.

use crate::model::Vote;
use crate::table::StrMap;
use vstd::prelude::*;
use vstd::string::*;

verus! {

/// What the backing store did to a record.
#[derive(Debug, Clone, Copy, PartialEq, Eq, Structural)]
pub enum Action {
    Create,
    Update,
    Delete,
    /// An action the service has no name for.
    Other,
}

/// A change of a vote, as observers hear of it.
#[derive(Debug, PartialEq, Eq)]
pub struct VoteEvent {
    pub action: Action,
    pub vote: Vote,
}

/// One message for one connection.
#[derive(Debug, PartialEq, Eq)]
pub struct Delivery {
    pub connection_id: String,
    pub message: String,
}

/// The part of a message that names the action: `-c:`, `-u:` or `-d:`, and
/// nothing for an action without a name.
pub open spec fn action_tag(action: Action) -> Seq<char> {
    match action {
        Action::Create => seq!['-', 'c', ':'],
        Action::Update => seq!['-', 'u', ':'],
        Action::Delete => seq!['-', 'd', ':'],
        Action::Other => Seq::empty(),
    }
}

/// The message for a change of a vote: `v`, the action's tag, the voter's
/// name, a comma, the candidate's name.
pub open spec fn event_message(
    action: Action,
    voter_name: Seq<char>,
    candidate_name: Seq<char>,
) -> Seq<char> {
    seq!['v'] + action_tag(action) + voter_name + seq![','] + candidate_name
}

/// Writes the message for `event`.
pub fn format_event(event: &VoteEvent) -> (message: String)
    ensures
        message@ == event_message(event.action, event.vote.voter_name@, event.vote.candidate_name@),
{
    let mut message = String::from_str("v");
    let tag = match event.action {
        Action::Create => "-c:",
        Action::Update => "-u:",
        Action::Delete => "-d:",
        Action::Other => "",
    };
    proof {
        reveal_strlit("v");
        reveal_strlit("-c:");
        reveal_strlit("-u:");
        reveal_strlit("-d:");
        reveal_strlit("");
        reveal_strlit(",");
        assert(tag@ =~= action_tag(event.action));
        assert("v"@ =~= seq!['v']);
        assert(","@ =~= seq![',']);
    }
    message.append(tag);
    message.append(event.vote.voter_name.as_str());
    message.append(",");
    message.append(event.vote.candidate_name.as_str());
    message
}

/// The connections of `deliveries`, in order.
pub open spec fn recipients(deliveries: Seq<Delivery>) -> Seq<Seq<char>> {
    Seq::new(deliveries.len(), |i: int| deliveries[i].connection_id@)
}

/// Registry of live connections, each with the sink that reaches it.
pub struct Hub<S> {
    sinks: StrMap<S>,
}

impl<S> View for Hub<S> {
    type V = Map<Seq<char>, S>;

    /// The sinks by connection id.
    closed spec fn view(&self) -> Map<Seq<char>, S> {
        self.sinks@
    }
}

impl<S> Hub<S> {
    /// Ids of the live connections, in the order they registered. No id
    /// occurs twice.
    pub closed spec fn connections(&self) -> Seq<Seq<char>> {
        self.sinks.keys()
    }

    /// A hub without connections.
    pub fn new() -> (hub: Hub<S>)
        ensures
            hub@ == Map::<Seq<char>, S>::empty(),
            hub.connections() == Seq::<Seq<char>>::empty(),
    {
        Hub { sinks: StrMap::new() }
    }

    /// Number of live connections.
    pub fn len(&self) -> (n: usize)
        ensures
            n == self.connections().len(),
            n == self@.dom().len(),
            self.connections().no_duplicates(),
            forall|id: Seq<char>| self@.contains_key(id) <==> self.connections().contains(id),
    {
        proof {
            use_type_invariant(&self.sinks);
            self.sinks.lemma_rows();
        }
        self.sinks.len()
    }

    /// Adds a connection. An id that is registered already keeps its place
    /// and gets the new sink.
    pub fn register(&mut self, connection_id: String, sink: S)
        ensures
            final(self)@ == old(self)@.insert(connection_id@, sink),
            final(self).connections() == (if old(self).connections().contains(connection_id@) {
                old(self).connections()
            } else {
                old(self).connections().push(connection_id@)
            }),
    {
        self.sinks.insert(connection_id, sink);
    }

    /// Removes a connection and returns its sink. An unknown id changes
    /// nothing.
    pub fn unregister(&mut self, connection_id: &str) -> (sink: Option<S>)
        ensures
            final(self)@ == old(self)@.remove(connection_id@),
            final(self).connections() == (if old(self).connections().contains(connection_id@) {
                old(self).connections().remove(old(self).connections().index_of(connection_id@))
            } else {
                old(self).connections()
            }),
            match sink {
                Some(found) => old(self)@.contains_key(connection_id@) && found == old(
                    self,
                )@[connection_id@],
                None => !old(self)@.contains_key(connection_id@),
            },
    {
        let id = connection_id.to_owned();
        self.sinks.remove(&id)
    }

    /// Id of the connection in place `i`.
    pub fn connection_at(&self, i: usize) -> (connection_id: &String)
        requires
            i < self.connections().len(),
        ensures
            connection_id@ == self.connections()[i as int],
    {
        self.sinks.key_at(i)
    }

    /// The sink of a connection, if it is live.
    pub fn sink(&self, connection_id: &str) -> (found: Option<&S>)
        ensures
            match found {
                Some(sink) => self@.contains_key(connection_id@) && *sink == self@[connection_id@],
                None => !self@.contains_key(connection_id@),
            },
    {
        let id = connection_id.to_owned();
        self.sinks.get(&id)
    }

    /// What to send so that `message` reaches everybody: the message, once
    /// to every live connection, in the order of `connections`.
    pub fn deliver(&self, message: &str) -> (deliveries: Vec<Delivery>)
        ensures
            recipients(deliveries@) == self.connections(),
            forall|i: int|
                0 <= i < deliveries.len() ==> (#[trigger] deliveries[i]).message@ == message@,
    {
        let mut deliveries: Vec<Delivery> = Vec::new();
        let n = self.sinks.len();
        let mut i: usize = 0;
        while i < n
            invariant
                i <= n,
                n == self.connections().len(),
                deliveries.len() == i,
                forall|j: int|
                    0 <= j < i ==> (#[trigger] deliveries[j]).connection_id@
                        == self.connections()[j],
                forall|j: int| 0 <= j < i ==> (#[trigger] deliveries[j]).message@ == message@,
            decreases n - i,
        {
            deliveries.push(
                Delivery {
                    connection_id: self.sinks.key_at(i).clone(),
                    message: message.to_owned(),
                },
            );
            i = i + 1;
        }
        proof {
            assert(recipients(deliveries@) =~= self.connections());
        }
        deliveries
    }

    /// What to send for `event`: its message, once to every live connection,
    /// in the order of `connections`.
    pub fn broadcast(&self, event: &VoteEvent) -> (deliveries: Vec<Delivery>)
        ensures
            recipients(deliveries@) == self.connections(),
            forall|i: int|
                0 <= i < deliveries.len() ==> (#[trigger] deliveries[i]).message@ == event_message(
                    event.action,
                    event.vote.voter_name@,
                    event.vote.candidate_name@,
                ),
    {
        let message = format_event(event);
        self.deliver(message.as_str())
    }
}

/// What a live connection sent, as far as the service cares.
#[derive(Debug, PartialEq, Eq)]
pub enum SocketMessage {
    /// A ping with its payload.
    Ping(Vec<u8>),
    /// Any other message.
    Other,
    /// The connection is over, or a message could not be read.
    Closed,
}

/// What to do about a message of a live connection.
#[derive(Debug, PartialEq, Eq)]
pub enum SocketReply {
    /// Answer with a pong that carries this payload.
    Pong(Vec<u8>),
    /// Do nothing.
    Ignore,
    /// Take the connection out of the hub and stop reading.
    Unregister,
}

/// Decides what to do about a message of a live connection: a ping is
/// answered with its own payload, the end of the connection unregisters it,
/// and everything else is ignored.
pub fn handle_socket_message(message: SocketMessage) -> (reply: SocketReply)
    ensures
        match message {
            SocketMessage::Ping(payload) => reply == SocketReply::Pong(payload),
            SocketMessage::Other => reply == SocketReply::Ignore,
            SocketMessage::Closed => reply == SocketReply::Unregister,
        },
{
    match message {
        SocketMessage::Ping(payload) => SocketReply::Pong(payload),
        SocketMessage::Other => SocketReply::Ignore,
        SocketMessage::Closed => SocketReply::Unregister,
    }
}

/// The ids of the live connections.
pub fn get_live_clients<S>(hub: &Hub<S>) -> (ids: Vec<String>)
    ensures
        ids.len() == hub.connections().len(),
        forall|i: int| 0 <= i < ids.len() ==> (#[trigger] ids[i])@ == hub.connections()[i],
{
    let mut ids: Vec<String> = Vec::new();
    let n = hub.len();
    let mut i: usize = 0;
    while i < n
        invariant
            i <= n,
            n == hub.connections().len(),
            ids.len() == i,
            forall|j: int| 0 <= j < i ==> (#[trigger] ids[j])@ == hub.connections()[j],
        decreases n - i,
    {
        ids.push(hub.connection_at(i).clone());
        i = i + 1;
    }
    ids
}

} // verus!
