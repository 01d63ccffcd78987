//! Leader election among the coordinator nodes (the bully algorithm): the
//! decisions that a node takes on each message and at each step of an
//! election, and the five-byte messages that the nodes exchange.
use vstd::prelude::*;
use crate::text::{append_natural, append_string, append_text, nat_text};

verus! {

/// The number of coordinator nodes; their ids are `0..N_NODES`.
pub const N_NODES: u32 = 5;

/// The id recorded as leader once the nodes have been told to close.
pub const NON_LEADER_ID: u32 = 4294967295;

/// A node checks that the leader is alive.
pub const PING: u8 = 80; // 'P'
/// A node calls an election.
pub const ELECTION: u8 = 69; // 'E'
/// A node proclaims itself leader.
pub const LEADER: u8 = 76; // 'L'
/// A node answers an election call from a node with a lower id.
pub const OK: u8 = 79; // 'O'
/// The nodes are told to close.
pub const CLOSE: u8 = 88; // 'X'
/// An answer to a ping, or a wake-up call to a node's own ping socket.
pub const PONG: u8 = 90; // 'Z'

// ---------------------------------------------------------------------------
// Addresses
// ---------------------------------------------------------------------------

/// `host:port`.
pub open spec fn address_text(host: Seq<char>, port: nat) -> Seq<char> {
    host + seq![':'] + nat_text(port)
}

fn address(host: &String, port: u32) -> (res: String)
    ensures
        res@ == address_text(host@, port as nat),
{
    let mut out = String::new();
    append_string(&mut out, host);
    append_text(&mut out, ":");
    append_natural(&mut out, port as u64);
    proof {
        reveal_strlit(":");
    }
    assert(out@ =~= address_text(host@, port as nat));
    out
}

/// The address of the socket on which node `id` answers pings: `id + 1`
/// below the base port.
pub fn to_pingaddr(host: String, port: u32, id: u32) -> (res: String)
    requires
        id < port,
    ensures
        res@ == address_text(host@, (port - id - 1) as nat),
{
    address(&host, port - id - 1)
}

/// The address of the socket on which node `id` takes election messages:
/// `id` above the base port.
pub fn to_workaddr(host: String, port: u32, id: u32) -> (res: String)
    requires
        port + id <= u32::MAX,
    ensures
        res@ == address_text(host@, (port + id) as nat),
{
    address(&host, port + id)
}

// ---------------------------------------------------------------------------
// Messages
// ---------------------------------------------------------------------------

/// A message: a header byte, then the sender's id in little-endian order.
pub open spec fn message_bytes(header: u8, id: u32) -> Seq<u8> {
    seq![
        header,
        (id % 256) as u8,
        ((id / 256) % 256) as u8,
        ((id / 65536) % 256) as u8,
        (id / 16777216) as u8,
    ]
}

/// The id that four little-endian bytes hold.
pub open spec fn le_value(b0: u8, b1: u8, b2: u8, b3: u8) -> int {
    b0 + b1 * 256 + b2 * 65536 + b3 * 16777216
}

/// The message that node `id` sends with the given header.
pub fn id_to_msg(id: u32, header: u8) -> (res: Vec<u8>)
    ensures
        res@ == message_bytes(header, id),
{
    let res = vec![
        header,
        (id % 256) as u8,
        ((id / 256) % 256) as u8,
        ((id / 65536) % 256) as u8,
        (id / 16777216) as u8,
    ];
    assert(res@ =~= message_bytes(header, id));
    res
}

/// The header and the sender's id of a five-byte message.
pub fn decode_msg(buf: &[u8]) -> (res: (u8, u32))
    requires
        buf@.len() == 5,
    ensures
        res.0 == buf@[0],
        res.1 == le_value(buf@[1], buf@[2], buf@[3], buf@[4]),
{
    let id: u32 = (buf[1] as u32) + (buf[2] as u32) * 256 + (buf[3] as u32) * 65536 + (buf[4] as u32)
        * 16777216;
    (buf[0], id)
}

/// A message reads back as the header and the id that it was made of.
pub proof fn lemma_message_roundtrip(header: u8, id: u32)
    ensures
        message_bytes(header, id)[0] == header,
        le_value(
            message_bytes(header, id)[1],
            message_bytes(header, id)[2],
            message_bytes(header, id)[3],
            message_bytes(header, id)[4],
        ) == id,
{
    let b = message_bytes(header, id);
    assert(b[1] == id % 256);
    assert(b[2] == (id / 256) % 256);
    assert(b[3] == (id / 65536) % 256);
    assert(b[4] == id / 16777216);
    assert((id % 256) + ((id / 256) % 256) * 256 + ((id / 65536) % 256) * 65536 + (id / 16777216)
        * 16777216 == id) by (nonlinear_arith);
}

// ---------------------------------------------------------------------------
// The state of a node
// ---------------------------------------------------------------------------

/// What a node knows of the election.
#[derive(Clone, Copy, PartialEq, Eq, Structural, Debug)]
pub struct ElectionState {
    /// This node's id.
    pub id: u32,
    /// The leader, or `None` while an election runs.
    pub current_leader: Option<u32>,
    /// Whether this node runs an election.
    pub electing: bool,
    /// Whether a node with a higher id answered this node's election call.
    pub got_ok: bool,
    /// Whether the leader changed since the last time it was looked at.
    pub leader_changed: bool,
    /// Whether the nodes were told to close.
    pub finished: bool,
}

/// What a node does in answer to a message, besides updating its state.
#[derive(Clone, Copy, PartialEq, Eq, Structural, Debug)]
pub enum Reaction {
    /// Nothing to send.
    Nothing,
    /// Answer the sender with `PONG` through the ping socket.
    AnswerPing,
    /// Answer the sender with `OK` through the election socket, then call
    /// an election.
    AnswerElection,
    /// Send `PONG` from the election socket to the node's own ping socket,
    /// to wake the pinger.
    WakePinger,
}

/// What the pinger does next.
#[derive(Clone, Copy, PartialEq, Eq, Structural, Debug)]
pub enum PingPlan {
    /// This node leads: wait for pings without a time limit.
    AwaitPings,
    /// Ping the leader with this id, and wait for its answer within the
    /// time limit.
    PingLeader(u32),
}

/// What a node does at the end of the waiting time of its election.
#[derive(Clone, Copy, PartialEq, Eq, Structural, Debug)]
pub enum Conclusion {
    /// A node with a higher id answered: wait until the new leader is known.
    AwaitLeader,
    /// No one answered: this node now leads, and proclaims it to the others.
    Proclaim,
}

/// The state after `leader` is recorded as leader.
pub open spec fn with_leader(s: ElectionState, leader: u32) -> ElectionState {
    ElectionState { current_leader: Some(leader), leader_changed: true, ..s }
}

/// The state and the reaction after a message with the given header from
/// node `from`.
pub open spec fn spec_process_message(s: ElectionState, msg: u8, from: u32) -> (
    ElectionState,
    Reaction,
) {
    if msg == PING {
        (s, Reaction::AnswerPing)
    } else if msg == ELECTION {
        if s.id <= from {
            (s, Reaction::Nothing)
        } else {
            (s, Reaction::AnswerElection)
        }
    } else if msg == LEADER {
        (with_leader(s, from), Reaction::WakePinger)
    } else if msg == OK {
        (ElectionState { got_ok: true, ..s }, Reaction::Nothing)
    } else if msg == CLOSE {
        (with_leader(ElectionState { finished: true, ..s }, NON_LEADER_ID), Reaction::Nothing)
    } else {
        (s, Reaction::Nothing)
    }
}

/// A close call stops the node and records a change of leader to the
/// non-leader id, which releases a coordinator waiting for a change; the
/// rest of the state stays.
pub proof fn lemma_close_records_change(s: ElectionState, from: u32)
    ensures
        spec_process_message(s, CLOSE, from).0 == (ElectionState {
            finished: true,
            current_leader: Some(NON_LEADER_ID),
            leader_changed: true,
            ..s
        }),
        spec_process_message(s, CLOSE, from).0.leader_changed,
        spec_process_message(s, CLOSE, from).1 == Reaction::Nothing,
{
}

/// Whenever a message sets the leader, the change is recorded: a leader
/// proclamation makes its sender leader and a close call the non-leader id,
/// both with `leader_changed` set; no other message touches the leader, the
/// change flag or the closing flag, and only `OK` records an answer.
pub proof fn lemma_message_effects(s: ElectionState, msg: u8, from: u32)
    ensures
        ({
            let (t, r) = spec_process_message(s, msg, from);
            &&& t.id == s.id
            &&& t.electing == s.electing
            &&& (t.current_leader != s.current_leader || msg == LEADER || msg == CLOSE)
                ==> t.leader_changed
            &&& msg == LEADER ==> t.current_leader == Some(from) && r == Reaction::WakePinger
            &&& msg == CLOSE ==> t.current_leader == Some(NON_LEADER_ID) && t.finished
            &&& msg != LEADER && msg != CLOSE ==> t.current_leader == s.current_leader
                && t.leader_changed == s.leader_changed && t.finished == s.finished
            &&& t.got_ok == (s.got_ok || msg == OK)
            &&& msg == ELECTION ==> (r == Reaction::AnswerElection <==> from < s.id)
            &&& msg == PING ==> r == Reaction::AnswerPing
        }),
{
}

impl ElectionState {
    /// A node that starts by taking itself as leader.
    pub fn new(id: u32) -> (res: ElectionState)
        ensures
            res == (ElectionState {
                id,
                current_leader: Some(id),
                electing: false,
                got_ok: false,
                leader_changed: false,
                finished: false,
            }),
    {
        ElectionState {
            id,
            current_leader: Some(id),
            electing: false,
            got_ok: false,
            leader_changed: false,
            finished: false,
        }
    }

    /// Whether the nodes were told to close.
    pub fn is_done(&self) -> (res: bool)
        ensures
            res == self.finished,
    {
        self.finished
    }

    /// Whether this node leads.
    pub fn am_i_leader(&self) -> (res: bool)
        ensures
            res == (self.current_leader == Some(self.id)),
    {
        match self.current_leader {
            Some(l) => l == self.id,
            None => false,
        }
    }

    /// Records a new leader.
    pub fn make_leader(&mut self, id_from: u32)
        ensures
            *final(self) == with_leader(*old(self), id_from),
    {
        self.current_leader = Some(id_from);
        self.leader_changed = true;
    }

    /// Updates the state on a message and says what to send in answer.
    pub fn process_message(&mut self, msg: u8, id_from: u32) -> (res: Reaction)
        ensures
            (*final(self), res) == spec_process_message(*old(self), msg, id_from),
    {
        if msg == PING {
            Reaction::AnswerPing
        } else if msg == ELECTION {
            if self.id <= id_from {
                Reaction::Nothing
            } else {
                Reaction::AnswerElection
            }
        } else if msg == LEADER {
            self.make_leader(id_from);
            Reaction::WakePinger
        } else if msg == OK {
            self.got_ok = true;
            Reaction::Nothing
        } else if msg == CLOSE {
            self.finished = true;
            self.make_leader(NON_LEADER_ID);
            Reaction::Nothing
        } else {
            Reaction::Nothing
        }
    }

    /// Starts an election, unless one is running: the leader becomes
    /// unknown and no answer has come yet. Says whether an election started.
    pub fn begin_election(&mut self) -> (started: bool)
        ensures
            started == !old(self).electing,
            started ==> *final(self) == (ElectionState {
                electing: true,
                current_leader: None,
                got_ok: false,
                ..*old(self)
            }),
            !started ==> *final(self) == *old(self),
    {
        if self.electing {
            return false;
        }
        self.electing = true;
        self.current_leader = None;
        self.got_ok = false;
        true
    }

    /// Decides, once the waiting time is over, how the election ends: a
    /// node that got no answer from a higher id becomes the leader.
    pub fn conclude_election(&mut self) -> (res: Conclusion)
        ensures
            old(self).got_ok ==> res == Conclusion::AwaitLeader && *final(self) == *old(self),
            !old(self).got_ok ==> res == Conclusion::Proclaim && *final(self) == with_leader(
                *old(self),
                old(self).id,
            ),
    {
        if self.got_ok {
            Conclusion::AwaitLeader
        } else {
            let me = self.id;
            self.make_leader(me);
            Conclusion::Proclaim
        }
    }

    /// Ends an election.
    pub fn finish_election(&mut self)
        ensures
            *final(self) == (ElectionState { electing: false, ..*old(self) }),
    {
        self.electing = false;
    }

    /// Marks the leader change as seen.
    pub fn take_leader_change(&mut self)
        ensures
            *final(self) == (ElectionState { leader_changed: false, ..*old(self) }),
    {
        self.leader_changed = false;
    }

    /// Records that the nodes are told to close.
    pub fn close(&mut self)
        ensures
            *final(self) == (ElectionState { finished: true, ..*old(self) }),
    {
        self.finished = true;
    }

    /// What the pinger does next, once the leader is known.
    pub fn ping_plan(&self) -> (res: PingPlan)
        requires
            self.current_leader is Some,
        ensures
            self.current_leader == Some(self.id) ==> res == PingPlan::AwaitPings,
            self.current_leader != Some(self.id) ==> res == PingPlan::PingLeader(
                self.current_leader->0,
            ),
    {
        match self.current_leader {
            Some(lid) => if lid == self.id {
                PingPlan::AwaitPings
            } else {
                PingPlan::PingLeader(lid)
            },
            None => PingPlan::AwaitPings,
        }
    }
}

// ---------------------------------------------------------------------------
// Whom to tell
// ---------------------------------------------------------------------------

/// The ids of the nodes to which node `id` calls an election: those above
/// it.
pub fn election_targets(id: u32) -> (res: Vec<u32>)
    ensures
        forall|k: int|
            0 <= k < res.len() ==> id < #[trigger] res@[k] < N_NODES && res@[k] == id + 1 + k,
        res.len() == if id < N_NODES {
            N_NODES - id - 1
        } else {
            0
        },
{
    let mut res: Vec<u32> = Vec::new();
    if id >= N_NODES {
        return res;
    }
    let mut i: u32 = id + 1;
    while i < N_NODES
        invariant
            id < N_NODES,
            id + 1 <= i <= N_NODES,
            res.len() == i - id - 1,
            forall|k: int| 0 <= k < res.len() ==> #[trigger] res@[k] == id + 1 + k,
        decreases N_NODES - i,
    {
        res.push(i);
        i = i + 1;
    }
    res
}

/// The ids of every node but `id`, to which a leader proclamation and a
/// close call go.
pub fn other_nodes(id: u32) -> (res: Vec<u32>)
    ensures
        forall|x: u32| res@.contains(x) <==> x < N_NODES && x != id,
        res@.no_duplicates(),
        forall|a: int, b: int| 0 <= a < b < res.len() ==> res@[a] < res@[b],
{
    let mut res: Vec<u32> = Vec::new();
    let mut i: u32 = 0;
    while i < N_NODES
        invariant
            i <= N_NODES,
            forall|x: u32| res@.contains(x) <==> x < i && x != id,
            forall|k: int| 0 <= k < res.len() ==> #[trigger] res@[k] < i,
            res@.no_duplicates(),
            forall|a: int, b: int| 0 <= a < b < res.len() ==> res@[a] < res@[b],
        decreases N_NODES - i,
    {
        if i != id {
            let ghost prev = res@;
            res.push(i);
            assert(res@ == prev.push(i));
            assert forall|x: u32| res@.contains(x) implies x < i + 1 && x != id by {
                let k = choose|k: int| 0 <= k < res.len() && res@[k] == x;
                if k < prev.len() {
                    assert(prev[k] == x);
                    assert(prev.contains(x));
                }
            }
            assert forall|x: u32| x < i + 1 && x != id implies res@.contains(x) by {
                if x == i {
                    assert(res@[res.len() - 1] == i);
                } else {
                    assert(prev.contains(x));
                    let k = choose|k: int| 0 <= k < prev.len() && prev[k] == x;
                    assert(res@[k] == x);
                }
            }
        } else {
            assert forall|x: u32| res@.contains(x) <==> x < i + 1 && x != id by {
                if res@.contains(x) {
                    let k = choose|k: int| 0 <= k < res.len() && res@[k] == x;
                    assert(res@[k] < i);
                }
            }
        }
        i = i + 1;
    }
    res
}

} // verus!
