//! The messages that nodes send each other during an election.
use vstd::prelude::*;
use crate::address::{http_url, ipv4_text, peer_url, Ipv4};
use crate::election::{is_leader_after, wins};
use crate::state::{AppState, AppStateView, Node};

verus! {

/// The two endpoints through which nodes talk about leadership.
#[derive(Clone, Copy, Debug, PartialEq, Eq, Structural)]
pub enum MessageEndpoints {
    Coordinator,
    Election,
}

/// The path of an endpoint.
pub open spec fn endpoint_path(endpoint: MessageEndpoints) -> Seq<char> {
    match endpoint {
        MessageEndpoints::Coordinator => "recieve_coordinator"@,
        MessageEndpoints::Election => "recieve_election"@,
    }
}

impl MessageEndpoints {
    /// The path under which a node serves this endpoint.
    pub fn as_str(&self) -> (path: &'static str)
        ensures
            path@ == endpoint_path(*self),
    {
        match self {
            MessageEndpoints::Coordinator => "recieve_coordinator",
            MessageEndpoints::Election => "recieve_election",
        }
    }
}

/// A message that names a node: its address and its id.
#[derive(Clone, Copy, Debug, PartialEq, Eq, Structural)]
pub struct MessageType {
    pub ip: Ipv4,
    pub node_id: u32,
}

/// The announcement of a new leader that a node receives.
#[derive(Clone, Copy, Debug, PartialEq, Eq, Structural)]
pub struct CoordinatorInfo {
    pub node_id: u32,
    pub ip: Ipv4,
}

/// The URL of `endpoint` on the node that `msg` names, on `port`.
pub fn unicast_url(port: u16, msg: &MessageType, endpoint: &MessageEndpoints) -> (url: String)
    ensures
        url@ == http_url(ipv4_text(msg.ip), port as nat, endpoint_path(*endpoint)),
{
    peer_url(msg.ip, port, endpoint.as_str())
}

/// The URLs of `endpoint` on each of `ips`, in the same order, all on `port`.
pub fn endpoint_urls(ips: &Vec<Ipv4>, port: u16, endpoint: MessageEndpoints) -> (urls: Vec<String>)
    ensures
        urls.len() == ips.len(),
        forall|i: int|
            0 <= i < ips.len() ==> #[trigger] urls[i]@ == http_url(
                ipv4_text(ips[i]),
                port as nat,
                endpoint_path(endpoint),
            ),
{
    let mut urls: Vec<String> = Vec::new();
    for i in 0..ips.len()
        invariant
            urls.len() == i,
            forall|k: int|
                0 <= k < i ==> #[trigger] urls[k]@ == http_url(
                    ipv4_text(ips[k]),
                    port as nat,
                    endpoint_path(endpoint),
                ),
    {
        urls.push(peer_url(ips[i], port, endpoint.as_str()));
    }
    urls
}

/// The announcement that a node sends when it becomes leader: its own address and id.
pub fn coordinator_message(state: &AppState) -> (msg: MessageType)
    ensures
        msg == (MessageType { ip: state.node_ip, node_id: state.node_id }),
{
    MessageType { ip: state.node_ip, node_id: state.node_id }
}

impl AppState {
    /// Handles a leader announcement: records the announced node as leader.
    pub fn recieve_coordinator(&mut self, payload: CoordinatorInfo)
        ensures
            final(self)@ == old(self)@.with_leader((payload.ip, payload.node_id)),
    {
        self.write_new_leader((payload.ip, payload.node_id));
    }
}

/// The addresses of `nodes`, in order.
pub open spec fn addresses(nodes: Seq<Node>) -> Seq<Ipv4> {
    nodes.map_values(|n: Node| n.0)
}

/// The nodes to which a new leader announces itself: every node of `ip_list`, in order.
pub fn coordinator_targets(ip_list: &Vec<Node>) -> (ips: Vec<Ipv4>)
    ensures
        ips@ == addresses(ip_list@),
{
    let mut ips: Vec<Ipv4> = Vec::new();
    for i in 0..ip_list.len()
        invariant
            ips@ == addresses(ip_list@.take(i as int)),
    {
        ips.push(ip_list[i].0);
        assert(ips@ =~= addresses(ip_list@.take(i + 1)));
    }
    assert(ip_list@.take(ip_list.len() as int) =~= ip_list@);
    ips
}

/// What an election leaves behind, before the node's flag is released: when the node wins,
/// it records itself as leader; otherwise nothing changes.
pub open spec fn election_outcome(s: AppStateView, candidates: Seq<Ipv4>, responses: Seq<Option<u16>>) -> AppStateView {
    if wins(candidates, responses) {
        s.declare_self_leader()
    } else {
        s
    }
}

impl AppState {
    /// Concludes an election, given the nodes it challenged, their replies (`None` for a
    /// request that got no reply) and the list of nodes read when it started. When the node
    /// wins, it records itself as leader and returns the announcement to send, naming
    /// itself, and the addresses of every listed node to send it to; otherwise nothing
    /// changes and there is nothing to announce. The election flag stays set until
    /// [`AppState::end_election`], once the announcements are out.
    pub fn finish_election(
        &mut self,
        candidates: &Vec<Ipv4>,
        responses: &Vec<Option<u16>>,
        ip_list: &Vec<Node>,
    ) -> (announce: Option<(MessageType, Vec<Ipv4>)>)
        ensures
            final(self)@ == election_outcome(old(self)@, candidates@, responses@),
            wins(candidates@, responses@) ==> (announce matches Some((m, t)) && m == (MessageType {
                ip: old(self).node_ip,
                node_id: old(self).node_id,
            }) && t@ == addresses(ip_list@)),
            !wins(candidates@, responses@) ==> announce is None,
    {
        if is_leader_after(candidates, responses) {
            self.declare_self_leader();
            let msg = coordinator_message(self);
            Some((msg, coordinator_targets(ip_list)))
        } else {
            None
        }
    }
}

/// An election run to its end: the node records itself as leader and announces to every
/// listed node exactly when it had no one to challenge or no one answered; otherwise only
/// its election flag changes. Either way, the flag is released.
pub proof fn lemma_election_round(s: AppStateView, candidates: Seq<Ipv4>, responses: Seq<Option<u16>>)
    ensures
        election_outcome(s, candidates, responses).end_election() == (if wins(candidates, responses) {
            s.declare_self_leader().end_election()
        } else {
            s.end_election()
        }),
        !election_outcome(s, candidates, responses).end_election().in_election,
        wins(candidates, responses) ==> election_outcome(s, candidates, responses).end_election().leader == (s.node_ip, s.node_id),
        !wins(candidates, responses) ==> election_outcome(s, candidates, responses).end_election().leader == s.leader,
        election_outcome(s, candidates, responses).end_election().ip_list == s.ip_list,
{
}

} // verus!
