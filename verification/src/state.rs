//! The state that a node keeps about itself, its peers and the current leader.
use vstd::prelude::*;
use crate::address::Ipv4;

verus! {

/// A node of the cluster: its address and its id.
pub type Node = (Ipv4, u32);

/// What a node knows: the current leader, the nodes it knows of, its own address, id and
/// port, and whether an election that it runs is under way.
pub struct AppState {
    pub leader: Node,
    pub ip_list: Vec<Node>,
    pub node_ip: Ipv4,
    pub node_id: u32,
    pub port: u16,
    pub in_election: bool,
}

/// The mathematical value of an [`AppState`].
pub struct AppStateView {
    pub leader: Node,
    pub ip_list: Seq<Node>,
    pub node_ip: Ipv4,
    pub node_id: u32,
    pub port: u16,
    pub in_election: bool,
}

impl View for AppState {
    type V = AppStateView;

    open spec fn view(&self) -> AppStateView {
        AppStateView {
            leader: self.leader,
            ip_list: self.ip_list@,
            node_ip: self.node_ip,
            node_id: self.node_id,
            port: self.port,
            in_election: self.in_election,
        }
    }
}

/// What a node reports about itself on its status page.
pub struct NodeStatus {
    pub this_node_id: u32,
    pub this_node_ip: Ipv4,
    pub current_leader: Node,
    pub all_nodes: Vec<Node>,
}

/// The mathematical value of a [`NodeStatus`].
pub struct NodeStatusView {
    pub this_node_id: u32,
    pub this_node_ip: Ipv4,
    pub current_leader: Node,
    pub all_nodes: Seq<Node>,
}

impl View for NodeStatus {
    type V = NodeStatusView;

    open spec fn view(&self) -> NodeStatusView {
        NodeStatusView {
            this_node_id: self.this_node_id,
            this_node_ip: self.this_node_ip,
            current_leader: self.current_leader,
            all_nodes: self.all_nodes@,
        }
    }
}

impl AppStateView {
    /// The state of a fresh node that counts itself as leader until told otherwise.
    pub open spec fn initial(node_ip: Ipv4, port: u16, node_id: u32) -> AppStateView {
        AppStateView {
            leader: (node_ip, node_id),
            ip_list: Seq::empty(),
            node_ip,
            node_id,
            port,
            in_election: false,
        }
    }

    /// The state of a fresh node that knows of no leader yet (`0.0.0.0`, id 0).
    pub open spec fn initial_without_leader(node_ip: Ipv4, port: u16, node_id: u32) -> AppStateView {
        AppStateView { leader: (Ipv4(0, 0, 0, 0), 0), ..AppStateView::initial(node_ip, port, node_id) }
    }

    /// The state after `leader` has been recorded as the leader.
    pub open spec fn with_leader(self, leader: Node) -> AppStateView {
        AppStateView { leader, ..self }
    }

    /// The state after an election request, and whether the request starts an election:
    /// one starts only when none is under way.
    pub open spec fn begin_election(self) -> (AppStateView, bool) {
        if self.in_election {
            (self, false)
        } else {
            (AppStateView { in_election: true, ..self }, true)
        }
    }

    /// The state once the node's election has run to its end.
    pub open spec fn end_election(self) -> AppStateView {
        AppStateView { in_election: false, ..self }
    }

    /// The state after this node has won an election: it records itself as leader.
    pub open spec fn declare_self_leader(self) -> AppStateView {
        self.with_leader((self.node_ip, self.node_id))
    }

    /// What the node reports on its status page.
    pub open spec fn status(self) -> NodeStatusView {
        NodeStatusView {
            this_node_id: self.node_id,
            this_node_ip: self.node_ip,
            current_leader: self.leader,
            all_nodes: self.ip_list,
        }
    }
}

/// A copy of a list of nodes.
pub fn copy_nodes(nodes: &Vec<Node>) -> (copy: Vec<Node>)
    ensures
        copy@ == nodes@,
{
    let mut copy: Vec<Node> = Vec::new();
    for i in 0..nodes.len()
        invariant
            copy@ == nodes@.take(i as int),
    {
        copy.push(nodes[i]);
        assert(copy@ =~= nodes@.take(i + 1));
    }
    assert(nodes@.take(nodes.len() as int) =~= nodes@);
    copy
}

impl AppState {
    /// A fresh node at `node_ip`, listening on `port`, with id `node_id`; it knows of no
    /// other node, runs no election, and counts itself as leader.
    pub fn new(node_ip: Ipv4, port: u16, node_id: u32) -> (state: AppState)
        ensures
            state@ == AppStateView::initial(node_ip, port, node_id),
    {
        let state = AppState {
            leader: (node_ip, node_id),
            ip_list: Vec::new(),
            node_ip,
            node_id,
            port,
            in_election: false,
        };
        assert(state@ =~= AppStateView::initial(node_ip, port, node_id));
        state
    }

    /// A fresh node as the server starts it: like [`AppState::new`], but with no leader
    /// known yet (`0.0.0.0`, id 0).
    pub fn with_unknown_leader(node_ip: Ipv4, port: u16, node_id: u32) -> (state: AppState)
        ensures
            state@ == AppStateView::initial_without_leader(node_ip, port, node_id),
    {
        let state = AppState {
            leader: (Ipv4::unspecified(), 0),
            ip_list: Vec::new(),
            node_ip,
            node_id,
            port,
            in_election: false,
        };
        assert(state@ =~= AppStateView::initial_without_leader(node_ip, port, node_id));
        state
    }

    /// Records `leader` as the current leader; nothing else changes.
    pub fn write_new_leader(&mut self, leader: Node)
        ensures
            final(self)@ == old(self)@.with_leader(leader),
    {
        self.leader = leader;
        assert(final(self)@ =~= old(self)@.with_leader(leader));
    }

    /// Handles an election request: starts an election, and returns `true`, only when none
    /// is under way; otherwise nothing changes and it returns `false`.
    pub fn recieve_election(&mut self) -> (started: bool)
        ensures
            (final(self)@, started) == old(self)@.begin_election(),
    {
        if !self.in_election {
            self.in_election = true;
            assert(final(self)@ =~= old(self)@.begin_election().0);
            true
        } else {
            false
        }
    }

    /// Marks the node's election as over.
    pub fn end_election(&mut self)
        ensures
            final(self)@ == old(self)@.end_election(),
    {
        self.in_election = false;
        assert(final(self)@ =~= old(self)@.end_election());
    }

    /// Records this node itself as the leader, as it does when it wins an election.
    pub fn declare_self_leader(&mut self)
        ensures
            final(self)@ == old(self)@.declare_self_leader(),
    {
        let me = (self.node_ip, self.node_id);
        self.write_new_leader(me);
    }

    /// The id of this node.
    pub fn node_id(&self) -> (id: u32)
        ensures
            id == self.node_id,
    {
        self.node_id
    }
}

/// What the node reports on its status page: its id and address, the current leader and
/// the nodes it knows of.
pub fn get_node_status(state: &AppState) -> (status: NodeStatus)
    ensures
        status@ == state@.status(),
{
    let status = NodeStatus {
        this_node_id: state.node_id,
        this_node_ip: state.node_ip,
        current_leader: state.leader,
        all_nodes: copy_nodes(&state.ip_list),
    };
    assert(status@ =~= state@.status());
    status
}


/// While an election is under way, a second election request starts nothing: at most one
/// election runs at a time on a node.
pub proof fn lemma_one_election_at_a_time(s: AppStateView)
    ensures
        s.begin_election().0.in_election,
        !s.begin_election().0.begin_election().1,
        s.begin_election().0.begin_election().0 == s.begin_election().0,
{
}

/// Once its election is over, a node starts a new one at the next request.
pub proof fn lemma_election_restarts(s: AppStateView)
    ensures
        s.end_election().begin_election().1,
{
}

/// Starting or ending an election leaves the leader and the list of nodes as they were.
pub proof fn lemma_election_flag_keeps_leader(s: AppStateView)
    ensures
        s.begin_election().0.leader == s.leader,
        s.begin_election().0.ip_list == s.ip_list,
        s.end_election().leader == s.leader,
        s.end_election().ip_list == s.ip_list,
{
}

/// The status page shows the leader that was last recorded, and recording a leader changes
/// nothing else that it shows.
pub proof fn lemma_status_shows_recorded_leader(s: AppStateView, leader: Node)
    ensures
        s.with_leader(leader).status().current_leader == leader,
        s.with_leader(leader).status().this_node_id == s.status().this_node_id,
        s.with_leader(leader).status().this_node_ip == s.status().this_node_ip,
        s.with_leader(leader).status().all_nodes == s.status().all_nodes,
{
}

/// Of two leaders recorded one after the other, the second is the one that stays.
pub proof fn lemma_last_leader_wins(s: AppStateView, first: Node, second: Node)
    ensures
        s.with_leader(first).with_leader(second) == s.with_leader(second),
{
}

/// The state after `k` election requests handled one after the other, and what each
/// request answered (whether it started an election), in order.
pub open spec fn handle_election_requests(s: AppStateView, k: nat) -> (AppStateView, Seq<bool>)
    decreases k,
{
    if k == 0 {
        (s, Seq::empty())
    } else {
        let (before, started) = handle_election_requests(s, (k - 1) as nat);
        let (after, starts) = before.begin_election();
        (after, started.push(starts))
    }
}

/// Of any number of election requests that reach a node with no election under way, the
/// first starts an election and every later one starts nothing; afterwards an election is
/// under way, and nothing else has changed.
pub proof fn lemma_requests_start_one_election(s: AppStateView, k: nat)
    requires
        !s.in_election,
        k >= 1,
    ensures
        handle_election_requests(s, k).1.len() == k,
        handle_election_requests(s, k).1[0],
        forall|i: int| 1 <= i < k ==> !#[trigger] handle_election_requests(s, k).1[i],
        handle_election_requests(s, k).0 == s.begin_election().0,
    decreases k,
{
    if k > 1 {
        lemma_requests_start_one_election(s, (k - 1) as nat);
        let prev = handle_election_requests(s, (k - 1) as nat);
        assert forall|i: int| 1 <= i < k implies !#[trigger] handle_election_requests(s, k).1[i] by {
            if i < k - 1 {
                assert(handle_election_requests(s, k).1[i] == prev.1[i]);
            }
        }
        assert(handle_election_requests(s, k).1[0] == prev.1[0]);
    } else {
        assert(handle_election_requests(s, 0).1 =~= Seq::<bool>::empty());
    }
}

/// The status page lists exactly the nodes the node knows of, all of them, in the order it
/// knows them, and shows the node's own id and address and the recorded leader.
pub proof fn lemma_status_lists_all_nodes(s: AppStateView)
    ensures
        s.status().all_nodes.len() == s.ip_list.len(),
        forall|i: int| 0 <= i < s.ip_list.len() ==> #[trigger] s.status().all_nodes[i] == s.ip_list[i],
        s.status().this_node_id == s.node_id,
        s.status().this_node_ip == s.node_ip,
        s.status().current_leader == s.leader,
{
}

} // verus!
