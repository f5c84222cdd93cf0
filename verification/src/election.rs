//! The decisions of the bully algorithm: whom a node challenges, and when it wins.
use vstd::prelude::*;
use crate::address::Ipv4;
use crate::state::{AppStateView, Node};

verus! {

/// Keeps the address of a node whose id is above `node_id`.
pub open spec fn higher_than(node_id: u32) -> spec_fn(Node) -> Option<Ipv4> {
    |n: Node| if n.1 > node_id { Some(n.0) } else { None }
}

/// The addresses of the nodes of `ip_list` whose id is above `node_id`, in list order:
/// those that a node with id `node_id` asks whether they are alive when it runs an election.
pub open spec fn candidates(ip_list: Seq<Node>, node_id: u32) -> Seq<Ipv4> {
    ip_list.filter_map(higher_than(node_id))
}

/// The HTTP status that counts as an answer to an election request.
pub open spec fn answered(response: Option<u16>) -> bool {
    response == Some(200u16)
}

/// Whether some node answered, among the replies to the election requests (`None` for a
/// request that got no reply at all).
pub open spec fn any_answered(responses: Seq<Option<u16>>) -> bool {
    exists|i: int| 0 <= i < responses.len() && answered(#[trigger] responses[i])
}

/// Whether a node becomes leader: when it had no one to challenge, or when no one answered.
pub open spec fn wins(candidates: Seq<Ipv4>, responses: Seq<Option<u16>>) -> bool {
    candidates.len() == 0 || !any_answered(responses)
}

/// The nodes that a node with id `node_id` and list `ip_list` challenges when it runs an
/// election.
pub fn election_candidates(ip_list: &Vec<Node>, node_id: u32) -> (ips: Vec<Ipv4>)
    ensures
        ips@ == candidates(ip_list@, node_id),
{
    let mut ips: Vec<Ipv4> = Vec::new();
    for i in 0..ip_list.len()
        invariant
            ips@ == ip_list@.take(i as int).filter_map(higher_than(node_id)),
    {
        proof {
            ip_list@.lemma_filter_map_take_succ(higher_than(node_id), i as int);
        }
        let (ip, id) = ip_list[i];
        if id > node_id {
            ips.push(ip);
        }
        assert(ips@ =~= ip_list@.take(i + 1).filter_map(higher_than(node_id)));
    }
    assert(ip_list@.take(ip_list.len() as int) =~= ip_list@);
    ips
}

/// Whether a reply to an election request is an answer: an HTTP 200.
pub fn response_is_ok(response: Option<u16>) -> (ok: bool)
    ensures
        ok == answered(response),
{
    match response {
        Some(status) => status == 200,
        None => false,
    }
}

/// Whether any of the replies to the election requests is an answer.
pub fn ok_recieved(responses: &Vec<Option<u16>>) -> (ok: bool)
    ensures
        ok == any_answered(responses@),
{
    for i in 0..responses.len()
        invariant
            forall|k: int| 0 <= k < i ==> !answered(#[trigger] responses@[k]),
    {
        if response_is_ok(responses[i]) {
            return true;
        }
    }
    false
}

/// Whether the node becomes leader, given the nodes it challenged and their replies.
pub fn is_leader_after(candidates: &Vec<Ipv4>, responses: &Vec<Option<u16>>) -> (leader: bool)
    ensures
        leader == wins(candidates@, responses@),
{
    if candidates.len() != 0 {
        !ok_recieved(responses)
    } else {
        true
    }
}

/// A node has no one to challenge exactly when no node of its list has a higher id.
pub proof fn lemma_no_candidates_iff_highest(ip_list: Seq<Node>, node_id: u32)
    ensures
        candidates(ip_list, node_id).len() == 0 <==> forall|i: int|
            0 <= i < ip_list.len() ==> #[trigger] ip_list[i].1 <= node_id,
    decreases ip_list.len(),
{
    if ip_list.len() > 0 {
        let rest = ip_list.drop_last();
        lemma_no_candidates_iff_highest(rest, node_id);
        let last = ip_list.len() - 1;
        if forall|i: int| 0 <= i < ip_list.len() ==> #[trigger] ip_list[i].1 <= node_id {
            assert forall|i: int| 0 <= i < rest.len() implies #[trigger] rest[i].1 <= node_id by {
                assert(rest[i] == ip_list[i]);
            }
        }
        if ip_list[last].1 <= node_id && forall|i: int|
            0 <= i < rest.len() ==> #[trigger] rest[i].1 <= node_id {
            assert forall|i: int| 0 <= i < ip_list.len() implies #[trigger] ip_list[i].1 <= node_id by {
                if i < rest.len() {
                    assert(rest[i] == ip_list[i]);
                }
            }
        }
    }
}

/// Every node that a node challenges has a higher id than its own and is on its list.
pub proof fn lemma_candidates_are_higher(ip_list: Seq<Node>, node_id: u32, ip: Ipv4)
    requires
        candidates(ip_list, node_id).contains(ip),
    ensures
        exists|i: int| 0 <= i < ip_list.len() && #[trigger] ip_list[i].0 == ip && ip_list[i].1 > node_id,
{
    ip_list.lemma_filter_map_contains(higher_than(node_id), ip);
    let n = choose|n: Node| ip_list.contains(n) && #[trigger] higher_than(node_id)(n) == Some(ip);
    let i = choose|i: int| 0 <= i < ip_list.len() && ip_list[i] == n;
    assert(ip_list[i].0 == ip);
}

/// Every node of the list whose id is higher than the node's own is challenged.
pub proof fn lemma_higher_nodes_are_challenged(ip_list: Seq<Node>, node_id: u32, i: int)
    requires
        0 <= i < ip_list.len(),
        ip_list[i].1 > node_id,
    ensures
        candidates(ip_list, node_id).contains(ip_list[i].0),
    decreases ip_list.len(),
{
    let rest = ip_list.drop_last();
    let found = candidates(ip_list, node_id);
    if i == ip_list.len() - 1 {
        assert(found[found.len() - 1] == ip_list[i].0);
    } else {
        lemma_higher_nodes_are_challenged(rest, node_id, i);
        assert(rest[i] == ip_list[i]);
        let earlier = candidates(rest, node_id);
        let k = choose|k: int| 0 <= k < earlier.len() && earlier[k] == ip_list[i].0;
        assert(found[k] == earlier[k]);
    }
}

/// The node with the highest id on its list wins every election it runs, whatever the
/// replies.
pub proof fn lemma_highest_id_wins(ip_list: Seq<Node>, node_id: u32, responses: Seq<Option<u16>>)
    requires
        forall|i: int| 0 <= i < ip_list.len() ==> #[trigger] ip_list[i].1 <= node_id,
    ensures
        wins(candidates(ip_list, node_id), responses),
{
    lemma_no_candidates_iff_highest(ip_list, node_id);
}

/// A node that challenged someone and got an answer does not become leader.
pub proof fn lemma_answer_defeats(candidates: Seq<Ipv4>, responses: Seq<Option<u16>>, i: int)
    requires
        candidates.len() > 0,
        0 <= i < responses.len(),
        responses[i] == Some(200u16),
    ensures
        !wins(candidates, responses),
{
    assert(answered(responses[i]));
}

/// A node that wins and records itself as leader reports itself as leader, and its election
/// is over once it ends it.
pub proof fn lemma_winner_reports_itself(s: AppStateView)
    ensures
        s.declare_self_leader().status().current_leader == (s.node_ip, s.node_id),
        s.declare_self_leader().end_election().status().current_leader == (s.node_ip, s.node_id),
        !s.declare_self_leader().end_election().in_election,
{
}

/// The rule of the bully algorithm: a node becomes leader exactly when it had no one to
/// challenge, or when none of the replies to its challenges was an HTTP 200 (a challenged
/// node that is down, or answers otherwise, does not stop it).
pub proof fn lemma_win_rule(candidates: Seq<Ipv4>, responses: Seq<Option<u16>>)
    ensures
        wins(candidates, responses) <==> (candidates.len() == 0 || forall|i: int|
            0 <= i < responses.len() ==> #[trigger] responses[i] != Some(200u16)),
{
    if candidates.len() != 0 && !wins(candidates, responses) {
        let i = choose|i: int| 0 <= i < responses.len() && answered(#[trigger] responses[i]);
        assert(responses[i] == Some(200u16));
    }
}

} // verus!
