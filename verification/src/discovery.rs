//! Finding the peers of a node and learning their ids.
use vstd::prelude::*;
use crate::address::{http_url, ipv4_text, peer_url, Ipv4};
use crate::state::Node;

verus! {

/// The name of the service whose DNS entry lists the nodes of the cluster.
pub const DISCOVERY_SERVICE: &'static str = "bully-service";

/// Seconds between two rounds of peer discovery.
pub const DISCOVERY_INTERVAL_SECS: u64 = 10;

/// The address of a peer as a DNS lookup returns it.
#[derive(Clone, Copy, Debug, PartialEq, Eq, Structural)]
pub enum PeerAddr {
    V4(Ipv4),
    V6,
}

/// Keeps the IPv4 address of a peer.
pub open spec fn ipv4_only() -> spec_fn(PeerAddr) -> Option<Ipv4> {
    |a: PeerAddr|
        match a {
            PeerAddr::V4(ip) => Some(ip),
            PeerAddr::V6 => None,
        }
}

/// The peers whose ids a node asks for: the IPv4 ones, in the order of the lookup.
pub fn peers_to_query(peers: &Vec<PeerAddr>) -> (ips: Vec<Ipv4>)
    ensures
        ips@ == peers@.filter_map(ipv4_only()),
{
    let mut ips: Vec<Ipv4> = Vec::new();
    for i in 0..peers.len()
        invariant
            ips@ == peers@.take(i as int).filter_map(ipv4_only()),
    {
        proof {
            peers@.lemma_filter_map_take_succ(ipv4_only(), i as int);
        }
        match peers[i] {
            PeerAddr::V4(ip) => ips.push(ip),
            PeerAddr::V6 => {},
        }
        assert(ips@ =~= peers@.take(i + 1).filter_map(ipv4_only()));
    }
    assert(peers@.take(peers.len() as int) =~= peers@);
    ips
}

/// The URL at which the peer at `ip` tells its id.
pub fn node_id_url(ip: Ipv4, port: u16) -> (url: String)
    ensures
        url@ == http_url(ipv4_text(ip), port as nat, "node_id"@),
{
    peer_url(ip, port, "node_id")
}

/// Records the reply of the peer at `ip` to a request for its id: a peer that told its id
/// joins the list, after those already found; one that did not is left out.
pub fn record_peer_reply(found: &mut Vec<Node>, ip: Ipv4, reply: Option<u32>)
    ensures
        final(found)@ == match reply {
            Some(id) => old(found)@.push((ip, id)),
            None => old(found)@,
        },
{
    match reply {
        Some(id) => found.push((ip, id)),
        None => {},
    }
}

/// Keeps the peer that told its id, with that id.
pub open spec fn told_id() -> spec_fn((Ipv4, Option<u32>)) -> Option<Node> {
    |answer: (Ipv4, Option<u32>)|
        match answer.1 {
            Some(id) => Some((answer.0, id)),
            None => None,
        }
}

/// The nodes that a round of discovery finds, given each asked peer with its reply (`None`
/// where it told no id): those that told their id, in the order they were asked.
pub open spec fn peer_ids(answers: Seq<(Ipv4, Option<u32>)>) -> Seq<Node> {
    answers.filter_map(told_id())
}

/// The nodes found by a round of discovery, given each asked peer with its reply.
pub fn get_ids_from_peers(answers: &Vec<(Ipv4, Option<u32>)>) -> (found: Vec<Node>)
    ensures
        found@ == peer_ids(answers@),
{
    let mut found: Vec<Node> = Vec::new();
    for i in 0..answers.len()
        invariant
            found@ == answers@.take(i as int).filter_map(told_id()),
    {
        proof {
            answers@.lemma_filter_map_take_succ(told_id(), i as int);
        }
        let (ip, reply) = answers[i];
        record_peer_reply(&mut found, ip, reply);
        assert(found@ =~= answers@.take(i + 1).filter_map(told_id()));
    }
    assert(answers@.take(answers.len() as int) =~= answers@);
    found
}

/// Keeping and mapping the elements of a sequence distributes over concatenation.
proof fn lemma_filter_map_concat<A, B>(a: Seq<A>, b: Seq<A>, f: spec_fn(A) -> Option<B>)
    ensures
        (a + b).filter_map(f) == a.filter_map(f) + b.filter_map(f),
    decreases b.len(),
{
    if b.len() == 0 {
        assert(a + b =~= a);
        assert(a.filter_map(f) + b.filter_map(f) =~= a.filter_map(f));
    } else {
        lemma_filter_map_concat(a, b.drop_last(), f);
        assert((a + b).drop_last() =~= a + b.drop_last());
        assert((a + b).last() == b.last());
        match f(b.last()) {
            Some(x) => {
                assert(a.filter_map(f) + b.filter_map(f) =~= (a.filter_map(f) + b.drop_last().filter_map(
                    f,
                )) + seq![x]);
            },
            None => {},
        }
    }
}

/// Discovering two lists of peers one after the other asks the peers of both, in order,
/// and finds the nodes of both, in order.
pub proof fn lemma_discovery_concatenates(
    a: Seq<PeerAddr>,
    b: Seq<PeerAddr>,
    answers_a: Seq<(Ipv4, Option<u32>)>,
    answers_b: Seq<(Ipv4, Option<u32>)>,
)
    ensures
        (a + b).filter_map(ipv4_only()) == a.filter_map(ipv4_only()) + b.filter_map(ipv4_only()),
        peer_ids(answers_a + answers_b) == peer_ids(answers_a) + peer_ids(answers_b),
{
    lemma_filter_map_concat(a, b, ipv4_only());
    lemma_filter_map_concat(answers_a, answers_b, told_id());
}

/// The asked peers paired with their replies, in order: the reply at the same position, or
/// none where no reply was recorded for a peer. Replies past the last peer are ignored.
pub open spec fn paired_replies(ips: Seq<Ipv4>, replies: Seq<Option<u32>>) -> Seq<(Ipv4, Option<u32>)> {
    Seq::new(ips.len(), |i: int| (ips[i], if i < replies.len() { replies[i] } else { None }))
}

/// The requests of a discovery round, given the peers a lookup returned: one for each IPv4
/// peer, in the order of the lookup, each with the URL at which that peer tells its id.
pub fn node_id_requests(peers: &Vec<PeerAddr>, port: u16) -> (requests: Vec<(Ipv4, String)>)
    ensures
        requests.len() == peers@.filter_map(ipv4_only()).len(),
        forall|i: int|
            0 <= i < requests.len() ==> #[trigger] requests[i].0 == peers@.filter_map(ipv4_only())[i]
                && requests[i].1@ == http_url(ipv4_text(requests[i].0), port as nat, "node_id"@),
{
    let ips = peers_to_query(peers);
    let mut requests: Vec<(Ipv4, String)> = Vec::new();
    for i in 0..ips.len()
        invariant
            ips@ == peers@.filter_map(ipv4_only()),
            requests.len() == i,
            forall|k: int|
                0 <= k < i ==> #[trigger] requests[k].0 == ips@[k] && requests[k].1@ == http_url(
                    ipv4_text(requests[k].0),
                    port as nat,
                    "node_id"@,
                ),
    {
        let ip = ips[i];
        requests.push((ip, node_id_url(ip, port)));
    }
    requests
}

/// The nodes a discovery round finds, given the peers a lookup returned and the reply of
/// each IPv4 peer, in the order of [`node_id_requests`] (`None` for a peer that told no
/// id): the peers that told their id, with that id, in the order of the lookup.
pub fn discovered_nodes(peers: &Vec<PeerAddr>, replies: &Vec<Option<u32>>) -> (found: Vec<Node>)
    ensures
        found@ == peer_ids(paired_replies(peers@.filter_map(ipv4_only()), replies@)),
{
    let ips = peers_to_query(peers);
    let mut answers: Vec<(Ipv4, Option<u32>)> = Vec::new();
    for i in 0..ips.len()
        invariant
            answers@ == paired_replies(ips@, replies@).take(i as int),
    {
        let reply = if i < replies.len() {
            replies[i]
        } else {
            None
        };
        answers.push((ips[i], reply));
        assert(answers@ =~= paired_replies(ips@, replies@).take(i + 1));
    }
    assert(answers@ =~= paired_replies(ips@, replies@));
    get_ids_from_peers(&answers)
}

/// Each asked peer is paired with its own reply, whatever the other peers replied.
pub proof fn lemma_each_peer_keeps_its_reply(ips: Seq<Ipv4>, replies: Seq<Option<u32>>, i: int)
    requires
        0 <= i < ips.len(),
        i < replies.len(),
    ensures
        paired_replies(ips, replies)[i] == (ips[i], replies[i]),
{
}

/// Keeping and mapping finds every element that the map keeps.
proof fn lemma_filter_map_keeps<A, B>(s: Seq<A>, f: spec_fn(A) -> Option<B>, i: int, y: B)
    requires
        0 <= i < s.len(),
        f(s[i]) == Some(y),
    ensures
        s.filter_map(f).contains(y),
    decreases s.len(),
{
    reveal_with_fuel(Seq::filter_map, 1);
    let rest = s.drop_last();
    if i == s.len() - 1 {
        let out = s.filter_map(f);
        assert(out[out.len() - 1] == y);
    } else {
        lemma_filter_map_keeps(rest, f, i, y);
        assert(rest[i] == s[i]);
        let earlier = rest.filter_map(f);
        let k = choose|k: int| 0 <= k < earlier.len() && earlier[k] == y;
        match f(s.last()) {
            Some(z) => assert(s.filter_map(f)[k] == earlier[k]),
            None => {},
        }
    }
}

/// Every asked peer that told its id is found, with that id, whatever the other peers
/// replied; and every node found is an asked peer with the id it told.
pub proof fn lemma_discovery_finds_every_answer(peers: Seq<PeerAddr>, replies: Seq<Option<u32>>)
    ensures
        forall|i: int|
            0 <= i < peers.filter_map(ipv4_only()).len() && i < replies.len() && (#[trigger] replies[i]
                is Some) ==> peer_ids(paired_replies(peers.filter_map(ipv4_only()), replies)).contains(
                (peers.filter_map(ipv4_only())[i], replies[i]->0),
            ),
        forall|n: Node|
            #[trigger] peer_ids(paired_replies(peers.filter_map(ipv4_only()), replies)).contains(n)
                ==> exists|i: int|
                0 <= i < peers.filter_map(ipv4_only()).len() && i < replies.len()
                    && #[trigger] peers.filter_map(ipv4_only())[i] == n.0 && replies[i] == Some(n.1),
{
    let ips = peers.filter_map(ipv4_only());
    let answers = paired_replies(ips, replies);
    assert forall|i: int|
        0 <= i < ips.len() && i < replies.len() && (#[trigger] replies[i] is Some) implies peer_ids(
        answers,
    ).contains((ips[i], replies[i]->0)) by {
        assert(answers[i] == (ips[i], replies[i]));
        lemma_filter_map_keeps(answers, told_id(), i, (ips[i], replies[i]->0));
    }
    assert forall|n: Node| #[trigger] peer_ids(answers).contains(n) implies exists|i: int|
        0 <= i < ips.len() && i < replies.len() && #[trigger] ips[i] == n.0 && replies[i] == Some(
            n.1,
        ) by {
        answers.lemma_filter_map_contains(told_id(), n);
        let a = choose|a: (Ipv4, Option<u32>)| #[trigger] answers.contains(a) && told_id()(a) == Some(n);
        let i = choose|i: int| 0 <= i < answers.len() && answers[i] == a;
        assert(ips[i] == n.0);
    }
}

} // verus!
