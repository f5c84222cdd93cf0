//! Node addresses and the URLs that nodes use to reach each other.
use vstd::prelude::*;
use vstd::string::*;
use crate::config::{lemma_port_round_trip, parse_u16};
use crate::text::{decimal, lemma_decimal_round_trip, push_decimal, replace_first, replace_first_str};

verus! {

/// An IPv4 address, by its four octets in the order they are written.
#[derive(Clone, Copy, Debug, PartialEq, Eq, Structural)]
pub struct Ipv4(pub u8, pub u8, pub u8, pub u8);

impl Ipv4 {
    /// The address `a.b.c.d`.
    pub fn new(a: u8, b: u8, c: u8, d: u8) -> (ip: Ipv4)
        ensures
            ip == Ipv4(a, b, c, d),
    {
        Ipv4(a, b, c, d)
    }

    /// The unspecified address `0.0.0.0`.
    pub fn unspecified() -> (ip: Ipv4)
        ensures
            ip == Ipv4(0, 0, 0, 0),
    {
        Ipv4(0, 0, 0, 0)
    }
}

/// Dotted-quad text of an address, such as `10.0.0.7`.
pub open spec fn ipv4_text(ip: Ipv4) -> Seq<char> {
    decimal(ip.0 as nat) + seq!['.'] + decimal(ip.1 as nat) + seq!['.'] + decimal(ip.2 as nat)
        + seq!['.'] + decimal(ip.3 as nat)
}

/// Appends the dotted-quad text of `ip` to `out`.
pub fn push_ipv4(out: &mut String, ip: Ipv4)
    ensures
        final(out)@ == old(out)@ + ipv4_text(ip),
{
    proof { reveal_strlit("."); }
    push_decimal(out, ip.0 as u32);
    out.append(".");
    push_decimal(out, ip.1 as u32);
    out.append(".");
    push_decimal(out, ip.2 as u32);
    out.append(".");
    push_decimal(out, ip.3 as u32);
    assert(final(out)@ =~= old(out)@ + ipv4_text(ip));
}

/// The dotted-quad text of `ip` as a new string.
pub fn ipv4_string(ip: Ipv4) -> (s: String)
    ensures
        s@ == ipv4_text(ip),
{
    let mut s = String::new();
    push_ipv4(&mut s, ip);
    assert(s@ =~= ipv4_text(ip));
    s
}

/// `http://{host}:{port}/{path}`.
pub open spec fn http_url(host: Seq<char>, port: nat, path: Seq<char>) -> Seq<char> {
    "http://"@ + host + seq![':'] + decimal(port) + seq!['/'] + path
}

/// The URL of `path` on the node at `ip` that listens on `port`.
pub fn peer_url(ip: Ipv4, port: u16, path: &str) -> (url: String)
    ensures
        url@ == http_url(ipv4_text(ip), port as nat, path@),
{
    proof {
        reveal_strlit(":");
        reveal_strlit("/");
    }
    let mut url = String::from_str("http://");
    push_ipv4(&mut url, ip);
    url.append(":");
    push_decimal(&mut url, port as u32);
    url.append("/");
    url.append(path);
    assert(url@ =~= http_url(ipv4_text(ip), port as nat, path@));
    url
}

/// `{service_name}:{port}`, the name that a DNS lookup of a service's peers resolves.
pub open spec fn service_address_text(service_name: Seq<char>, port: nat) -> Seq<char> {
    service_name + seq![':'] + decimal(port)
}

/// The address to look up to find the peers of the service `service_name` on `port`.
pub fn service_address(service_name: &str, port: u16) -> (address: String)
    ensures
        address@ == service_address_text(service_name@, port as nat),
{
    proof { reveal_strlit(":"); }
    let mut address = String::from_str(service_name);
    address.append(":");
    push_decimal(&mut address, port as u32);
    assert(address@ =~= service_address_text(service_name@, port as nat));
    address
}

/// The node label shown on the status page: `{ip}:{node_id}`.
pub open spec fn node_label_text(ip: Ipv4, node_id: u32) -> Seq<char> {
    ipv4_text(ip) + seq![':'] + decimal(node_id as nat)
}

/// The label of the node with address `ip` and id `node_id`.
pub fn node_label(ip: Ipv4, node_id: u32) -> (label: String)
    ensures
        label@ == node_label_text(ip, node_id),
{
    proof { reveal_strlit(":"); }
    let mut label = String::new();
    push_ipv4(&mut label, ip);
    label.append(":");
    push_decimal(&mut label, node_id);
    assert(label@ =~= node_label_text(ip, node_id));
    label
}

/// The host name under which the leader serves cookies: its address, with a first
/// `0.0.0.0` in the text replaced by `localhost`.
pub open spec fn cookie_host(leader_ip: Ipv4) -> Seq<char> {
    replace_first(ipv4_text(leader_ip), "0.0.0.0"@, "localhost"@)
}

/// `http://{host}:3000/api/get_cookie`.
pub open spec fn cookie_url_text(leader_ip: Ipv4) -> Seq<char> {
    "http://"@ + cookie_host(leader_ip) + ":3000/api/get_cookie"@
}

/// The URL from which a cookie is fetched from the leader at `leader_ip`.
pub fn cookie_url(leader_ip: Ipv4) -> (url: String)
    ensures
        url@ == cookie_url_text(leader_ip),
{
    let ip_text = ipv4_string(leader_ip);
    let host = replace_first_str(ip_text.as_str(), "0.0.0.0", "localhost");
    let mut url = String::from_str("http://");
    url.append(host.as_str());
    url.append(":3000/api/get_cookie");
    assert(url@ =~= cookie_url_text(leader_ip));
    url
}

/// A peer URL reads back as what it was built from: `http://`, the host, a `:`, the port
/// in a segment free of `/` that parses back as the very port, a `/`, and the path.
pub proof fn lemma_peer_url_reads_back(host: Seq<char>, port: u16, path: Seq<char>)
    ensures
        ({
            let url = http_url(host, port as nat, path);
            let start: int = 8 + host.len() as int;
            let end: int = start + decimal(port as nat).len();
            &&& url.subrange(0, 7) == "http://"@
            &&& url.subrange(7, 7 + host.len() as int) == host
            &&& url[start - 1] == ':'
            &&& start < end < url.len()
            &&& parse_u16(url.subrange(start, end)) == Some(port)
            &&& (forall|k: int| start <= k < end ==> #[trigger] url[k] != '/')
            &&& url[end] == '/'
            &&& url.subrange(end + 1, url.len() as int) == path
        }),
{
    reveal_strlit("http://");
    lemma_port_round_trip(port);
    lemma_decimal_round_trip(port as nat);
    let d = decimal(port as nat);
    let url = http_url(host, port as nat, path);
    let start: int = 8 + host.len() as int;
    let end: int = start + d.len();
    assert(url =~= "http://"@ + host + seq![':'] + d + seq!['/'] + path);
    assert(url.subrange(0, 7) =~= "http://"@);
    assert(url.subrange(7, 7 + host.len() as int) =~= host);
    assert(url.subrange(start, end) =~= d);
    assert(url.subrange(end + 1, url.len() as int) =~= path);
    assert forall|k: int| start <= k < end implies #[trigger] url[k] != '/' by {
        assert(url[k] == d[k - start]);
        assert(crate::text::is_digit(d[k - start]));
    }
}

} // verus!
