use fortune_cookies::address::Ipv4;
use fortune_cookies::clock::{generate_node_id, node_id_from_elapsed, node_id_from_nanos};
use fortune_cookies::config::{parse_port, web_port, DEFAULT_WEB_PORT};
use fortune_cookies::cookie::{
    cookie_from_body, cookie_unavailable, fetch_cookie_next, status_is_success,
};
use fortune_cookies::text::decimal_string;
use fortune_cookies::discovery::{
    discovered_nodes, get_ids_from_peers, node_id_requests, node_id_url, peers_to_query,
    record_peer_reply, PeerAddr,
    DISCOVERY_SERVICE,
};

#[test]
fn node_ids_from_nanoseconds() {
    assert_eq!(node_id_from_nanos(0), 0);
    assert_eq!(node_id_from_nanos(202), 0);
    assert_eq!(node_id_from_nanos(1000), 91);
    assert_eq!(node_id_from_nanos(u128::MAX), (u128::MAX % 101) as u32);
}

#[test]
fn generated_node_id_is_below_101() {
    let id = generate_node_id().unwrap();
    assert!(id < 101);
}

#[test]
fn ports_parse_as_u16_does() {
    assert_eq!(parse_port("3000"), Some(3000));
    assert_eq!(parse_port("+80"), Some(80));
    assert_eq!(parse_port("007"), Some(7));
    assert_eq!(parse_port("65535"), Some(65535));
    assert_eq!(parse_port("65536"), None);
    assert_eq!(parse_port("999999999999"), None);
    assert_eq!(parse_port(""), None);
    assert_eq!(parse_port("+"), None);
    assert_eq!(parse_port("-1"), None);
    assert_eq!(parse_port("12a"), None);
    assert_eq!(parse_port(" 12"), None);
    for s in ["0", "+0", "123", "65535", "65536", "++1", "1+", "٣"] {
        assert_eq!(parse_port(s), s.parse::<u16>().ok());
    }
}

#[test]
fn configured_port_or_default() {
    assert_eq!(DEFAULT_WEB_PORT, 3000);
    assert_eq!(web_port(None), 3000);
    assert_eq!(web_port(Some("8080".to_string())), 8080);
    assert_eq!(web_port(Some("eighty".to_string())), 3000);
    assert_eq!(web_port(Some("70000".to_string())), 3000);
}

#[test]
fn discovery_asks_ipv4_peers_only() {
    assert_eq!(DISCOVERY_SERVICE, "bully-service");
    let peers = vec![
        PeerAddr::V4(Ipv4(10, 0, 0, 1)),
        PeerAddr::V6,
        PeerAddr::V4(Ipv4(10, 0, 0, 2)),
    ];
    assert_eq!(peers_to_query(&peers), vec![Ipv4(10, 0, 0, 1), Ipv4(10, 0, 0, 2)]);
    assert_eq!(node_id_url(Ipv4(10, 0, 0, 1), 3000), "http://10.0.0.1:3000/node_id");
}

#[test]
fn peers_that_reply_are_recorded_in_order() {
    let mut found = Vec::new();
    record_peer_reply(&mut found, Ipv4(10, 0, 0, 1), Some(12));
    record_peer_reply(&mut found, Ipv4(10, 0, 0, 2), None);
    record_peer_reply(&mut found, Ipv4(10, 0, 0, 3), Some(7));
    assert_eq!(found, vec![(Ipv4(10, 0, 0, 1), 12), (Ipv4(10, 0, 0, 3), 7)]);
}

#[test]
fn cookie_fetch_steps() {
    assert!(status_is_success(200));
    assert!(status_is_success(299));
    assert!(!status_is_success(199));
    assert!(!status_is_success(300));
    assert!(!status_is_success(404));
    assert_eq!(fetch_cookie_next(Ok(200)), Ok(()));
    assert_eq!(fetch_cookie_next(Ok(204)), Ok(()));
    assert_eq!(fetch_cookie_next(Ok(500)), Err("app state not found".to_string()));
    assert_eq!(
        fetch_cookie_next(Err("connection refused".to_string())),
        Err("Error occurred whilst getting response: connection refused".to_string())
    );
    assert_eq!(cookie_from_body(Ok("Fortune favours the bold".to_string())), Ok("Fortune favours the bold".to_string()));
    assert_eq!(cookie_from_body(Err("eof".to_string())), Err("Body error: eof".to_string()));
    assert_eq!(cookie_unavailable(Some("no context".to_string())), "Status error: no context");
    assert_eq!(cookie_unavailable(None), "Waiting for status");
}

#[test]
fn written_ports_read_back() {
    for p in [0u16, 1, 80, 3000, 8080, 65535] {
        assert_eq!(parse_port(&decimal_string(p as u32)), Some(p));
    }
}

#[test]
fn discovery_finds_peers_that_told_their_id() {
    let a = vec![(Ipv4(10, 0, 0, 1), Some(12)), (Ipv4(10, 0, 0, 2), None)];
    let b = vec![(Ipv4(10, 0, 0, 3), Some(7)), (Ipv4(10, 0, 0, 4), Some(60))];
    assert_eq!(get_ids_from_peers(&a), vec![(Ipv4(10, 0, 0, 1), 12)]);
    let mut both = a.clone();
    both.extend(b.clone());
    let mut joined = get_ids_from_peers(&a);
    joined.extend(get_ids_from_peers(&b));
    assert_eq!(get_ids_from_peers(&both), joined);
    assert_eq!(get_ids_from_peers(&vec![]), vec![]);
}

#[test]
fn discovery_round_over_looked_up_peers() {
    let peers = vec![
        PeerAddr::V4(Ipv4(10, 0, 0, 1)),
        PeerAddr::V6,
        PeerAddr::V4(Ipv4(10, 0, 0, 2)),
    ];
    let requests = node_id_requests(&peers, 3000);
    assert_eq!(
        requests,
        vec![
            (Ipv4(10, 0, 0, 1), "http://10.0.0.1:3000/node_id".to_string()),
            (Ipv4(10, 0, 0, 2), "http://10.0.0.2:3000/node_id".to_string()),
        ]
    );
    assert_eq!(discovered_nodes(&peers, &vec![Some(7), None]), vec![(Ipv4(10, 0, 0, 1), 7)]);
    assert_eq!(
        discovered_nodes(&peers, &vec![Some(7), Some(9)]),
        vec![(Ipv4(10, 0, 0, 1), 7), (Ipv4(10, 0, 0, 2), 9)]
    );
    assert_eq!(discovered_nodes(&peers, &vec![None]), vec![]);
    assert_eq!(discovered_nodes(&peers, &vec![Some(1), Some(2), Some(3)]).len(), 2);
}

#[test]
fn node_id_from_the_elapsed_time() {
    assert_eq!(node_id_from_elapsed(None), None);
    assert_eq!(node_id_from_elapsed(Some(std::time::Duration::from_nanos(1000))), Some(91));
    assert_eq!(node_id_from_elapsed(Some(std::time::Duration::from_secs(0))), Some(0));
}

#[test]
fn one_second_after_the_epoch_gives_id_10() {
    assert_eq!(node_id_from_elapsed(Some(std::time::Duration::from_secs(1))), Some(10));
    assert_eq!(
        node_id_from_elapsed(Some(std::time::Duration::from_nanos(5))),
        node_id_from_elapsed(Some(std::time::Duration::from_nanos(5 + 101)))
    );
}
