use fortune_cookies::address::Ipv4;
use fortune_cookies::election::{election_candidates, is_leader_after, ok_recieved, response_is_ok};
use fortune_cookies::messages::{
    coordinator_message, coordinator_targets, endpoint_urls, unicast_url, CoordinatorInfo,
    MessageEndpoints, MessageType,
};
use fortune_cookies::state::{get_node_status, AppState};

fn cluster() -> Vec<(Ipv4, u32)> {
    vec![
        (Ipv4(10, 0, 0, 1), 5),
        (Ipv4(10, 0, 0, 2), 40),
        (Ipv4(10, 0, 0, 3), 17),
        (Ipv4(10, 0, 0, 4), 90),
    ]
}

#[test]
fn candidates_are_higher_ids_in_order() {
    assert_eq!(
        election_candidates(&cluster(), 17),
        vec![Ipv4(10, 0, 0, 2), Ipv4(10, 0, 0, 4)]
    );
    assert_eq!(election_candidates(&cluster(), 90), vec![]);
    assert_eq!(election_candidates(&cluster(), 0).len(), 4);
    assert_eq!(election_candidates(&vec![], 3), vec![]);
}

#[test]
fn only_http_200_counts_as_answer() {
    assert!(response_is_ok(Some(200)));
    assert!(!response_is_ok(Some(201)));
    assert!(!response_is_ok(Some(500)));
    assert!(!response_is_ok(None));
    assert!(ok_recieved(&vec![None, Some(404), Some(200)]));
    assert!(!ok_recieved(&vec![None, Some(404), Some(503)]));
    assert!(!ok_recieved(&vec![]));
}

#[test]
fn leadership_decision() {
    let none: Vec<Ipv4> = vec![];
    let some = vec![Ipv4(10, 0, 0, 4)];
    assert!(is_leader_after(&none, &vec![]));
    assert!(is_leader_after(&none, &vec![Some(200)]));
    assert!(is_leader_after(&some, &vec![None]));
    assert!(is_leader_after(&some, &vec![Some(500)]));
    assert!(!is_leader_after(&some, &vec![Some(200)]));
}

#[test]
fn highest_node_wins_whatever_the_replies() {
    let candidates = election_candidates(&cluster(), 90);
    assert!(is_leader_after(&candidates, &vec![Some(200), Some(200)]));
}

#[test]
fn one_election_at_a_time() {
    let mut state = AppState::new(Ipv4(10, 0, 0, 3), 3000, 17);
    assert!(state.recieve_election());
    assert!(state.in_election);
    assert!(!state.recieve_election());
    state.end_election();
    assert!(!state.in_election);
    assert!(state.recieve_election());
}

#[test]
fn fresh_states() {
    let state = AppState::new(Ipv4(10, 0, 0, 3), 3000, 17);
    assert_eq!(state.leader, (Ipv4(10, 0, 0, 3), 17));
    assert!(state.ip_list.is_empty());
    assert!(!state.in_election);
    assert_eq!(state.port, 3000);
    let state = AppState::with_unknown_leader(Ipv4(10, 0, 0, 3), 3001, 17);
    assert_eq!(state.leader, (Ipv4(0, 0, 0, 0), 0));
    assert_eq!(state.node_ip, Ipv4(10, 0, 0, 3));
    assert_eq!(state.port, 3001);
}

#[test]
fn test_get_node_id_endpoint() {
    let test_node_id = 123;
    let state = AppState::new(Ipv4(127, 0, 0, 1), 0, test_node_id);
    assert_eq!(state.node_id(), test_node_id);
}

#[test]
fn status_shows_recorded_leader() {
    let mut state = AppState::new(Ipv4(10, 0, 0, 3), 3000, 17);
    state.ip_list = cluster();
    state.recieve_coordinator(CoordinatorInfo { node_id: 90, ip: Ipv4(10, 0, 0, 4) });
    let status = get_node_status(&state);
    assert_eq!(status.current_leader, (Ipv4(10, 0, 0, 4), 90));
    assert_eq!(status.this_node_id, 17);
    assert_eq!(status.this_node_ip, Ipv4(10, 0, 0, 3));
    assert_eq!(status.all_nodes, cluster());
    state.write_new_leader((Ipv4(10, 0, 0, 2), 40));
    state.write_new_leader((Ipv4(10, 0, 0, 1), 5));
    assert_eq!(get_node_status(&state).current_leader, (Ipv4(10, 0, 0, 1), 5));
}

#[test]
fn winner_declares_itself_and_announces_to_all() {
    let mut state = AppState::with_unknown_leader(Ipv4(10, 0, 0, 4), 3000, 90);
    state.ip_list = cluster();
    assert!(state.recieve_election());
    let candidates = election_candidates(&state.ip_list, state.node_id);
    assert!(is_leader_after(&candidates, &vec![]));
    state.declare_self_leader();
    assert_eq!(state.leader, (Ipv4(10, 0, 0, 4), 90));
    let targets = coordinator_targets(&state.ip_list);
    assert_eq!(
        targets,
        vec![Ipv4(10, 0, 0, 1), Ipv4(10, 0, 0, 2), Ipv4(10, 0, 0, 3), Ipv4(10, 0, 0, 4)]
    );
    assert_eq!(
        endpoint_urls(&targets, state.port, MessageEndpoints::Coordinator)[1],
        "http://10.0.0.2:3000/recieve_coordinator"
    );
    assert_eq!(
        coordinator_message(&state),
        MessageType { ip: Ipv4(10, 0, 0, 4), node_id: 90 }
    );
    state.end_election();
    assert!(!state.in_election);
}

#[test]
fn endpoint_paths_and_urls() {
    assert_eq!(MessageEndpoints::Coordinator.as_str(), "recieve_coordinator");
    assert_eq!(MessageEndpoints::Election.as_str(), "recieve_election");
    let msg = MessageType { ip: Ipv4(172, 16, 0, 9), node_id: 3 };
    assert_eq!(
        unicast_url(8080, &msg, &MessageEndpoints::Election),
        "http://172.16.0.9:8080/recieve_election"
    );
    let urls = endpoint_urls(&vec![Ipv4(1, 2, 3, 4), Ipv4(5, 6, 7, 8)], 3000, MessageEndpoints::Election);
    assert_eq!(
        urls,
        vec![
            "http://1.2.3.4:3000/recieve_election".to_string(),
            "http://5.6.7.8:3000/recieve_election".to_string()
        ]
    );
}

#[test]
fn finishing_a_won_election_announces_to_every_listed_node() {
    let mut state = AppState::with_unknown_leader(Ipv4(10, 0, 0, 4), 3000, 90);
    state.ip_list = cluster();
    assert!(state.recieve_election());
    let candidates = election_candidates(&state.ip_list, state.node_id);
    let list = cluster();
    let announce = state.finish_election(&candidates, &vec![], &list);
    let (msg, targets) = announce.unwrap();
    assert_eq!(msg, MessageType { ip: Ipv4(10, 0, 0, 4), node_id: 90 });
    assert_eq!(
        targets,
        vec![Ipv4(10, 0, 0, 1), Ipv4(10, 0, 0, 2), Ipv4(10, 0, 0, 3), Ipv4(10, 0, 0, 4)]
    );
    assert_eq!(state.leader, (Ipv4(10, 0, 0, 4), 90));
    assert!(state.in_election);
    state.end_election();
    assert!(!state.in_election);
}

#[test]
fn finishing_a_lost_election_changes_nothing() {
    let mut state = AppState::new(Ipv4(10, 0, 0, 3), 3000, 17);
    state.ip_list = cluster();
    state.write_new_leader((Ipv4(10, 0, 0, 2), 40));
    assert!(state.recieve_election());
    let candidates = election_candidates(&state.ip_list, state.node_id);
    let list = cluster();
    let announce = state.finish_election(&candidates, &vec![None, Some(200)], &list);
    assert!(announce.is_none());
    assert_eq!(state.leader, (Ipv4(10, 0, 0, 2), 40));
    state.end_election();
    assert!(!state.in_election);
}

#[test]
fn many_requests_start_one_election() {
    let mut state = AppState::new(Ipv4(10, 0, 0, 3), 3000, 17);
    let started: Vec<bool> = (0..5).map(|_| state.recieve_election()).collect();
    assert_eq!(started, vec![true, false, false, false, false]);
    assert!(state.in_election);
}
