use fortune_cookies::address::{
    cookie_url, ipv4_string, node_label, peer_url, service_address, Ipv4,
};
use fortune_cookies::text::{decimal_string, replace_first_str};

#[test]
fn decimal_of_small_and_large_numbers() {
    assert_eq!(decimal_string(0), "0");
    assert_eq!(decimal_string(7), "7");
    assert_eq!(decimal_string(10), "10");
    assert_eq!(decimal_string(101), "101");
    assert_eq!(decimal_string(4294967295), "4294967295");
}

#[test]
fn dotted_quad_text() {
    assert_eq!(ipv4_string(Ipv4(10, 0, 0, 7)), "10.0.0.7");
    assert_eq!(ipv4_string(Ipv4::new(255, 255, 255, 255)), "255.255.255.255");
    assert_eq!(ipv4_string(Ipv4::unspecified()), "0.0.0.0");
}

#[test]
fn replace_first_replaces_leftmost_only() {
    assert_eq!(replace_first_str("0.0.0.0", "0.0.0.0", "localhost"), "localhost");
    assert_eq!(replace_first_str("127.0.0.1", "0.0.0.0", "localhost"), "127.0.0.1");
    assert_eq!(replace_first_str("abab", "ab", "x"), "xab");
    assert_eq!(replace_first_str("cab", "ab", "x"), "cx");
    assert_eq!(replace_first_str("a", "abc", "x"), "a");
    assert_eq!(replace_first_str("abc", "", "x"), "xabc");
}

#[test]
fn replace_first_agrees_with_replacen() {
    for (t, p, w) in [
        ("10.0.0.0", "0.0.0.0", "localhost"),
        ("100.0.0.0", "0.0.0.0", "localhost"),
        ("aaaa", "aa", "b"),
        ("héllo wörld", "ö", "o"),
    ] {
        assert_eq!(replace_first_str(t, p, w), t.replacen(p, w, 1));
    }
}

#[test]
fn urls_between_nodes() {
    assert_eq!(peer_url(Ipv4(10, 1, 2, 3), 3000, "node_id"), "http://10.1.2.3:3000/node_id");
    assert_eq!(service_address("bully-service", 3000), "bully-service:3000");
    assert_eq!(node_label(Ipv4(192, 168, 0, 4), 57), "192.168.0.4:57");
}

#[test]
fn cookie_url_uses_localhost_for_unspecified_leader() {
    assert_eq!(cookie_url(Ipv4(0, 0, 0, 0)), "http://localhost:3000/api/get_cookie");
    assert_eq!(cookie_url(Ipv4(192, 168, 1, 5)), "http://192.168.1.5:3000/api/get_cookie");
    // The text `10.0.0.0` holds `0.0.0.0` from its second character on.
    assert_eq!(cookie_url(Ipv4(10, 0, 0, 0)), "http://1localhost:3000/api/get_cookie");
}
