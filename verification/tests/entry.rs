use werust_core::{
    classify_entry, eth_name_and_path_from_entry, eth_name_from_entry, route_entry, EntryRoute,
    FrontDoor,
};

#[test]
fn a_bare_eth_entry_is_recognised_as_an_ens_name() {
    assert_eq!(eth_name_from_entry("ronan.eth"), Some("ronan.eth"));
    assert_eq!(eth_name_from_entry("ronan.eth/"), Some("ronan.eth"));
    assert_eq!(eth_name_from_entry("Ronan.ETH"), Some("Ronan.ETH"));
    assert_eq!(eth_name_from_entry("a.b.eth"), Some("a.b.eth"));
    assert_eq!(eth_name_from_entry("https://ronan.eth/"), None);
    assert_eq!(eth_name_from_entry("ipfs://bafycid"), None);
    assert_eq!(eth_name_from_entry("ens://ronan.eth"), None);
    assert_eq!(eth_name_from_entry("example.com"), None);
    assert_eq!(eth_name_from_entry(".eth"), None);
    assert_eq!(eth_name_from_entry("ronan.eth/page"), None);
}

#[test]
fn eth_name_and_path_splits_a_dot_eth_entry_into_name_and_optional_path() {
    assert_eq!(eth_name_and_path_from_entry("ronan.eth"), Some(("ronan.eth", "")));
    assert_eq!(eth_name_and_path_from_entry("ronan.eth/"), Some(("ronan.eth", "")));
    assert_eq!(
        eth_name_and_path_from_entry("ronan.eth/blog/"),
        Some(("ronan.eth", "/blog/"))
    );
    assert_eq!(
        eth_name_and_path_from_entry("ronan.eth/blog"),
        Some(("ronan.eth", "/blog"))
    );
    assert_eq!(
        eth_name_and_path_from_entry("a.b.eth/x/y/z.html"),
        Some(("a.b.eth", "/x/y/z.html"))
    );
    assert_eq!(
        eth_name_and_path_from_entry("Ronan.ETH/Blog/"),
        Some(("Ronan.ETH", "/Blog/"))
    );
    assert_eq!(eth_name_and_path_from_entry("https://ronan.eth/blog/"), None);
    assert_eq!(eth_name_and_path_from_entry("ipfs://bafycid/blog/"), None);
    assert_eq!(eth_name_and_path_from_entry("ens://ronan.eth/blog"), None);
    assert_eq!(eth_name_and_path_from_entry("github.com/foo"), None);
    assert_eq!(eth_name_and_path_from_entry("example.com"), None);
    assert_eq!(eth_name_and_path_from_entry(".eth"), None);
    assert_eq!(eth_name_and_path_from_entry(".eth/blog"), None);
}

#[test]
fn classify_entry_routes_explicit_scheme_valid_host_and_garbage() {
    assert_eq!(classify_entry("https://example.com/"), EntryRoute::ExplicitScheme);
    assert_eq!(classify_entry("http://example.com"), EntryRoute::ExplicitScheme);
    assert_eq!(classify_entry("ipfs://bafycid"), EntryRoute::ExplicitScheme);
    assert_eq!(classify_entry("ens://ronan.eth"), EntryRoute::ExplicitScheme);
    assert_eq!(classify_entry("github.com"), EntryRoute::HttpsCandidate);
    assert_eq!(classify_entry("example.com/path"), EntryRoute::HttpsCandidate);
    assert_eq!(classify_entry("example.com/a/b?q=1#frag"), EntryRoute::HttpsCandidate);
    assert_eq!(classify_entry("localhost:8080"), EntryRoute::HttpsCandidate);
    assert_eq!(classify_entry("localhost"), EntryRoute::HttpsCandidate);
    assert_eq!(classify_entry("127.0.0.1:3000"), EntryRoute::HttpsCandidate);
    assert_eq!(classify_entry("a.b.c.example.com"), EntryRoute::HttpsCandidate);
    assert_eq!(classify_entry("garbage"), EntryRoute::Invalid);
    assert_eq!(classify_entry("not a url"), EntryRoute::Invalid);
    assert_eq!(classify_entry(""), EntryRoute::Invalid);
    assert_eq!(classify_entry("   "), EntryRoute::Invalid);
    assert_eq!(classify_entry(".com"), EntryRoute::Invalid);
    assert_eq!(classify_entry("example."), EntryRoute::Invalid);
    assert_eq!(classify_entry("host:notaport"), EntryRoute::Invalid);
    assert_eq!(classify_entry("user@host.com"), EntryRoute::Invalid);
    assert_eq!(classify_entry("://nowhere"), EntryRoute::Invalid);
}

#[test]
fn the_front_door_routes_names_hosts_schemes_and_garbage() {
    assert_eq!(
        route_entry("ronan.eth/blog/"),
        FrontDoor::Ens { name: "ronan.eth".to_string(), path: "/blog/".to_string() }
    );
    assert_eq!(
        route_entry("ronan.eth"),
        FrontDoor::Ens { name: "ronan.eth".to_string(), path: String::new() }
    );
    assert_eq!(route_entry("github.com"), FrontDoor::Navigate("https://github.com".to_string()));
    assert_eq!(
        route_entry("github.com/foo"),
        FrontDoor::Navigate("https://github.com/foo".to_string())
    );
    assert_eq!(
        route_entry("ipfs://bafycid"),
        FrontDoor::Navigate("ipfs://bafycid".to_string())
    );
    assert_eq!(route_entry("not a url"), FrontDoor::Invalid);
    assert_eq!(route_entry(""), FrontDoor::Invalid);
    assert_eq!(route_entry("localhost:1"), FrontDoor::Navigate("https://localhost:1".to_string()));
}

#[test]
fn a_port_must_be_digits_and_a_dot_needs_labels_on_both_sides() {
    assert_eq!(classify_entry("example.com:"), EntryRoute::Invalid);
    assert_eq!(classify_entry("example.com:80"), EntryRoute::HttpsCandidate);
    assert_eq!(classify_entry("a..b"), EntryRoute::Invalid);
    assert_eq!(classify_entry("LOCALHOST"), EntryRoute::HttpsCandidate);
    assert_eq!(classify_entry("tab\there.com"), EntryRoute::Invalid);
}
