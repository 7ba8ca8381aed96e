use lightron::registry::{build_registry, ConfigError};
use lightron::site::Website;

fn site(name: &str, class: &str, access: &str, resource: &str, port: u16) -> Website {
    Website {
        name: name.to_string(),
        class: class.to_string(),
        access: access.to_string(),
        resource: resource.to_string(),
        certificate: format!("{}/cert.pem", resource),
        private_key: format!("{}/key.pem", resource),
        port_no: port,
        push_protocol_files: Vec::new(),
        log_level: "Info".to_string(),
    }
}

#[test]
fn groups_ports_in_first_seen_order() {
    let sites = vec![
        site("one", "HTTP", "Public", "/srv/one", 8080),
        site("two", "HTTP", "Public", "/srv/two", 9090),
        site("three", "HTTP", "Public", "/srv/three", 8080),
    ];
    let reg = build_registry(sites).unwrap();
    assert_eq!(reg.groups.len(), 2);
    assert_eq!(reg.groups[0].port, 8080);
    assert_eq!(reg.groups[0].members, vec![0, 2]);
    assert_eq!(reg.groups[1].port, 9090);
    assert_eq!(reg.groups[1].members, vec![1]);
    assert!(reg.is_shared(0));
    assert!(!reg.is_shared(1));
}

#[test]
fn shared_https_port_builds_virtual_host_map() {
    // Two HTTPS sites on one port: the port is shared and the map holds
    // exactly their two identities, keyed by name.
    let sites = vec![
        site("a", "HTTPS", "Public", "/srv/a", 443),
        site("b", "HTTPS", "Public", "/srv/b", 443),
    ];
    let reg = build_registry(sites).unwrap();
    assert_eq!(reg.groups.len(), 1);
    assert!(reg.is_shared(0));
    let map = reg.virtual_host_map(0);
    assert_eq!(map.entries.len(), 2);
    assert_eq!(map.entries[0].name, "a");
    assert_eq!(map.entries[0].resource, "/srv/a");
    assert_eq!(map.entries[1].name, "b");
    assert_eq!(map.entries[1].resource, "/srv/b");
    assert_eq!(map.lookup(b"a"), Some(0));
    assert_eq!(map.lookup(b"b"), Some(1));
    assert_eq!(map.lookup(b"c"), None);
}

#[test]
fn server_name_a_resolves_to_its_root() {
    let sites = vec![
        site("a", "HTTPS", "Public", "/srv/a", 443),
        site("b", "HTTPS", "Public", "/srv/b", 443),
    ];
    let reg = build_registry(sites).unwrap();
    let map = reg.virtual_host_map(0);
    let root = lightron::registry::select_document_root(true, "/unused", &map, Some(b"a".to_vec()));
    assert_eq!(root, Some(b"/srv/a".to_vec()));
    let root_b = lightron::registry::select_document_root(true, "/unused", &map, Some(b"b".to_vec()));
    assert_eq!(root_b, Some(b"/srv/b".to_vec()));
}

#[test]
fn ambiguous_server_name_is_refused() {
    let sites = vec![
        site("a", "HTTPS", "Public", "/srv/a1", 443),
        site("a", "HTTPS", "Public", "/srv/a2", 443),
    ];
    match build_registry(sites) {
        Err(ConfigError::AmbiguousServerName { port, name }) => {
            assert_eq!(port, 443);
            assert_eq!(name, "a");
        }
        Ok(_) => panic!("duplicate HTTPS server names on one port must be refused"),
    }
}

#[test]
fn duplicate_names_allowed_when_not_https() {
    let sites = vec![
        site("a", "HTTP", "Public", "/srv/a1", 8080),
        site("a", "HTTP", "Public", "/srv/a2", 8080),
    ];
    assert!(build_registry(sites).is_ok());
}

#[test]
fn duplicate_https_names_allowed_on_distinct_ports() {
    let sites = vec![
        site("a", "HTTPS", "Public", "/srv/a1", 443),
        site("a", "HTTPS", "Public", "/srv/a2", 8443),
    ];
    assert!(build_registry(sites).is_ok());
}
