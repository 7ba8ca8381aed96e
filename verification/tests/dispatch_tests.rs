use lightron::dispatch::plan_workers;
use lightron::registry::build_registry;
use lightron::site::Website;

fn site(name: &str, class: &str, access: &str, port: u16) -> Website {
    Website {
        name: name.to_string(),
        class: class.to_string(),
        access: access.to_string(),
        resource: format!("/srv/{}", name),
        certificate: String::new(),
        private_key: String::new(),
        port_no: port,
        push_protocol_files: Vec::new(),
        log_level: "Info".to_string(),
    }
}

#[test]
fn one_worker_per_port_with_protocol_and_scope() {
    let reg = build_registry(vec![
        site("web", "HTTP", "Public", 8080),
        site("tls", "HTTPS", "Public", 443),
    ])
    .unwrap();
    let plans = plan_workers(&reg);
    assert_eq!(plans.len(), 2);
    assert_eq!(plans[0].port, 8080);
    assert!(!plans[0].https);
    assert!(!plans[0].loopback);
    assert!(!plans[0].shared);
    assert_eq!(plans[1].port, 443);
    assert!(plans[1].https);
    assert!(!plans[1].shared);
}

#[test]
fn local_scope_binds_only_loopback() {
    // A Local site's listener must bind the loopback address alone; a
    // Public site's listener binds all interfaces.
    let reg = build_registry(vec![
        site("intern", "HTTP", "Local", 8081),
        site("outward", "HTTP", "Public", 8082),
    ])
    .unwrap();
    let plans = plan_workers(&reg);
    assert!(plans[0].loopback);
    assert!(!plans[1].loopback);
}

#[test]
fn shared_port_is_marked_for_virtual_hosting() {
    let reg = build_registry(vec![
        site("a", "HTTPS", "Public", 443),
        site("b", "HTTPS", "Public", 443),
    ])
    .unwrap();
    let plans = plan_workers(&reg);
    assert_eq!(plans.len(), 1);
    assert!(plans[0].shared);
}

#[test]
fn first_configured_site_fixes_the_worker() {
    let reg = build_registry(vec![
        site("first", "HTTPS", "Local", 9000),
        site("second", "HTTP", "Public", 9000),
    ])
    .unwrap();
    let plans = plan_workers(&reg);
    assert_eq!(plans.len(), 1);
    assert!(plans[0].https);
    assert!(plans[0].loopback);
    assert!(plans[0].shared);
}
