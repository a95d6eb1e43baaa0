use droplet_dns::instances::{public_ips, Instance, NetworkInterface};

fn iface(kind: &str, ip: &str) -> NetworkInterface {
    NetworkInterface { kind: kind.to_owned(), ip_address: ip.to_owned() }
}

#[test]
fn only_public_interfaces_count() {
    let instances = vec![Instance {
        v4: vec![iface("public", "1.2.3.4"), iface("private", "10.0.0.1")],
    }];
    assert_eq!(public_ips(&instances), vec!["1.2.3.4".to_owned()]);
}

#[test]
fn shared_address_collapses_to_one_entry() {
    let instances = vec![
        Instance { v4: vec![iface("public", "1.2.3.4")] },
        Instance { v4: vec![iface("public", "1.2.3.4")] },
        Instance { v4: vec![iface("public", "5.6.7.8")] },
    ];
    assert_eq!(public_ips(&instances), vec!["1.2.3.4".to_owned(), "5.6.7.8".to_owned()]);
}

#[test]
fn no_instances_means_no_addresses() {
    let instances: Vec<Instance> = Vec::new();
    assert!(public_ips(&instances).is_empty());
}

#[test]
fn instance_without_public_interface_contributes_nothing() {
    let instances = vec![
        Instance { v4: vec![iface("private", "10.0.0.1")] },
        Instance { v4: Vec::new() },
    ];
    assert!(public_ips(&instances).is_empty());
}

#[test]
fn unknown_interface_kind_is_not_public() {
    let instances = vec![Instance {
        v4: vec![iface("Public", "1.2.3.4"), iface("", "5.6.7.8")],
    }];
    assert!(public_ips(&instances).is_empty());
}

#[test]
fn listing_order_of_first_appearance_is_kept() {
    let instances = vec![
        Instance { v4: vec![iface("public", "2.2.2.2"), iface("public", "1.1.1.1")] },
        Instance { v4: vec![iface("public", "2.2.2.2"), iface("public", "3.3.3.3")] },
    ];
    assert_eq!(
        public_ips(&instances),
        vec!["2.2.2.2".to_owned(), "1.1.1.1".to_owned(), "3.3.3.3".to_owned()]
    );
}
