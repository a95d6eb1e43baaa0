use droplet_dns::config::Config;
use droplet_dns::cycle::plan_cycle;
use droplet_dns::instances::{Instance, NetworkInterface};
use droplet_dns::records::{DomainEntry, Record};

fn iface(kind: &str, ip: &str) -> NetworkInterface {
    NetworkInterface { kind: kind.to_owned(), ip_address: ip.to_owned() }
}

fn entry(id: u64, name: &str, kind: &str, data: &str) -> DomainEntry {
    DomainEntry {
        id,
        name: name.to_owned(),
        kind: kind.to_owned(),
        data: data.to_owned(),
        ttl: 300,
    }
}

#[test]
fn a_full_pass_from_raw_listings() {
    let instances = vec![
        Instance { v4: vec![iface("public", "1.2.3.4"), iface("private", "10.0.0.9")] },
        Instance { v4: vec![iface("public", "5.6.7.8")] },
        Instance { v4: vec![iface("public", "5.6.7.8")] },
    ];
    let entries = vec![
        entry(1, "www", "A", "5.6.7.8"),
        entry(2, "www", "A", "9.9.9.9"),
        entry(3, "mail", "A", "9.9.9.9"),
        entry(4, "www", "AAAA", "::1"),
    ];
    let name = "www".to_owned();
    let kind = "A".to_owned();
    let plan = plan_cycle(&instances, &entries, &name, &kind);
    assert_eq!(plan.to_create, vec!["1.2.3.4".to_owned()]);
    assert_eq!(plan.to_delete, vec![Record { id: 2, address: "9.9.9.9".to_owned(), ttl: 300 }]);
    assert_eq!(plan.up_to_date, vec!["5.6.7.8".to_owned()]);
}

#[test]
fn no_tagged_instances_converges_to_empty() {
    let instances: Vec<Instance> = Vec::new();
    let entries = vec![entry(1, "www", "A", "5.6.7.8")];
    let name = "www".to_owned();
    let kind = "A".to_owned();
    let plan = plan_cycle(&instances, &entries, &name, &kind);
    assert!(plan.to_create.is_empty());
    assert_eq!(plan.to_delete.len(), 1);
    assert_eq!(plan.to_delete[0].id, 1);
}

#[test]
fn a_configuration_keeps_its_six_parameters() {
    let c = Config::new(
        "test-token".to_owned(),
        "example.com".to_owned(),
        "web".to_owned(),
        "www".to_owned(),
        "A".to_owned(),
        1800,
    );
    assert_eq!(c.api_key, "test-token".to_owned());
    assert_eq!(c.domain_name, "example.com".to_owned());
    assert_eq!(c.droplet_tag, "web".to_owned());
    assert_eq!(c.record_name, "www".to_owned());
    assert_eq!(c.record_kind, "A".to_owned());
    assert_eq!(c.record_ttl, 1800);
}
