use droplet_dns::records::{select_records, DomainEntry, Record};

fn entry(id: u64, name: &str, kind: &str, data: &str, ttl: u32) -> DomainEntry {
    DomainEntry {
        id,
        name: name.to_owned(),
        kind: kind.to_owned(),
        data: data.to_owned(),
        ttl,
    }
}

#[test]
fn keeps_only_the_managed_triple() {
    let entries = vec![
        entry(1, "www", "A", "1.2.3.4", 300),
        entry(2, "www", "AAAA", "::1", 300),
        entry(3, "mail", "A", "5.6.7.8", 300),
        entry(4, "www", "A", "9.9.9.9", 600),
    ];
    let name = "www".to_owned();
    let kind = "A".to_owned();
    let got = select_records(&entries, &name, &kind);
    assert_eq!(
        got,
        vec![
            Record { id: 1, address: "1.2.3.4".to_owned(), ttl: 300 },
            Record { id: 4, address: "9.9.9.9".to_owned(), ttl: 600 },
        ]
    );
}

#[test]
fn nothing_matches_an_absent_name() {
    let entries = vec![entry(1, "www", "A", "1.2.3.4", 300)];
    let name = "api".to_owned();
    let kind = "A".to_owned();
    assert!(select_records(&entries, &name, &kind).is_empty());
}

#[test]
fn an_empty_listing_selects_nothing() {
    let entries: Vec<DomainEntry> = Vec::new();
    let name = "www".to_owned();
    let kind = "A".to_owned();
    assert!(select_records(&entries, &name, &kind).is_empty());
}
