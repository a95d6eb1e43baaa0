use droplet_dns::reconcile::{reconcile, ActionSet};
use droplet_dns::records::Record;

fn rec(id: u64, address: &str) -> Record {
    Record { id, address: address.to_owned(), ttl: 300 }
}

fn addrs(v: &[&str]) -> Vec<String> {
    v.iter().map(|s| (*s).to_owned()).collect()
}

#[test]
fn mixed_scenario() {
    let desired = addrs(&["1.2.3.4", "5.6.7.8"]);
    let actual = vec![rec(1, "5.6.7.8"), rec(2, "9.9.9.9")];
    let plan = reconcile(&desired, &actual);
    assert_eq!(plan.to_create, addrs(&["1.2.3.4"]));
    assert_eq!(plan.to_delete, vec![rec(2, "9.9.9.9")]);
    assert_eq!(plan.up_to_date, addrs(&["5.6.7.8"]));
}

#[test]
fn empty_desired_deletes_everything() {
    let desired: Vec<String> = Vec::new();
    let actual = vec![rec(1, "1.1.1.1"), rec(2, "2.2.2.2"), rec(3, "3.3.3.3")];
    let plan = reconcile(&desired, &actual);
    assert!(plan.to_create.is_empty());
    assert_eq!(plan.to_delete, actual);
    assert!(plan.up_to_date.is_empty());
}

#[test]
fn empty_actual_creates_everything() {
    let desired = addrs(&["1.1.1.1", "2.2.2.2"]);
    let actual: Vec<Record> = Vec::new();
    let plan = reconcile(&desired, &actual);
    assert_eq!(plan.to_create, desired);
    assert!(plan.to_delete.is_empty());
    assert!(plan.up_to_date.is_empty());
}

#[test]
fn both_empty_is_a_quiet_pass() {
    let plan = reconcile(&Vec::new(), &Vec::new());
    assert!(plan.to_create.is_empty());
    assert!(plan.to_delete.is_empty());
    assert!(plan.up_to_date.is_empty());
}

#[test]
fn partitions_without_overlap() {
    let desired = addrs(&["1.1.1.1", "2.2.2.2", "3.3.3.3"]);
    let actual = vec![rec(10, "2.2.2.2"), rec(11, "4.4.4.4")];
    let plan = reconcile(&desired, &actual);
    assert_eq!(plan.to_create, addrs(&["1.1.1.1", "3.3.3.3"]));
    assert_eq!(plan.to_delete, vec![rec(11, "4.4.4.4")]);
    assert_eq!(plan.up_to_date, addrs(&["2.2.2.2"]));
    for a in &plan.to_create {
        assert!(!plan.up_to_date.contains(a));
    }
}

#[test]
fn duplicate_stale_records_all_go_in_one_pass() {
    let desired = addrs(&["1.1.1.1"]);
    let actual = vec![rec(1, "9.9.9.9"), rec(2, "1.1.1.1"), rec(3, "9.9.9.9")];
    let plan = reconcile(&desired, &actual);
    assert!(plan.to_create.is_empty());
    assert_eq!(plan.to_delete, vec![rec(1, "9.9.9.9"), rec(3, "9.9.9.9")]);
    assert_eq!(plan.up_to_date, addrs(&["1.1.1.1"]));
}

#[test]
fn duplicate_desired_records_are_kept() {
    let desired = addrs(&["1.1.1.1"]);
    let actual = vec![rec(1, "1.1.1.1"), rec(2, "1.1.1.1")];
    let plan = reconcile(&desired, &actual);
    assert!(plan.to_create.is_empty());
    assert!(plan.to_delete.is_empty());
    assert_eq!(plan.up_to_date, addrs(&["1.1.1.1"]));
}

fn apply(desired: &[String], actual: &[Record], plan: &ActionSet, first_new_id: u64) -> Vec<Record> {
    let mut after: Vec<Record> = actual
        .iter()
        .filter(|r| desired.contains(&r.address))
        .cloned()
        .collect();
    let mut next_id = first_new_id;
    for a in &plan.to_create {
        after.push(Record { id: next_id, address: a.clone(), ttl: 77 });
        next_id += 1;
    }
    after
}

#[test]
fn second_pass_after_apply_finds_nothing_to_do() {
    let desired = addrs(&["1.2.3.4", "5.6.7.8"]);
    let actual = vec![rec(1, "5.6.7.8"), rec(2, "9.9.9.9")];
    let plan = reconcile(&desired, &actual);
    let after = apply(&desired, &actual, &plan, 100);
    let second = reconcile(&desired, &after);
    assert!(second.to_create.is_empty());
    assert!(second.to_delete.is_empty());
}

#[test]
fn second_pass_after_empty_convergence_stays_empty() {
    let desired: Vec<String> = Vec::new();
    let actual = vec![rec(1, "1.1.1.1")];
    let plan = reconcile(&desired, &actual);
    let after = apply(&desired, &actual, &plan, 50);
    assert!(after.is_empty());
    let second = reconcile(&desired, &after);
    assert!(second.to_create.is_empty());
    assert!(second.to_delete.is_empty());
}
