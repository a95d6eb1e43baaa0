//! The reconciliation pass: from the desired address set and the existing
//! records, the actions that make the record set match.

use vstd::prelude::*;

use crate::records::{contains_address, rec_models, str_views, Record, RecordModel};

verus! {

/// Whether some record in `rs` carries the address `a`.
pub open spec fn has_addr(rs: Seq<RecordModel>, a: Seq<char>) -> bool {
    exists|i: int| 0 <= i < rs.len() && rs[i].address == a
}

/// The addresses that the records in `rs` carry.
pub open spec fn record_addrs(rs: Seq<RecordModel>) -> Set<Seq<char>> {
    Set::new(|a: Seq<char>| has_addr(rs, a))
}

/// The addresses to create records for: those of `desired`, in order, that
/// no record of `actual` carries.
pub open spec fn spec_to_create(desired: Seq<Seq<char>>, actual: Seq<RecordModel>) -> Seq<
    Seq<char>,
>
    decreases desired.len(),
{
    if desired.len() == 0 {
        Seq::empty()
    } else {
        let rest = spec_to_create(desired.drop_last(), actual);
        if has_addr(actual, desired.last()) {
            rest
        } else {
            rest.push(desired.last())
        }
    }
}

/// The records to delete: those of `actual`, in order, whose address is no
/// longer desired. Every such record is listed, so duplicate records of one
/// undesired address are all cleaned up within a single pass.
pub open spec fn spec_to_delete(desired: Seq<Seq<char>>, actual: Seq<RecordModel>) -> Seq<
    RecordModel,
>
    decreases actual.len(),
{
    if actual.len() == 0 {
        Seq::empty()
    } else {
        let rest = spec_to_delete(desired, actual.drop_last());
        if desired.contains(actual.last().address) {
            rest
        } else {
            rest.push(actual.last())
        }
    }
}

/// The records to delete, against a desired address set rather than a
/// sequence: those of `actual`, in order, whose address is not in `ipset`.
pub open spec fn spec_to_delete_set(ipset: Set<Seq<char>>, actual: Seq<RecordModel>) -> Seq<
    RecordModel,
>
    decreases actual.len(),
{
    if actual.len() == 0 {
        Seq::empty()
    } else {
        let rest = spec_to_delete_set(ipset, actual.drop_last());
        if ipset.contains(actual.last().address) {
            rest
        } else {
            rest.push(actual.last())
        }
    }
}

/// The desired addresses that some record already carries; nothing is done
/// for them (in particular, a differing time-to-live is left as it is).
pub open spec fn spec_up_to_date(desired: Seq<Seq<char>>, actual: Seq<RecordModel>) -> Seq<
    Seq<char>,
>
    decreases desired.len(),
{
    if desired.len() == 0 {
        Seq::empty()
    } else {
        let rest = spec_up_to_date(desired.drop_last(), actual);
        if has_addr(actual, desired.last()) {
            rest.push(desired.last())
        } else {
            rest
        }
    }
}

/// The outcome of one reconciliation pass: which addresses need a record,
/// which records have to go, and which addresses are already in place.
#[derive(Debug, Clone, PartialEq, Eq)]
pub struct ActionSet {
    pub to_create: Vec<String>,
    pub to_delete: Vec<Record>,
    pub up_to_date: Vec<String>,
}

/// Whether some record in `records` carries the address `addr`.
fn has_record_with_addr(records: &Vec<Record>, addr: &String) -> (found: bool)
    ensures
        found == has_addr(rec_models(records@), addr@),
{
    let ghost rm = rec_models(records@);
    let mut j: usize = 0;
    while j < records.len()
        invariant
            j <= records.len(),
            rm == rec_models(records@),
            forall|k: int| 0 <= k < j ==> rm[k].address != addr@,
        decreases records.len() - j,
    {
        if records[j].address == *addr {
            proof {
                assert(rm[j as int].address == addr@);
            }
            return true;
        }
        j = j + 1;
    }
    false
}

/// One reconciliation pass. Pure: from the desired addresses and the
/// records that exist, the actions that converge the latter to the former.
///
/// Every record whose address is no longer desired is scheduled for
/// deletion, so several records carrying one stale address are all removed
/// in the same pass. When `desired` is empty every record is scheduled for
/// deletion: convergence to the empty set is deliberate.
pub fn reconcile(desired: &Vec<String>, actual: &Vec<Record>) -> (plan: ActionSet)
    ensures
        str_views(plan.to_create@) == spec_to_create(str_views(desired@), rec_models(actual@)),
        rec_models(plan.to_delete@) == spec_to_delete(str_views(desired@), rec_models(actual@)),
        str_views(plan.up_to_date@) == spec_up_to_date(str_views(desired@), rec_models(actual@)),
{
    let ghost dv = str_views(desired@);
    let ghost am = rec_models(actual@);

    let mut to_create: Vec<String> = Vec::new();
    let mut up_to_date: Vec<String> = Vec::new();
    let mut i: usize = 0;
    while i < desired.len()
        invariant
            i <= desired.len(),
            dv == str_views(desired@),
            am == rec_models(actual@),
            str_views(to_create@) == spec_to_create(dv.take(i as int), am),
            str_views(up_to_date@) == spec_up_to_date(dv.take(i as int), am),
        decreases desired.len() - i,
    {
        proof {
            let post = dv.take(i + 1);
            assert(post.drop_last() =~= dv.take(i as int));
            assert(post.last() == dv[i as int]);
            assert(dv[i as int] == desired@[i as int]@);
        }
        let a = desired[i].clone();
        if has_record_with_addr(actual, &a) {
            proof {
                assert(str_views(up_to_date@.push(a)) =~= str_views(up_to_date@).push(a@));
            }
            up_to_date.push(a);
        } else {
            proof {
                assert(str_views(to_create@.push(a)) =~= str_views(to_create@).push(a@));
            }
            to_create.push(a);
        }
        i = i + 1;
    }
    proof {
        assert(dv.take(desired@.len() as int) =~= dv);
    }

    let mut to_delete: Vec<Record> = Vec::new();
    let mut j: usize = 0;
    while j < actual.len()
        invariant
            j <= actual.len(),
            dv == str_views(desired@),
            am == rec_models(actual@),
            rec_models(to_delete@) == spec_to_delete(dv, am.take(j as int)),
        decreases actual.len() - j,
    {
        proof {
            let post = am.take(j + 1);
            assert(post.drop_last() =~= am.take(j as int));
            assert(post.last() == am[j as int]);
            assert(am[j as int] == actual@[j as int]@);
        }
        let r = &actual[j];
        if !contains_address(desired, &r.address) {
            let kept = Record { id: r.id, address: r.address.clone(), ttl: r.ttl };
            proof {
                assert(kept@ == am[j as int]);
                assert(rec_models(to_delete@.push(kept)) =~= rec_models(to_delete@).push(kept@));
            }
            to_delete.push(kept);
        }
        j = j + 1;
    }
    proof {
        assert(am.take(actual@.len() as int) =~= am);
    }

    ActionSet { to_create, to_delete, up_to_date }
}

} // verus!
