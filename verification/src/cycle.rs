//! One cycle's computation, end to end: from the raw instance and record
//! listings to the plan of actions. Pure — the caller does the listing
//! before and the provider calls after.

use vstd::prelude::*;

use crate::instances::{
    inst_models, no_dup_views, public_ips, spec_all_public_ips, spec_dedup_first, Instance,
};
use crate::laws::{
    lemma_to_create_membership, lemma_to_create_no_dup, lemma_to_delete_by_set,
    lemma_up_to_date_membership,
};
use crate::reconcile::{
    reconcile, record_addrs, spec_to_create, spec_to_delete_set, spec_up_to_date, ActionSet,
};
use crate::records::{
    entry_models, rec_models, select_records, spec_select, str_views, DomainEntry,
};

verus! {

/// Plans one reconciliation cycle from the raw listings: the desired
/// addresses are the public ones of the tagged instances, deduplicated;
/// the actual records are the listing's entries of the managed (name,
/// kind) triple; the plan is their reconciliation.
///
/// The addresses to create are the desired ones no matching record
/// carries, without repetition, in order of first appearance; the records
/// to delete are exactly the matching entries whose address is not
/// desired, in listing order; the up-to-date addresses are the desired
/// ones already carried.
pub fn plan_cycle(
    instances: &Vec<Instance>,
    entries: &Vec<DomainEntry>,
    record_name: &String,
    record_kind: &String,
) -> (plan: ActionSet)
    ensures
        str_views(plan.to_create@) == spec_to_create(
            spec_dedup_first(spec_all_public_ips(inst_models(instances@))),
            spec_select(entry_models(entries@), record_name@, record_kind@),
        ),
        str_views(plan.up_to_date@) == spec_up_to_date(
            spec_dedup_first(spec_all_public_ips(inst_models(instances@))),
            spec_select(entry_models(entries@), record_name@, record_kind@),
        ),
        str_views(plan.to_create@).to_set() == spec_all_public_ips(
            inst_models(instances@),
        ).to_set().difference(
            record_addrs(spec_select(entry_models(entries@), record_name@, record_kind@)),
        ),
        no_dup_views(str_views(plan.to_create@)),
        rec_models(plan.to_delete@) == spec_to_delete_set(
            spec_all_public_ips(inst_models(instances@)).to_set(),
            spec_select(entry_models(entries@), record_name@, record_kind@),
        ),
        str_views(plan.up_to_date@).to_set() == spec_all_public_ips(
            inst_models(instances@),
        ).to_set().intersect(
            record_addrs(spec_select(entry_models(entries@), record_name@, record_kind@)),
        ),
{
    let desired = public_ips(instances);
    let actual = select_records(entries, record_name, record_kind);
    let plan = reconcile(&desired, &actual);
    proof {
        let dv = str_views(desired@);
        let rm = rec_models(actual@);
        let ipset = spec_all_public_ips(inst_models(instances@)).to_set();
        lemma_to_create_membership(dv, rm);
        lemma_up_to_date_membership(dv, rm);
        lemma_to_create_no_dup(dv, rm);
        lemma_to_delete_by_set(dv, ipset, rm);
        assert(str_views(plan.to_create@).to_set() =~= ipset.difference(record_addrs(rm)));
        assert(str_views(plan.up_to_date@).to_set() =~= ipset.intersect(record_addrs(rm)));
    }
    plan
}

} // verus!
