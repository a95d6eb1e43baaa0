//! The properties that the reconciliation pass guarantees, stated and
//! proved over its specification functions.

use vstd::prelude::*;

use vstd::seq_lib::lemma_seq_contains_after_push;

use crate::instances::no_dup_views;
use crate::reconcile::{
    has_addr, record_addrs, spec_to_create, spec_to_delete, spec_to_delete_set, spec_up_to_date,
};
use crate::records::RecordModel;

verus! {

/// An address is scheduled for creation exactly when it is desired and no
/// existing record carries it.
pub proof fn lemma_to_create_membership(desired: Seq<Seq<char>>, actual: Seq<RecordModel>)
    ensures
        forall|a: Seq<char>|
            #[trigger] spec_to_create(desired, actual).contains(a) <==> (desired.contains(a)
                && !has_addr(actual, a)),
    decreases desired.len(),
{
    if desired.len() > 0 {
        lemma_to_create_membership(desired.drop_last(), actual);
        let rest = spec_to_create(desired.drop_last(), actual);
        let last = desired.last();
        assert(desired =~= desired.drop_last().push(last));
        assert forall|a: Seq<char>|
            #[trigger] spec_to_create(desired, actual).contains(a) <==> (desired.contains(a)
                && !has_addr(actual, a)) by {
            lemma_seq_contains_after_push(desired.drop_last(), last, a);
            if !has_addr(actual, last) {
                lemma_seq_contains_after_push(rest, last, a);
            }
        }
    }
}

/// A record is scheduled for deletion exactly when it exists and its
/// address is no longer desired.
pub proof fn lemma_to_delete_membership(desired: Seq<Seq<char>>, actual: Seq<RecordModel>)
    ensures
        forall|r: RecordModel|
            #[trigger] spec_to_delete(desired, actual).contains(r) <==> (actual.contains(r)
                && !desired.contains(r.address)),
    decreases actual.len(),
{
    if actual.len() > 0 {
        lemma_to_delete_membership(desired, actual.drop_last());
        let rest = spec_to_delete(desired, actual.drop_last());
        let last = actual.last();
        assert(actual =~= actual.drop_last().push(last));
        assert forall|r: RecordModel|
            #[trigger] spec_to_delete(desired, actual).contains(r) <==> (actual.contains(r)
                && !desired.contains(r.address)) by {
            lemma_seq_contains_after_push(actual.drop_last(), last, r);
            if !desired.contains(last.address) {
                lemma_seq_contains_after_push(rest, last, r);
            }
        }
    }
}

/// An address is reported as up to date exactly when it is desired and some
/// existing record carries it.
pub proof fn lemma_up_to_date_membership(desired: Seq<Seq<char>>, actual: Seq<RecordModel>)
    ensures
        forall|a: Seq<char>|
            #[trigger] spec_up_to_date(desired, actual).contains(a) <==> (desired.contains(a)
                && has_addr(actual, a)),
    decreases desired.len(),
{
    if desired.len() > 0 {
        lemma_up_to_date_membership(desired.drop_last(), actual);
        let rest = spec_up_to_date(desired.drop_last(), actual);
        let last = desired.last();
        assert(desired =~= desired.drop_last().push(last));
        assert forall|a: Seq<char>|
            #[trigger] spec_up_to_date(desired, actual).contains(a) <==> (desired.contains(a)
                && has_addr(actual, a)) by {
            lemma_seq_contains_after_push(desired.drop_last(), last, a);
            if has_addr(actual, last) {
                lemma_seq_contains_after_push(rest, last, a);
            }
        }
    }
}

/// The pass partitions its inputs: as sets, the addresses to create are the
/// desired ones less those on record, the records to delete are exactly the
/// existing ones with an undesired address, the up-to-date addresses are
/// the desired ones on record, and no address is both to create and up to
/// date.
pub proof fn lemma_reconcile_partitions(desired: Seq<Seq<char>>, actual: Seq<RecordModel>)
    ensures
        spec_to_create(desired, actual).to_set() == desired.to_set().difference(
            record_addrs(actual),
        ),
        forall|r: RecordModel|
            #[trigger] spec_to_delete(desired, actual).contains(r) <==> (actual.contains(r)
                && !desired.contains(r.address)),
        spec_up_to_date(desired, actual).to_set() == desired.to_set().intersect(
            record_addrs(actual),
        ),
        spec_to_create(desired, actual).to_set().intersect(
            spec_up_to_date(desired, actual).to_set(),
        ) == Set::<Seq<char>>::empty(),
{
    lemma_to_create_membership(desired, actual);
    lemma_to_delete_membership(desired, actual);
    lemma_up_to_date_membership(desired, actual);
    assert(spec_to_create(desired, actual).to_set() =~= desired.to_set().difference(
        record_addrs(actual),
    ));
    assert(spec_up_to_date(desired, actual).to_set() =~= desired.to_set().intersect(
        record_addrs(actual),
    ));
    assert(spec_to_create(desired, actual).to_set().intersect(
        spec_up_to_date(desired, actual).to_set(),
    ) =~= Set::<Seq<char>>::empty());
}

/// With nothing desired, the pass schedules every existing record for
/// deletion and nothing for creation: convergence to the empty set.
pub proof fn lemma_reconcile_empty_desired(actual: Seq<RecordModel>)
    ensures
        spec_to_create(Seq::<Seq<char>>::empty(), actual) == Seq::<Seq<char>>::empty(),
        spec_to_delete(Seq::<Seq<char>>::empty(), actual) == actual,
        spec_up_to_date(Seq::<Seq<char>>::empty(), actual) == Seq::<Seq<char>>::empty(),
    decreases actual.len(),
{
    if actual.len() > 0 {
        lemma_reconcile_empty_desired(actual.drop_last());
        assert(actual.drop_last().push(actual.last()) =~= actual);
    }
}

/// With no existing record, the pass schedules every desired address for
/// creation and nothing for deletion.
pub proof fn lemma_reconcile_empty_actual(desired: Seq<Seq<char>>)
    ensures
        spec_to_create(desired, Seq::<RecordModel>::empty()) == desired,
        spec_to_delete(desired, Seq::<RecordModel>::empty()) == Seq::<RecordModel>::empty(),
        spec_up_to_date(desired, Seq::<RecordModel>::empty()) == Seq::<Seq<char>>::empty(),
    decreases desired.len(),
{
    if desired.len() > 0 {
        lemma_reconcile_empty_actual(desired.drop_last());
        assert(desired.drop_last().push(desired.last()) =~= desired);
    }
}

/// Which records are to delete depends on the desired addresses only as a
/// set: any desired sequence with the given address set selects the same
/// records, in the same order.
pub proof fn lemma_to_delete_by_set(
    desired: Seq<Seq<char>>,
    ipset: Set<Seq<char>>,
    actual: Seq<RecordModel>,
)
    requires
        desired.to_set() == ipset,
    ensures
        spec_to_delete(desired, actual) == spec_to_delete_set(ipset, actual),
    decreases actual.len(),
{
    if actual.len() > 0 {
        lemma_to_delete_by_set(desired, ipset, actual.drop_last());
    }
}

/// When the desired addresses are pairwise distinct, so are the addresses
/// scheduled for creation.
pub proof fn lemma_to_create_no_dup(desired: Seq<Seq<char>>, actual: Seq<RecordModel>)
    requires
        no_dup_views(desired),
    ensures
        no_dup_views(spec_to_create(desired, actual)),
    decreases desired.len(),
{
    if desired.len() > 0 {
        let prefix = desired.drop_last();
        let last = desired.last();
        assert(no_dup_views(prefix)) by {
            assert(forall|i: int, j: int|
                0 <= i < j < prefix.len() ==> prefix[i] == desired[i] && prefix[j] == desired[j]);
        }
        lemma_to_create_no_dup(prefix, actual);
        lemma_to_create_membership(prefix, actual);
        if !has_addr(actual, last) {
            let rest = spec_to_create(prefix, actual);
            assert(!rest.contains(last)) by {
                if rest.contains(last) {
                    let i = choose|i: int| 0 <= i < prefix.len() && prefix[i] == last;
                    assert(desired[i] == desired[desired.len() - 1]);
                }
            }
            let out = rest.push(last);
            assert forall|i: int, j: int| 0 <= i < j < out.len() implies out[i] != out[j] by {
                if j < rest.len() {
                } else {
                    assert(rest.contains(rest[i]));
                }
            }
        }
    }
}

/// The records that survive the apply phase: those of `actual` whose
/// address is desired, in order — exactly the ones not scheduled for
/// deletion.
pub open spec fn spec_surviving(desired: Seq<Seq<char>>, actual: Seq<RecordModel>) -> Seq<
    RecordModel,
>
    decreases actual.len(),
{
    if actual.len() == 0 {
        Seq::empty()
    } else {
        let rest = spec_surviving(desired, actual.drop_last());
        if desired.contains(actual.last().address) {
            rest.push(actual.last())
        } else {
            rest
        }
    }
}

/// A record survives the apply phase exactly when it exists and its
/// address is desired.
pub proof fn lemma_surviving_membership(desired: Seq<Seq<char>>, actual: Seq<RecordModel>)
    ensures
        forall|r: RecordModel|
            #[trigger] spec_surviving(desired, actual).contains(r) <==> (actual.contains(r)
                && desired.contains(r.address)),
    decreases actual.len(),
{
    if actual.len() > 0 {
        lemma_surviving_membership(desired, actual.drop_last());
        let rest = spec_surviving(desired, actual.drop_last());
        let last = actual.last();
        assert(actual =~= actual.drop_last().push(last));
        assert forall|r: RecordModel|
            #[trigger] spec_surviving(desired, actual).contains(r) <==> (actual.contains(r)
                && desired.contains(r.address)) by {
            lemma_seq_contains_after_push(actual.drop_last(), last, r);
            if desired.contains(last.address) {
                lemma_seq_contains_after_push(rest, last, r);
            }
        }
    }
}

/// The record set after one pass is applied: the records not deleted,
/// followed by the records the provider made for the created addresses.
pub open spec fn spec_after_apply(
    desired: Seq<Seq<char>>,
    actual: Seq<RecordModel>,
    created: Seq<RecordModel>,
) -> Seq<RecordModel> {
    spec_surviving(desired, actual) + created
}

/// Idempotence: once a pass is applied — its deletions done and one new
/// record made per address to create, whatever identifiers and
/// time-to-live the provider gave them — a second pass against the
/// resulting record set finds nothing to create and nothing to delete.
pub proof fn lemma_reconcile_idempotent(
    desired: Seq<Seq<char>>,
    actual: Seq<RecordModel>,
    created: Seq<RecordModel>,
)
    requires
        created.len() == spec_to_create(desired, actual).len(),
        forall|i: int|
            0 <= i < created.len() ==> (#[trigger] created[i].address) == spec_to_create(
                desired,
                actual,
            )[i],
    ensures
        spec_to_create(desired, spec_after_apply(desired, actual, created)) == Seq::<
            Seq<char>,
        >::empty(),
        spec_to_delete(desired, spec_after_apply(desired, actual, created)) == Seq::<
            RecordModel,
        >::empty(),
{
    let surv = spec_surviving(desired, actual);
    let after = spec_after_apply(desired, actual, created);
    let tc = spec_to_create(desired, actual);
    lemma_to_create_membership(desired, actual);
    lemma_surviving_membership(desired, actual);
    lemma_to_create_membership(desired, after);
    lemma_to_delete_membership(desired, after);

    // Every desired address is carried by some record after the apply.
    assert forall|a: Seq<char>| desired.contains(a) implies has_addr(after, a) by {
        if has_addr(actual, a) {
            let i = choose|i: int| 0 <= i < actual.len() && actual[i].address == a;
            let r = actual[i];
            assert(actual.contains(r));
            assert(surv.contains(r));
            let j = choose|j: int| 0 <= j < surv.len() && surv[j] == r;
            assert(after[j] == r);
        } else {
            assert(tc.contains(a));
            let j = choose|j: int| 0 <= j < tc.len() && tc[j] == a;
            assert(after[surv.len() + j] == created[j]);
            assert(after[surv.len() + j].address == a);
        }
    }
    let tc2 = spec_to_create(desired, after);
    if tc2.len() > 0 {
        assert(tc2.contains(tc2[0]));
    }
    assert(tc2 =~= Seq::<Seq<char>>::empty());

    // Every record after the apply carries a desired address.
    assert forall|r: RecordModel| after.contains(r) implies desired.contains(r.address) by {
        let i = choose|i: int| 0 <= i < after.len() && after[i] == r;
        if i < surv.len() {
            assert(surv[i] == r);
            assert(surv.contains(r));
        } else {
            let j = i - surv.len();
            assert(created[j] == r);
            assert(created[j].address == tc[j]);
            assert(tc.contains(tc[j]));
        }
    }
    let td2 = spec_to_delete(desired, after);
    if td2.len() > 0 {
        assert(td2.contains(td2[0]));
    }
    assert(td2 =~= Seq::<RecordModel>::empty());
}

} // verus!
