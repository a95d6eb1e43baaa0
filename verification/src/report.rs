//! The apply phase's bookkeeping: from the plan and the outcome of each
//! provider call, the report of one convergence pass.
//!
//! The caller performs the calls — creates first, then deletes — hands back
//! one outcome per action, and failures stay isolated: each is recorded
//! against its action while every other action still counts.

use vstd::prelude::*;

use crate::reconcile::ActionSet;
use crate::records::{rec_models, str_views, Record, RecordModel};

verus! {

/// What one provider call came to.
#[derive(Debug, Clone, PartialEq, Eq)]
pub enum ApplyOutcome {
    /// The call went through.
    Succeeded,
    /// The call failed; the payload says why.
    Failed(String),
    /// The record to delete was already gone: logged and skipped, not a
    /// failure.
    NotFound,
}

/// The mathematical value of an [`ApplyOutcome`].
pub enum OutcomeModel {
    Succeeded,
    Failed(Seq<char>),
    NotFound,
}

impl View for ApplyOutcome {
    type V = OutcomeModel;

    open spec fn view(&self) -> OutcomeModel {
        match self {
            ApplyOutcome::Succeeded => OutcomeModel::Succeeded,
            ApplyOutcome::Failed(c) => OutcomeModel::Failed(c@),
            ApplyOutcome::NotFound => OutcomeModel::NotFound,
        }
    }
}

/// The values of a sequence of outcomes.
pub open spec fn out_models(os: Seq<ApplyOutcome>) -> Seq<OutcomeModel> {
    os.map_values(|o: ApplyOutcome| o@)
}

/// A create call that failed, tagged with the address it was for.
#[derive(Debug, Clone, PartialEq, Eq)]
pub struct CreateFailure {
    pub address: String,
    pub cause: String,
}

/// The mathematical value of a [`CreateFailure`].
pub struct CreateFailureModel {
    pub address: Seq<char>,
    pub cause: Seq<char>,
}

impl View for CreateFailure {
    type V = CreateFailureModel;

    open spec fn view(&self) -> CreateFailureModel {
        CreateFailureModel { address: self.address@, cause: self.cause@ }
    }
}

/// The values of a sequence of create failures.
pub open spec fn cfail_models(fs: Seq<CreateFailure>) -> Seq<CreateFailureModel> {
    fs.map_values(|f: CreateFailure| f@)
}

/// A delete call that failed, tagged with the record it was for.
#[derive(Debug, Clone, PartialEq, Eq)]
pub struct DeleteFailure {
    pub id: u64,
    pub address: String,
    pub cause: String,
}

/// The mathematical value of a [`DeleteFailure`].
pub struct DeleteFailureModel {
    pub id: int,
    pub address: Seq<char>,
    pub cause: Seq<char>,
}

impl View for DeleteFailure {
    type V = DeleteFailureModel;

    open spec fn view(&self) -> DeleteFailureModel {
        DeleteFailureModel { id: self.id as int, address: self.address@, cause: self.cause@ }
    }
}

/// The values of a sequence of delete failures.
pub open spec fn dfail_models(fs: Seq<DeleteFailure>) -> Seq<DeleteFailureModel> {
    fs.map_values(|f: DeleteFailure| f@)
}

/// How many outcomes went through.
pub open spec fn count_succeeded(outs: Seq<OutcomeModel>) -> nat
    decreases outs.len(),
{
    if outs.len() == 0 {
        0
    } else {
        count_succeeded(outs.drop_last()) + match outs.last() {
            OutcomeModel::Succeeded => 1 as nat,
            _ => 0 as nat,
        }
    }
}

/// How many outcomes found the record already gone.
pub open spec fn count_not_found(outs: Seq<OutcomeModel>) -> nat
    decreases outs.len(),
{
    if outs.len() == 0 {
        0
    } else {
        count_not_found(outs.drop_last()) + match outs.last() {
            OutcomeModel::NotFound => 1 as nat,
            _ => 0 as nat,
        }
    }
}

/// The failed create calls, in order, each tagged with its address.
pub open spec fn spec_create_failures(addrs: Seq<Seq<char>>, outs: Seq<OutcomeModel>) -> Seq<
    CreateFailureModel,
>
    recommends
        addrs.len() == outs.len(),
    decreases outs.len(),
{
    if outs.len() == 0 || addrs.len() == 0 {
        Seq::empty()
    } else {
        let rest = spec_create_failures(addrs.drop_last(), outs.drop_last());
        match outs.last() {
            OutcomeModel::Failed(c) => rest.push(
                CreateFailureModel { address: addrs.last(), cause: c },
            ),
            _ => rest,
        }
    }
}

/// The failed delete calls, in order, each tagged with its record.
pub open spec fn spec_delete_failures(recs: Seq<RecordModel>, outs: Seq<OutcomeModel>) -> Seq<
    DeleteFailureModel,
>
    recommends
        recs.len() == outs.len(),
    decreases outs.len(),
{
    if outs.len() == 0 || recs.len() == 0 {
        Seq::empty()
    } else {
        let rest = spec_delete_failures(recs.drop_last(), outs.drop_last());
        match outs.last() {
            OutcomeModel::Failed(c) => rest.push(
                DeleteFailureModel { id: recs.last().id, address: recs.last().address, cause: c },
            ),
            _ => rest,
        }
    }
}

/// What one convergence pass came to: how many creates and deletes went
/// through, how many deletes found the record already gone, and each
/// failure with the action it belongs to.
#[derive(Debug, Clone, PartialEq, Eq)]
pub struct ExecutionReport {
    pub created: usize,
    pub deleted: usize,
    pub not_found: usize,
    pub create_failures: Vec<CreateFailure>,
    pub delete_failures: Vec<DeleteFailure>,
}

/// Builds the report of one convergence pass from the plan and one outcome
/// per action: `create_outcomes[k]` for the plan's `k`-th address to
/// create, `delete_outcomes[k]` for its `k`-th record to delete.
pub fn build_report(
    plan: &ActionSet,
    create_outcomes: &Vec<ApplyOutcome>,
    delete_outcomes: &Vec<ApplyOutcome>,
) -> (report: ExecutionReport)
    requires
        create_outcomes@.len() == plan.to_create@.len(),
        delete_outcomes@.len() == plan.to_delete@.len(),
    ensures
        report.created == count_succeeded(out_models(create_outcomes@)),
        report.deleted == count_succeeded(out_models(delete_outcomes@)),
        report.not_found == count_not_found(out_models(delete_outcomes@)),
        cfail_models(report.create_failures@) == spec_create_failures(
            str_views(plan.to_create@),
            out_models(create_outcomes@),
        ),
        dfail_models(report.delete_failures@) == spec_delete_failures(
            rec_models(plan.to_delete@),
            out_models(delete_outcomes@),
        ),
{
    let ghost ca = str_views(plan.to_create@);
    let ghost co = out_models(create_outcomes@);
    let mut created: usize = 0;
    let mut create_failures: Vec<CreateFailure> = Vec::new();
    let mut k: usize = 0;
    while k < create_outcomes.len()
        invariant
            k <= create_outcomes.len(),
            ca == str_views(plan.to_create@),
            co == out_models(create_outcomes@),
            co.len() == ca.len(),
            created <= k,
            created == count_succeeded(co.take(k as int)),
            cfail_models(create_failures@) == spec_create_failures(
                ca.take(k as int),
                co.take(k as int),
            ),
        decreases create_outcomes.len() - k,
    {
        proof {
            assert(co.take(k + 1).drop_last() =~= co.take(k as int));
            assert(ca.take(k + 1).drop_last() =~= ca.take(k as int));
            assert(co.take(k + 1).last() == co[k as int]);
            assert(ca.take(k + 1).last() == ca[k as int]);
            assert(co[k as int] == create_outcomes@[k as int]@);
            assert(ca[k as int] == plan.to_create@[k as int]@);
        }
        match &create_outcomes[k] {
            ApplyOutcome::Succeeded => {
                created = created + 1;
            },
            ApplyOutcome::Failed(cause) => {
                let f = CreateFailure {
                    address: plan.to_create[k].clone(),
                    cause: cause.clone(),
                };
                proof {
                    assert(cfail_models(create_failures@.push(f)) =~= cfail_models(
                        create_failures@,
                    ).push(f@));
                }
                create_failures.push(f);
            },
            ApplyOutcome::NotFound => {},
        }
        k = k + 1;
    }
    proof {
        assert(co.take(create_outcomes@.len() as int) =~= co);
        assert(ca.take(create_outcomes@.len() as int) =~= ca);
    }

    let ghost dr = rec_models(plan.to_delete@);
    let ghost dout = out_models(delete_outcomes@);
    let mut deleted: usize = 0;
    let mut not_found: usize = 0;
    let mut delete_failures: Vec<DeleteFailure> = Vec::new();
    let mut m: usize = 0;
    while m < delete_outcomes.len()
        invariant
            m <= delete_outcomes.len(),
            dr == rec_models(plan.to_delete@),
            dout == out_models(delete_outcomes@),
            dout.len() == dr.len(),
            deleted <= m,
            not_found <= m,
            deleted == count_succeeded(dout.take(m as int)),
            not_found == count_not_found(dout.take(m as int)),
            dfail_models(delete_failures@) == spec_delete_failures(
                dr.take(m as int),
                dout.take(m as int),
            ),
        decreases delete_outcomes.len() - m,
    {
        proof {
            assert(dout.take(m + 1).drop_last() =~= dout.take(m as int));
            assert(dr.take(m + 1).drop_last() =~= dr.take(m as int));
            assert(dout.take(m + 1).last() == dout[m as int]);
            assert(dr.take(m + 1).last() == dr[m as int]);
            assert(dout[m as int] == delete_outcomes@[m as int]@);
            assert(dr[m as int] == plan.to_delete@[m as int]@);
        }
        match &delete_outcomes[m] {
            ApplyOutcome::Succeeded => {
                deleted = deleted + 1;
            },
            ApplyOutcome::Failed(cause) => {
                let rec: &Record = &plan.to_delete[m];
                let f = DeleteFailure {
                    id: rec.id,
                    address: rec.address.clone(),
                    cause: cause.clone(),
                };
                proof {
                    assert(f@ == (DeleteFailureModel {
                        id: dr[m as int].id,
                        address: dr[m as int].address,
                        cause: delete_outcomes@[m as int]@->Failed_0,
                    }));
                    assert(dfail_models(delete_failures@.push(f)) =~= dfail_models(
                        delete_failures@,
                    ).push(f@));
                }
                delete_failures.push(f);
            },
            ApplyOutcome::NotFound => {
                not_found = not_found + 1;
            },
        }
        m = m + 1;
    }
    proof {
        assert(dout.take(delete_outcomes@.len() as int) =~= dout);
        assert(dr.take(delete_outcomes@.len() as int) =~= dr);
    }

    ExecutionReport { created, deleted, not_found, create_failures, delete_failures }
}

} // verus!
