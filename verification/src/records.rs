//! The records that the library owns, and the selection of them from a
//! domain's full record listing.

use vstd::prelude::*;

verus! {

/// One existing DNS record of the managed (name, kind) triple: its provider
/// identifier (unique within the domain), the address it carries, and its
/// time-to-live in seconds.
#[derive(Debug, Clone, PartialEq, Eq)]
pub struct Record {
    pub id: u64,
    pub address: String,
    pub ttl: u32,
}

/// The mathematical value of a [`Record`].
pub struct RecordModel {
    pub id: int,
    pub address: Seq<char>,
    pub ttl: int,
}

impl View for Record {
    type V = RecordModel;

    open spec fn view(&self) -> RecordModel {
        RecordModel { id: self.id as int, address: self.address@, ttl: self.ttl as int }
    }
}

/// The values of a sequence of records.
pub open spec fn rec_models(rs: Seq<Record>) -> Seq<RecordModel> {
    rs.map_values(|r: Record| r@)
}

/// The views of a sequence of strings.
pub open spec fn str_views(ss: Seq<String>) -> Seq<Seq<char>> {
    ss.map_values(|s: String| s@)
}

/// One entry of a domain's record listing, before selection: its name and
/// kind decide whether it belongs to the managed triple, and its data is the
/// address it carries.
#[derive(Debug, Clone, PartialEq, Eq)]
pub struct DomainEntry {
    pub id: u64,
    pub name: String,
    pub kind: String,
    pub data: String,
    pub ttl: u32,
}

/// The mathematical value of a [`DomainEntry`].
pub struct DomainEntryModel {
    pub id: int,
    pub name: Seq<char>,
    pub kind: Seq<char>,
    pub data: Seq<char>,
    pub ttl: int,
}

impl View for DomainEntry {
    type V = DomainEntryModel;

    open spec fn view(&self) -> DomainEntryModel {
        DomainEntryModel {
            id: self.id as int,
            name: self.name@,
            kind: self.kind@,
            data: self.data@,
            ttl: self.ttl as int,
        }
    }
}

/// The values of a sequence of domain entries.
pub open spec fn entry_models(es: Seq<DomainEntry>) -> Seq<DomainEntryModel> {
    es.map_values(|e: DomainEntry| e@)
}

/// The record that a matching domain entry stands for.
pub open spec fn entry_record(e: DomainEntryModel) -> RecordModel {
    RecordModel { id: e.id, address: e.data, ttl: e.ttl }
}

/// Whether a domain entry belongs to the managed (name, kind) triple.
pub open spec fn entry_matches(e: DomainEntryModel, name: Seq<char>, kind: Seq<char>) -> bool {
    e.name == name && e.kind == kind
}

/// The records of the managed triple among a domain's entries: those whose
/// name and kind both match, in listing order, each reduced to its record.
pub open spec fn spec_select(es: Seq<DomainEntryModel>, name: Seq<char>, kind: Seq<char>) -> Seq<
    RecordModel,
>
    decreases es.len(),
{
    if es.len() == 0 {
        Seq::empty()
    } else {
        let rest = spec_select(es.drop_last(), name, kind);
        if entry_matches(es.last(), name, kind) {
            rest.push(entry_record(es.last()))
        } else {
            rest
        }
    }
}

/// Whether `addrs` holds the address `addr`.
pub(crate) fn contains_address(addrs: &Vec<String>, addr: &String) -> (found: bool)
    ensures
        found == str_views(addrs@).contains(addr@),
{
    let ghost av = str_views(addrs@);
    let mut j: usize = 0;
    while j < addrs.len()
        invariant
            j <= addrs.len(),
            av == str_views(addrs@),
            forall|k: int| 0 <= k < j ==> av[k] != addr@,
        decreases addrs.len() - j,
    {
        if addrs[j] == *addr {
            proof {
                assert(av[j as int] == addr@);
            }
            return true;
        }
        j = j + 1;
    }
    false
}

/// Selects from a domain's full record listing the records of the managed
/// (name, kind) triple, keeping listing order.
pub fn select_records(entries: &Vec<DomainEntry>, name: &String, kind: &String) -> (rs: Vec<Record>)
    ensures
        rec_models(rs@) == spec_select(entry_models(entries@), name@, kind@),
{
    let ghost es = entry_models(entries@);
    let mut rs: Vec<Record> = Vec::new();
    let mut i: usize = 0;
    while i < entries.len()
        invariant
            i <= entries.len(),
            es == entry_models(entries@),
            rec_models(rs@) == spec_select(es.take(i as int), name@, kind@),
        decreases entries.len() - i,
    {
        let e = &entries[i];
        proof {
            let post = es.take(i + 1);
            assert(post.drop_last() =~= es.take(i as int));
            assert(post.last() == es[i as int]);
            assert(es[i as int] == entries@[i as int]@);
        }
        if e.name == *name && e.kind == *kind {
            let r = Record { id: e.id, address: e.data.clone(), ttl: e.ttl };
            proof {
                assert(r@ == entry_record(es[i as int]));
                assert(rec_models(rs@.push(r)) =~= rec_models(rs@).push(r@));
            }
            rs.push(r);
        }
        i = i + 1;
    }
    proof {
        assert(es.take(entries@.len() as int) =~= es);
    }
    rs
}

} // verus!
