//! The desired address set: the public addresses of the tagged compute
//! instances, deduplicated.

use vstd::prelude::*;

use vstd::seq_lib::lemma_seq_contains_after_push;

use crate::records::{contains_address, str_views};

verus! {

/// One network interface of an instance: the provider tags it `public` or
/// `private`, and it carries one address.
#[derive(Debug, Clone, PartialEq, Eq)]
pub struct NetworkInterface {
    pub kind: String,
    pub ip_address: String,
}

/// The mathematical value of a [`NetworkInterface`].
pub struct NetworkInterfaceModel {
    pub kind: Seq<char>,
    pub ip_address: Seq<char>,
}

impl View for NetworkInterface {
    type V = NetworkInterfaceModel;

    open spec fn view(&self) -> NetworkInterfaceModel {
        NetworkInterfaceModel { kind: self.kind@, ip_address: self.ip_address@ }
    }
}

/// One compute instance, reduced to its network interfaces.
#[derive(Debug, Clone, PartialEq, Eq)]
pub struct Instance {
    pub v4: Vec<NetworkInterface>,
}

/// The mathematical value of an [`Instance`].
pub struct InstanceModel {
    pub v4: Seq<NetworkInterfaceModel>,
}

impl View for Instance {
    type V = InstanceModel;

    open spec fn view(&self) -> InstanceModel {
        InstanceModel { v4: self.v4@.map_values(|n: NetworkInterface| n@) }
    }
}

/// The values of a sequence of instances.
pub open spec fn inst_models(is: Seq<Instance>) -> Seq<InstanceModel> {
    is.map_values(|i: Instance| i@)
}

/// The tag that marks an interface as public.
pub open spec fn public_kind() -> Seq<char> {
    "public"@
}

/// The addresses of one instance's public interfaces, in interface order.
pub open spec fn spec_instance_ips(ifs: Seq<NetworkInterfaceModel>) -> Seq<Seq<char>>
    decreases ifs.len(),
{
    if ifs.len() == 0 {
        Seq::empty()
    } else {
        let rest = spec_instance_ips(ifs.drop_last());
        if ifs.last().kind == public_kind() {
            rest.push(ifs.last().ip_address)
        } else {
            rest
        }
    }
}

/// The public addresses of a group of instances, in listing order, with
/// repetitions kept.
pub open spec fn spec_all_public_ips(instances: Seq<InstanceModel>) -> Seq<Seq<char>>
    decreases instances.len(),
{
    if instances.len() == 0 {
        Seq::empty()
    } else {
        spec_all_public_ips(instances.drop_last()) + spec_instance_ips(instances.last().v4)
    }
}

/// Whether no two entries of `ss` are the same string.
pub open spec fn no_dup_views(ss: Seq<Seq<char>>) -> bool {
    forall|i: int, j: int| 0 <= i < j < ss.len() ==> ss[i] != ss[j]
}

/// The first-occurrence deduplication of a sequence of strings: each
/// string once, in the order in which it first appears.
pub open spec fn spec_dedup_first(ss: Seq<Seq<char>>) -> Seq<Seq<char>>
    decreases ss.len(),
{
    if ss.len() == 0 {
        Seq::empty()
    } else {
        let rest = spec_dedup_first(ss.drop_last());
        if ss.drop_last().contains(ss.last()) {
            rest
        } else {
            rest.push(ss.last())
        }
    }
}

/// Deduplication keeps exactly the strings of its input.
pub proof fn lemma_dedup_first_membership(ss: Seq<Seq<char>>)
    ensures
        forall|x: Seq<char>| #[trigger] spec_dedup_first(ss).contains(x) <==> ss.contains(x),
    decreases ss.len(),
{
    if ss.len() > 0 {
        lemma_dedup_first_membership(ss.drop_last());
        let rest = spec_dedup_first(ss.drop_last());
        let last = ss.last();
        assert(ss =~= ss.drop_last().push(last));
        assert forall|x: Seq<char>|
            #[trigger] spec_dedup_first(ss).contains(x) <==> ss.contains(x) by {
            lemma_seq_contains_after_push(ss.drop_last(), last, x);
            if !ss.drop_last().contains(last) {
                lemma_seq_contains_after_push(rest, last, x);
            }
        }
    }
}

/// Deduplication leaves no two equal strings.
pub proof fn lemma_dedup_first_no_dup(ss: Seq<Seq<char>>)
    ensures
        no_dup_views(spec_dedup_first(ss)),
    decreases ss.len(),
{
    if ss.len() > 0 {
        lemma_dedup_first_no_dup(ss.drop_last());
        lemma_dedup_first_membership(ss.drop_last());
        let rest = spec_dedup_first(ss.drop_last());
        let last = ss.last();
        if !ss.drop_last().contains(last) {
            let out = rest.push(last);
            assert forall|i: int, j: int| 0 <= i < j < out.len() implies out[i] != out[j] by {
                if j < rest.len() {
                } else {
                    assert(rest.contains(rest[i]));
                }
            }
        }
    }
}

/// The desired address set: every address carried by a public interface of
/// some instance, each address once, in order of first appearance. Two
/// instances sharing an address collapse into one entry; an instance with
/// no public interface contributes nothing.
pub fn public_ips(instances: &Vec<Instance>) -> (ips: Vec<String>)
    ensures
        str_views(ips@) == spec_dedup_first(spec_all_public_ips(inst_models(instances@))),
        str_views(ips@).to_set() == spec_all_public_ips(inst_models(instances@)).to_set(),
        no_dup_views(str_views(ips@)),
{
    let ghost im = inst_models(instances@);
    let public: String = "public".to_owned();
    proof {
        assert(public@ == public_kind());
    }
    let mut ips: Vec<String> = Vec::new();
    let mut i: usize = 0;
    while i < instances.len()
        invariant
            i <= instances.len(),
            im == inst_models(instances@),
            public@ == public_kind(),
            str_views(ips@) == spec_dedup_first(spec_all_public_ips(im.take(i as int))),
        decreases instances.len() - i,
    {
        let inst = &instances[i];
        let ghost vm = im[i as int].v4;
        proof {
            assert(im[i as int] == instances@[i as int]@);
            assert(spec_instance_ips(vm.take(0)) =~= Seq::<Seq<char>>::empty());
            Seq::add_empty_right(
                spec_all_public_ips(im.take(i as int)),
                spec_instance_ips(vm.take(0)),
            );
        }
        let mut j: usize = 0;
        while j < inst.v4.len()
            invariant
                j <= inst.v4.len(),
                i < instances.len(),
                im == inst_models(instances@),
                vm == im[i as int].v4,
                vm == instances@[i as int]@.v4,
                inst == &instances@[i as int],
                public@ == public_kind(),
                str_views(ips@) == spec_dedup_first(
                    spec_all_public_ips(im.take(i as int)) + spec_instance_ips(vm.take(j as int)),
                ),
            decreases inst.v4.len() - j,
        {
            let ghost before = spec_all_public_ips(im.take(i as int)) + spec_instance_ips(
                vm.take(j as int),
            );
            proof {
                let post = vm.take(j + 1);
                assert(post.drop_last() =~= vm.take(j as int));
                assert(post.last() == vm[j as int]);
                assert(vm[j as int] == inst.v4@[j as int]@);
            }
            let iface = &inst.v4[j];
            if iface.kind == public {
                let addr = iface.ip_address.clone();
                proof {
                    assert(spec_instance_ips(vm.take(j + 1)) == spec_instance_ips(
                        vm.take(j as int),
                    ).push(addr@));
                    Seq::push_distributes_over_add(
                        spec_all_public_ips(im.take(i as int)),
                        spec_instance_ips(vm.take(j as int)),
                        addr@,
                    );
                    assert(before.push(addr@).drop_last() =~= before);
                    lemma_dedup_first_membership(before);
                }
                if !contains_address(&ips, &addr) {
                    proof {
                        assert(!before.contains(addr@));
                        assert(str_views(ips@.push(addr)) =~= str_views(ips@).push(addr@));
                    }
                    ips.push(addr);
                } else {
                    proof {
                        assert(before.contains(addr@));
                    }
                }
            } else {
                proof {
                    assert(spec_instance_ips(vm.take(j + 1)) == spec_instance_ips(
                        vm.take(j as int),
                    ));
                }
            }
            j = j + 1;
        }
        proof {
            assert(vm.take(inst.v4@.len() as int) =~= vm);
            let post = im.take(i + 1);
            assert(post.drop_last() =~= im.take(i as int));
            assert(post.last() == im[i as int]);
        }
        i = i + 1;
    }
    proof {
        assert(im.take(instances@.len() as int) =~= im);
        lemma_dedup_first_membership(spec_all_public_ips(im));
        lemma_dedup_first_no_dup(spec_all_public_ips(im));
        assert(str_views(ips@).to_set() =~= spec_all_public_ips(im).to_set());
    }
    ips
}

} // verus!
