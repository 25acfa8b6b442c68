//! Clusters: a logical name that stands for several instances, called
//! `name:0`, `name:1` and so on, and the plan that brings a cluster to a
//! wanted number of instances.

use vstd::prelude::*;
use vstd::string::StringExecFns;

use crate::protocol::StartPayload;
use crate::resolve::{belongs_to, is_instance_of};
use crate::table::{
    lemma_created, lemma_index_of, lemma_index_of_name, lemma_removed, ProcessTable, TableView,
};
use crate::text::{
    decimal, lemma_decimal_injective, lemma_parse_decimal, push_decimal, };

verus! {

/// The name of the instance `k` of the cluster `base`.
pub open spec fn instance_name(base: Seq<char>, k: nat) -> Seq<char> {
    base + ":"@ + decimal(k)
}

/// The names under which a process with `instances` instances is started:
/// its own name for one instance (or none), else the names of the
/// instances 0 to `instances - 1`.
pub open spec fn start_names(name: Seq<char>, instances: u32) -> Seq<Seq<char>> {
    if instances > 1 {
        Seq::new(instances as nat, |k: int| instance_name(name, k as nat))
    } else {
        seq![name]
    }
}

/// The names of the instances to start when a cluster of `current`
/// instances is to have `target`: the next numbers up to `target - 1`.
pub open spec fn names_to_start(base: Seq<char>, current: nat, target: nat) -> Seq<Seq<char>> {
    if target > current {
        Seq::new((target - current) as nat, |i: int| instance_name(base, (current + i) as nat))
    } else {
        Seq::empty()
    }
}

/// The names of the instances to stop when a cluster of `current`
/// instances is to have `target`: the numbers from `current - 1` down to
/// `target`, the highest first.
pub open spec fn names_to_stop(base: Seq<char>, current: nat, target: nat) -> Seq<Seq<char>> {
    if target < current {
        Seq::new((current - target) as nat, |i: int| instance_name(base, (current - 1 - i) as nat))
    } else {
        Seq::empty()
    }
}

/// Whether the records that belong to `base` are exactly the instances 0
/// to `n - 1`.
pub open spec fn is_cluster(v: TableView, base: Seq<char>, n: nat) -> bool {
    &&& forall|k: nat| k < n ==> (#[trigger] v.index_of_name(instance_name(base, k))) is Some
    &&& forall|i: int|
        0 <= i < v.records.len() && belongs_to((#[trigger] v.records[i]).name, base) ==> exists|
            k: nat,
        |
            k < n && v.records[i].name == instance_name(base, k)
}

/// The name of an instance names an instance of its cluster, and is not
/// the cluster's own name.
pub proof fn lemma_instance_name(base: Seq<char>, k: nat)
    requires
        k <= u32::MAX,
    ensures
        is_instance_of(instance_name(base, k), base),
        belongs_to(instance_name(base, k), base),
        instance_name(base, k) != base,
{
    let name = instance_name(base, k);
    reveal_strlit(":");
    assert(":"@.len() == 1 && ":"@[0] == ':');
    crate::text::lemma_decimal_roundtrip(k);
    lemma_parse_decimal(k);
    assert(name.take(base.len() as int) =~= base);
    assert(name[base.len() as int] == ':');
    assert(name.skip(base.len() as int + 1) =~= decimal(k));
}

/// Different instances have different names.
pub proof fn lemma_instance_names_differ(base: Seq<char>, j: nat, k: nat)
    requires
        instance_name(base, j) == instance_name(base, k),
    ensures
        j == k,
{
    reveal_strlit(":");
    assert(":"@.len() == 1);
    let a = instance_name(base, j);
    let b = instance_name(base, k);
    assert(a.skip(base.len() as int + 1) =~= decimal(j));
    assert(b.skip(base.len() as int + 1) =~= decimal(k));
    lemma_decimal_injective(j, k);
}

/// Scaling up: the instances there are, followed by the instances to
/// start, are the instances wanted.
pub proof fn lemma_scale_up_names(base: Seq<char>, current: nat, target: nat)
    requires
        current <= target,
    ensures
        start_cluster(base, current) + names_to_start(base, current, target) == start_cluster(
            base,
            target,
        ),
{
    assert(start_cluster(base, current) + names_to_start(base, current, target) =~= start_cluster(
        base,
        target,
    ));
}

/// Scaling down: the instances to stop are those beyond the wanted number,
/// the last first, and the instances that stay are the wanted ones.
pub proof fn lemma_scale_down_names(base: Seq<char>, current: nat, target: nat)
    requires
        target <= current,
    ensures
        names_to_stop(base, current, target) == start_cluster(base, current).skip(
            target as int,
        ).reverse(),
        start_cluster(base, current).take(target as int) == start_cluster(base, target),
{
    assert(names_to_stop(base, current, target) =~= start_cluster(base, current).skip(
        target as int,
    ).reverse());
    assert(start_cluster(base, current).take(target as int) =~= start_cluster(base, target));
}

/// The names of the instances 0 to `n - 1`.
pub open spec fn start_cluster(base: Seq<char>, n: nat) -> Seq<Seq<char>> {
    Seq::new(n, |k: int| instance_name(base, k as nat))
}

/// A cluster grows by one: where the records of `base` are the instances 0
/// to `n - 1`, creating the instance `n` succeeds unless the ids are used
/// up, and the records of `base` are then the instances 0 to `n`.
pub proof fn lemma_cluster_grows(v: TableView, config: StartPayload, base: Seq<char>, n: nat)
    requires
        v.wf(),
        is_cluster(v, base, n),
        n < u32::MAX,
        v.next_id < u32::MAX,
    ensures
        v.created(config, instance_name(base, n)) is Ok,
        is_cluster(v.created(config, instance_name(base, n))->Ok_0.0, base, n + 1),
        v.created(config, instance_name(base, n))->Ok_0.0.wf(),
{
    let name = instance_name(base, n);
    lemma_instance_name(base, n);
    lemma_index_of_name(v, name);
    if v.index_of_name(name) is Some {
        let i = v.index_of_name(name)->0;
        assert(belongs_to(v.records[i].name, base));
        let k = choose|k: nat| k < n && v.records[i].name == instance_name(base, k);
        lemma_instance_names_differ(base, k, n);
    }
    lemma_created(v, config, name);
    let after = v.created(config, name)->Ok_0.0;
    assert forall|k: nat| k < n + 1 implies (#[trigger] after.index_of_name(
        instance_name(base, k),
    )) is Some by {
        if k < n {
            assert(v.index_of_name(instance_name(base, k)) is Some);
            lemma_index_of_name(v, instance_name(base, k));
            let i = v.index_of_name(instance_name(base, k))->0;
            assert(after.records[i] == v.records[i]);
            lemma_index_of_name(after, instance_name(base, k));
        } else {
            assert(after.records[after.records.len() - 1].name == name);
            lemma_index_of_name(after, name);
        }
    }
    assert forall|i: int|
        0 <= i < after.records.len() && belongs_to(
            (#[trigger] after.records[i]).name,
            base,
        ) implies exists|k: nat| k < n + 1 && after.records[i].name == instance_name(base, k) by {
        if i < v.records.len() {
            assert(after.records[i] == v.records[i]);
            let k = choose|k: nat| k < n && v.records[i].name == instance_name(base, k);
            assert(k < n + 1 && after.records[i].name == instance_name(base, k));
        } else {
            assert(n < n + 1 && after.records[i].name == instance_name(base, n));
        }
    }
}

/// A cluster shrinks by one: where the records of `base` are the instances
/// 0 to `n`, and the instance `n` has no child, removing it succeeds, and
/// the records of `base` are then the instances 0 to `n - 1`.
pub proof fn lemma_cluster_shrinks(v: TableView, base: Seq<char>, n: nat)
    requires
        v.wf(),
        is_cluster(v, base, n + 1),
        !v.records[v.index_of_name(instance_name(base, n))->0].runtime.status.is_alive(),
    ensures
        ({
            let i = v.index_of_name(instance_name(base, n))->0;
            let id = v.records[i].id;
            &&& v.removed(id) is Ok
            &&& is_cluster(v.removed(id)->Ok_0, base, n)
            &&& v.removed(id)->Ok_0.wf()
        }),
{
    let name = instance_name(base, n);
    assert(v.index_of_name(name) is Some);
    lemma_index_of_name(v, name);
    let i = v.index_of_name(name)->0;
    let id = v.records[i].id;
    lemma_index_of(v, id);
    let found = v.index_of(id)->0;
    assert(found == i) by {
        if found < i {
            assert(v.records[found].id < v.records[i].id);
        } else if i < found {
            assert(v.records[i].id < v.records[found].id);
        }
    }
    lemma_removed(v, id);
    let after = v.removed(id)->Ok_0;
    assert forall|k: nat| k < n implies (#[trigger] after.index_of_name(instance_name(base, k)))
        is Some by {
        let other = instance_name(base, k);
        assert(v.index_of_name(other) is Some);
        lemma_index_of_name(v, other);
        let j = v.index_of_name(other)->0;
        if j == i {
            lemma_instance_names_differ(base, k, n);
        }
        let jj = if j < i {
            j
        } else {
            j - 1
        };
        assert(after.records[jj] == v.records[j]);
        lemma_index_of_name(after, other);
    }
    assert forall|a: int|
        0 <= a < after.records.len() && belongs_to(
            (#[trigger] after.records[a]).name,
            base,
        ) implies exists|k: nat| k < n && after.records[a].name == instance_name(base, k) by {
        let aa = if a < i {
            a
        } else {
            a + 1
        };
        assert(after.records[a] == v.records[aa]);
        let k = choose|k: nat| k < n + 1 && v.records[aa].name == instance_name(base, k);
        if k == n {
            if aa < i {
                assert(v.records[aa].name != v.records[i].name);
            } else {
                assert(v.records[i].name != v.records[aa].name);
            }
        }
        assert(k < n && after.records[a].name == instance_name(base, k));
    }
}

/// Makes the name of the instance `k` of the cluster `base`.
pub fn make_instance_name(base: &str, k: u32) -> (name: String)
    ensures
        name@ == instance_name(base@, k as nat),
{
    let mut name = String::from_str(base);
    name.append(":");
    push_decimal(&mut name, k as u64);
    name
}

/// The texts of a list of strings.
pub open spec fn name_texts(names: Seq<String>) -> Seq<Seq<char>> {
    names.map_values(|s: String| s@)
}

/// Makes the names of the instances `from` to `to - 1` of a cluster.
fn instance_names(base: &str, from: u32, to: u32) -> (names: Vec<String>)
    requires
        from <= to,
    ensures
        name_texts(names@) == Seq::new(
            (to - from) as nat,
            |i: int| instance_name(base@, (from + i) as nat),
        ),
{
    let mut names: Vec<String> = Vec::new();
    let mut k: u32 = from;
    while k < to
        invariant
            from <= k <= to,
            names@.len() == k - from,
            forall|i: int|
                0 <= i < names@.len() ==> (#[trigger] names@[i])@ == instance_name(
                    base@,
                    (from + i) as nat,
                ),
        decreases to - k,
    {
        names.push(make_instance_name(base, k));
        k += 1;
    }
    assert(name_texts(names@) =~= Seq::new(
        (to - from) as nat,
        |i: int| instance_name(base@, (from + i) as nat),
    ));
    names
}

/// The names under which a process with `instances` instances is started.
pub fn names_for_start(name: &str, instances: u32) -> (names: Vec<String>)
    ensures
        name_texts(names@) == start_names(name@, instances),
{
    if instances > 1 {
        let names = instance_names(name, 0, instances);
        assert(name_texts(names@) =~= start_names(name@, instances));
        names
    } else {
        let mut names: Vec<String> = Vec::new();
        names.push(String::from_str(name));
        assert(name_texts(names@) =~= start_names(name@, instances));
        names
    }
}

/// What a scale request asks the supervisor to do.
pub struct ScalePlan {
    /// The names of the instances to start, in order.
    pub start: Vec<String>,
    /// The ids of the instances to stop and delete, in order.
    pub stop: Vec<u32>,
}

/// The ids of the records with the given names, in the order of the names;
/// names without record are passed over.
pub open spec fn ids_of_names(v: TableView, names: Seq<Seq<char>>) -> Seq<u32>
    decreases names.len(),
{
    if names.len() == 0 {
        Seq::empty()
    } else {
        let rest = ids_of_names(v, names.drop_last());
        match v.index_of_name(names.last()) {
            Some(i) => rest.push(v.records[i].id),
            None => rest,
        }
    }
}

/// Plans how to bring the cluster `name` to `target` instances. With
/// `current` the number of records that belong to the cluster: where more
/// are wanted, the instances `current` to `target - 1` are to be started;
/// where fewer are wanted, the instances `current - 1` down to `target`
/// are to be stopped, the last started first.
pub fn plan_scale(table: &ProcessTable, name: &str, target: u32) -> (plan: ScalePlan)
    ensures
        ({
            let current = table@.ids_of_base(name@).len();
            &&& name_texts(plan.start@) == names_to_start(name@, current, target as nat)
            &&& plan.stop@ == ids_of_names(
                table@,
                names_to_stop(name@, current, target as nat),
            )
        }),
{
    table.recall_wf();
    proof {
        crate::table::lemma_sizes(table@, name@);
    }
    let current: u32 = table.by_base_name(name).len() as u32;
    let mut plan = ScalePlan { start: Vec::new(), stop: Vec::new() };
    if target > current {
        plan.start = instance_names(name, current, target);
        assert(name_texts(plan.start@) =~= names_to_start(name@, current as nat, target as nat));
        assert(names_to_stop(name@, current as nat, target as nat) =~= Seq::<Seq<char>>::empty());
    } else if target < current {
        assert(name_texts(plan.start@) =~= names_to_start(name@, current as nat, target as nat));
        let ghost names = names_to_stop(name@, current as nat, target as nat);
        let mut k: u32 = current;
        assert(names.take(0) =~= Seq::<Seq<char>>::empty());
        while k > target
            invariant
                target <= k <= current,
                names == names_to_stop(name@, current as nat, target as nat),
                name_texts(plan.start@) == names_to_start(name@, current as nat, target as nat),
                plan.stop@ == ids_of_names(table@, names.take(current - k)),
            decreases k,
        {
            k -= 1;
            let instance = make_instance_name(name, k);
            assert(names.take(current - k).drop_last() =~= names.take(current - k - 1));
            assert(names.take(current - k).last() == instance@);
            match table.by_name(instance.as_str()) {
                Some(id) => {
                    plan.stop.push(id);
                },
                None => {},
            }
        }
        assert(names.take((current - target) as int) =~= names);
    } else {
        assert(name_texts(plan.start@) =~= names_to_start(name@, current as nat, target as nat));
        assert(names_to_stop(name@, current as nat, target as nat) =~= Seq::<Seq<char>>::empty());
    }
    plan
}

} // verus!
