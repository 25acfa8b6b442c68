//! Name resolution against the process list: from a name or an id to
//! process ids, from a cluster's base name to its instances, and from a
//! scale argument to a target count.

use vstd::prelude::*;
use vstd::string::StringExecFns;

use crate::error::VelosError;
use crate::protocol::{views, ProcessInfo, ProcessInfoView};
use crate::text::{
    chars_of, eq_ignore_case, equals_ignore_case, has_prefix, parse_i32, parse_i32_text,
    parse_u32, parse_u32_text, starts_with, str_eq, string_of_slice, trim, trimmed,
};

verus! {

/// Whether `name` is the name of an instance of the cluster `base`: the
/// base name, a colon, and an instance number. A longer name that merely
/// starts with the base name is none: `api-v2` is no instance of `api`.
pub open spec fn is_instance_of(name: Seq<char>, base: Seq<char>) -> bool {
    &&& name.len() > base.len()
    &&& starts_with(name, base)
    &&& name[base.len() as int] == ':'
    &&& parse_u32_text(name.skip(base.len() as int + 1)) is Some
}

/// Whether a process called `name` belongs to `base`: it has that very
/// name or is an instance of the cluster of that name.
pub open spec fn belongs_to(name: Seq<char>, base: Seq<char>) -> bool {
    name == base || is_instance_of(name, base)
}

/// The id of the first process called `name`.
pub open spec fn first_named(procs: Seq<ProcessInfoView>, name: Seq<char>) -> Option<u32>
    decreases procs.len(),
{
    if procs.len() == 0 {
        None
    } else if procs[0].name == name {
        Some(procs[0].id)
    } else {
        first_named(procs.drop_first(), name)
    }
}

/// The ids of the processes called `name`, in list order.
pub open spec fn ids_named(procs: Seq<ProcessInfoView>, name: Seq<char>) -> Seq<u32>
    decreases procs.len(),
{
    if procs.len() == 0 {
        Seq::empty()
    } else if procs.last().name == name {
        ids_named(procs.drop_last(), name).push(procs.last().id)
    } else {
        ids_named(procs.drop_last(), name)
    }
}

/// The ids of the instances of the cluster `base`, in list order.
pub open spec fn ids_of_instances(procs: Seq<ProcessInfoView>, base: Seq<char>) -> Seq<u32>
    decreases procs.len(),
{
    if procs.len() == 0 {
        Seq::empty()
    } else if is_instance_of(procs.last().name, base) {
        ids_of_instances(procs.drop_last(), base).push(procs.last().id)
    } else {
        ids_of_instances(procs.drop_last(), base)
    }
}

/// The number of processes that belong to `base`.
pub open spec fn instance_count(procs: Seq<ProcessInfoView>, base: Seq<char>) -> nat
    decreases procs.len(),
{
    if procs.len() == 0 {
        0
    } else {
        instance_count(procs.drop_last(), base) + if belongs_to(procs.last().name, base) {
            1nat
        } else {
            0nat
        }
    }
}

/// The process that a name or an id stands for: a number is taken as the
/// id, whether or not the list holds it; any other text is the name of the
/// first process so called. `Err` when no process has the name.
pub open spec fn resolved_id(procs: Seq<ProcessInfoView>, name_or_id: Seq<char>) -> Result<
    u32,
    (),
> {
    match parse_u32_text(name_or_id) {
        Some(id) => Ok(id),
        None => match first_named(procs, name_or_id) {
            Some(id) => Ok(id),
            None => Err(()),
        },
    }
}

/// The processes that a name or an id stands for: a number is taken as
/// one id; else all processes of exactly that name; else, if there are
/// none, all instances of the cluster of that name. `Err` when there are
/// none of either.
pub open spec fn resolved_ids(procs: Seq<ProcessInfoView>, name_or_id: Seq<char>) -> Result<
    Seq<u32>,
    (),
> {
    match parse_u32_text(name_or_id) {
        Some(id) => Ok(seq![id]),
        None => if ids_named(procs, name_or_id).len() > 0 {
            Ok(ids_named(procs, name_or_id))
        } else if ids_of_instances(procs, name_or_id).len() > 0 {
            Ok(ids_of_instances(procs, name_or_id))
        } else {
            Err(())
        },
    }
}

/// No process belongs to a base more than once: there are no more
/// instances than processes.
pub proof fn lemma_instance_count_bounded(procs: Seq<ProcessInfoView>, base: Seq<char>)
    ensures
        instance_count(procs, base) <= procs.len(),
    decreases procs.len(),
{
    if procs.len() > 0 {
        lemma_instance_count_bounded(procs.drop_last(), base);
    }
}

/// Exact names are resolved before cluster names: where a process is
/// called `name`, the instances of a cluster `name` are not consulted.
pub proof fn lemma_exact_before_cluster(procs: Seq<ProcessInfoView>, name: Seq<char>)
    requires
        parse_u32_text(name) is None,
        ids_named(procs, name).len() > 0,
    ensures
        resolved_ids(procs, name) == Ok::<Seq<u32>, ()>(ids_named(procs, name)),
{
}

/// The id that a text writes, if it writes one.
pub fn numeric_id(name_or_id: &str) -> (r: Option<u32>)
    ensures
        r == parse_u32_text(name_or_id@),
{
    let chars = chars_of(name_or_id);
    parse_u32(chars.as_slice())
}

/// Tells whether `name` names an instance of the cluster `base`.
pub fn names_instance_of(name: &str, base: &str) -> (r: bool)
    ensures
        r == is_instance_of(name@, base@),
{
    let n = chars_of(name);
    let b = chars_of(base);
    if n.len() <= b.len() {
        return false;
    }
    if !has_prefix(n.as_slice(), b.as_slice()) {
        return false;
    }
    if n[b.len()] != ':' {
        return false;
    }
    let rest = vstd::slice::slice_subrange(n.as_slice(), b.len() + 1, n.len());
    assert(rest@ =~= name@.skip(base@.len() as int + 1));
    parse_u32(rest).is_some()
}

/// Resolves a name or an id to one process id.
pub fn resolve_id(procs: &[ProcessInfo], name_or_id: &str) -> (r: Result<u32, VelosError>)
    ensures
        match resolved_id(views(procs@), name_or_id@) {
            Ok(id) => r matches Ok(x) && x == id,
            Err(_) => r matches Err(e) && e.is_not_found(name_or_id@),
        },
{
    match numeric_id(name_or_id) {
        Some(id) => {
            return Ok(id);
        },
        None => {},
    }
    let mut i: usize = 0;
    assert(views(procs@).skip(0) =~= views(procs@));
    while i < procs.len()
        invariant
            i <= procs.len(),
            parse_u32_text(name_or_id@) is None,
            first_named(views(procs@), name_or_id@) == first_named(
                views(procs@).skip(i as int),
                name_or_id@,
            ),
        decreases procs.len() - i,
    {
        assert(views(procs@).skip(i as int)[0] == procs@[i as int]@);
        assert(views(procs@).skip(i as int).drop_first() =~= views(procs@).skip(i + 1));
        if str_eq(procs[i].name.as_str(), name_or_id) {
            return Ok(procs[i].id);
        }
        i += 1;
    }
    Err(VelosError::ProcessNotFound(String::from_str(name_or_id)))
}

/// Resolves a name or an id to the ids of all processes that it stands
/// for: one process by id, the processes of that name, or the instances of
/// the cluster of that name.
pub fn resolve_ids(procs: &[ProcessInfo], name_or_id: &str) -> (r: Result<Vec<u32>, VelosError>)
    ensures
        match resolved_ids(views(procs@), name_or_id@) {
            Ok(ids) => r matches Ok(v) && v@ == ids,
            Err(_) => r matches Err(e) && e.is_not_found(name_or_id@),
        },
{
    match numeric_id(name_or_id) {
        Some(id) => {
            let mut one: Vec<u32> = Vec::new();
            one.push(id);
            assert(one@ =~= seq![id]);
            return Ok(one);
        },
        None => {},
    }
    let mut exact: Vec<u32> = Vec::new();
    let mut cluster: Vec<u32> = Vec::new();
    let mut i: usize = 0;
    assert(views(procs@).take(0) =~= Seq::<ProcessInfoView>::empty());
    while i < procs.len()
        invariant
            i <= procs.len(),
            exact@ == ids_named(views(procs@).take(i as int), name_or_id@),
            cluster@ == ids_of_instances(views(procs@).take(i as int), name_or_id@),
        decreases procs.len() - i,
    {
        assert(views(procs@).take(i + 1).drop_last() =~= views(procs@).take(i as int));
        assert(views(procs@).take(i + 1).last() == procs@[i as int]@);
        if str_eq(procs[i].name.as_str(), name_or_id) {
            exact.push(procs[i].id);
        }
        if names_instance_of(procs[i].name.as_str(), name_or_id) {
            cluster.push(procs[i].id);
        }
        i += 1;
    }
    assert(views(procs@).take(procs@.len() as int) =~= views(procs@));
    if exact.len() > 0 {
        Ok(exact)
    } else if cluster.len() > 0 {
        Ok(cluster)
    } else {
        Err(VelosError::ProcessNotFound(String::from_str(name_or_id)))
    }
}

/// Counts the processes that belong to `base`.
pub fn count_instances(procs: &[ProcessInfo], base: &str) -> (n: usize)
    ensures
        n == instance_count(views(procs@), base@),
{
    let mut n: usize = 0;
    let mut i: usize = 0;
    assert(views(procs@).take(0) =~= Seq::<ProcessInfoView>::empty());
    while i < procs.len()
        invariant
            i <= procs.len(),
            n <= i,
            n == instance_count(views(procs@).take(i as int), base@),
        decreases procs.len() - i,
    {
        assert(views(procs@).take(i + 1).drop_last() =~= views(procs@).take(i as int));
        assert(views(procs@).take(i + 1).last() == procs@[i as int]@);
        if str_eq(procs[i].name.as_str(), base) || names_instance_of(procs[i].name.as_str(), base) {
            n += 1;
        }
        i += 1;
    }
    assert(views(procs@).take(procs@.len() as int) =~= views(procs@));
    n
}

// ------------------------------------------------------------------
// Scale targets
// ------------------------------------------------------------------
/// A number kept within the range of instance counts.
pub open spec fn clamped(n: int) -> u32 {
    if n < 0 {
        0
    } else if n > u32::MAX {
        u32::MAX
    } else {
        n as u32
    }
}

/// Whether a scale argument is relative: it starts with a sign.
pub open spec fn is_relative(s: Seq<char>) -> bool {
    s.len() > 0 && (s[0] == '+' || s[0] == '-')
}

/// The message for a scale argument that cannot be read.
pub open spec fn bad_count_text(s: Seq<char>) -> Seq<char> {
    "invalid count: '"@ + s + "'"@
}

/// The number of instances that a scale argument asks for, given the
/// number that exist and the number of processors: `max` (in any case) is
/// the number of processors; `+K` and `-K` are counted from the existing
/// number, not below zero; anything else must be the number itself.
pub open spec fn target_count(arg: Seq<char>, current: nat, cpus: u32) -> Result<u32, Seq<char>> {
    let s = trimmed(arg);
    if eq_ignore_case(s, "max"@) {
        Ok(cpus)
    } else if is_relative(s) {
        match parse_i32_text(s) {
            Some(delta) => Ok(clamped(current + delta)),
            None => Err(bad_count_text(s)),
        }
    } else {
        match parse_u32_text(s) {
            Some(n) => Ok(n),
            None => Err(bad_count_text(s)),
        }
    }
}

/// Tells whether the scale argument is counted from the existing number of
/// instances, so that the process list is needed to resolve it.
pub fn needs_current_count(count_str: &str) -> (r: bool)
    ensures
        r == (!eq_ignore_case(trimmed(count_str@), "max"@) && is_relative(trimmed(count_str@))),
{
    let chars = chars_of(count_str);
    let s = trim(chars.as_slice());
    let max = chars_of("max");
    if equals_ignore_case(s, max.as_slice()) {
        return false;
    }
    s.len() > 0 && (s[0] == '+' || s[0] == '-')
}

/// The message for a scale argument that cannot be read.
fn bad_count(s: &[char]) -> (e: VelosError)
    ensures
        e.is_protocol(bad_count_text(s@)),
{
    let mut msg = String::from_str("invalid count: '");
    let text = string_of_slice(s);
    msg.append(text.as_str());
    msg.append("'");
    VelosError::ProtocolError(msg)
}

/// Resolves a scale argument for the cluster `name` to the number of
/// instances it asks for.
pub fn resolve_target_count(procs: &[ProcessInfo], name: &str, count_str: &str, cpus: u32) -> (r:
    Result<u32, VelosError>)
    ensures
        match target_count(count_str@, instance_count(views(procs@), name@), cpus) {
            Ok(n) => r matches Ok(x) && x == n,
            Err(m) => r matches Err(e) && e.is_protocol(m),
        },
{
    let chars = chars_of(count_str);
    let s = trim(chars.as_slice());
    let max = chars_of("max");
    if equals_ignore_case(s, max.as_slice()) {
        return Ok(cpus);
    }
    if s.len() > 0 && (s[0] == '+' || s[0] == '-') {
        let delta: i32 = match parse_i32(s) {
            Some(d) => d,
            None => {
                return Err(bad_count(s));
            },
        };
        let current: usize = count_instances(procs, name);
        let target: i128 = current as i128 + delta as i128;
        if target < 0 {
            return Ok(0);
        } else if target > 4294967295 {
            return Ok(4294967295);
        } else {
            return Ok(target as u32);
        }
    }
    match parse_u32(s) {
        Some(n) => Ok(n),
        None => Err(bad_count(s)),
    }
}

/// The message for an instances argument that cannot be read.
pub open spec fn bad_instances_text(s: Seq<char>) -> Seq<char> {
    "invalid instances value '"@ + s + "': use a number or 'max'"@
}

/// The number of instances that an instances argument asks for: one when
/// there is none; the number of processors for `max` (in any case) and for
/// `0`; else the number itself.
pub open spec fn instances_of(arg: Option<Seq<char>>, cpus: u32) -> Result<u32, Seq<char>> {
    match arg {
        None => Ok(1),
        Some(a) => {
            let s = trimmed(a);
            if eq_ignore_case(s, "max"@) || s == "0"@ {
                Ok(cpus)
            } else {
                match parse_u32_text(s) {
                    Some(n) => Ok(n),
                    None => Err(bad_instances_text(s)),
                }
            }
        },
    }
}

/// Reads the instances argument of a start command.
pub fn parse_instances(instances_arg: &Option<String>, cpus: u32) -> (r: Result<u32, VelosError>)
    ensures
        match instances_of(
            match instances_arg {
                Some(a) => Some(a@),
                None => None,
            },
            cpus,
        ) {
            Ok(n) => r matches Ok(x) && x == n,
            Err(m) => r matches Err(e) && e.is_protocol(m),
        },
{
    match instances_arg {
        None => Ok(1),
        Some(arg) => {
            let chars = chars_of(arg.as_str());
            let s = trim(chars.as_slice());
            let max = chars_of("max");
            let zero = chars_of("0");
            proof {
                reveal_strlit("0");
                assert("0"@ =~= seq!['0']);
                assert(s@ == "0"@ <==> (s@.len() == 1 && s@[0] == '0')) by {
                    if s@.len() == 1 && s@[0] == '0' {
                        assert(s@ =~= seq!['0']);
                    }
                }
            }
            if equals_ignore_case(s, max.as_slice()) || (s.len() == 1 && s[0] == '0') {
                Ok(cpus)
            } else {
                match parse_u32(s) {
                    Some(n) => Ok(n),
                    None => {
                        let mut msg = String::from_str("invalid instances value '");
                        let text = string_of_slice(s);
                        msg.append(text.as_str());
                        msg.append("': use a number or 'max'");
                        Err(VelosError::ProtocolError(msg))
                    },
                }
            }
        },
    }
}

} // verus!
