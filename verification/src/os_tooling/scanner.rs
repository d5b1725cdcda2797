//! Groups the reported processes by parent and tags them.

use super::resources::process::{
    alive, converted, is_process_alive, percent, percent_text, with_attributes, GroupModel,
    OsProcessGroup, OsProcessInformation, ProcessAttribute, ProcessModel, ProcessRaw, RawModel,
    ResourceUsageAttribute,
};
use super::MetadataTags;
use crate::text::{decimal, decimal_text};
use vstd::prelude::*;

verus! {

/// The processor share above which the default rule marks a process, in
/// hundredths of a percent.
pub const DEFAULT_CPU_THRESHOLD: u32 = 6000;

/// The memory above which the default rule marks a process, in megabytes.
pub const DEFAULT_MEMORY_THRESHOLD: u64 = 7200;

/// What a report is kept as: it must convert and be alive.
pub open spec fn survivor(raw: RawModel) -> Option<ProcessModel> {
    match converted(raw) {
        Ok(process) => if alive(process.status) {
            Some(process)
        } else {
            None
        },
        Err(_) => None,
    }
}

/// The process that `pid` resolves to: the first report with that pid,
/// provided that it is kept.
pub open spec fn resolve(table: Seq<RawModel>, pid: u32) -> Option<ProcessModel>
    decreases table.len(),
{
    if table.len() == 0 {
        None
    } else if table[0].pid == pid {
        survivor(table[0])
    } else {
        resolve(table.drop_first(), pid)
    }
}

/// Some group has a parent with this pid.
pub open spec fn has_group(groups: Seq<GroupModel>, pid: u32) -> bool {
    exists|i: int| 0 <= i < groups.len() && (#[trigger] groups[i]).parent_process.pid == pid
}

/// No two groups have parents with the same pid.
pub open spec fn distinct_parents(groups: Seq<GroupModel>) -> bool {
    forall|i: int, j: int|
        0 <= i < j < groups.len() ==> (#[trigger] groups[i]).parent_process.pid != (
        #[trigger] groups[j]).parent_process.pid
}

/// `group` with `child` as its last child.
pub open spec fn with_child(group: GroupModel, child: ProcessModel) -> GroupModel {
    GroupModel {
        parent_process: group.parent_process,
        forked_threads: group.forked_threads.push(child),
    }
}

/// The groups with `child` added to the group of the parent `pid`.
pub open spec fn attach(groups: Seq<GroupModel>, pid: u32, child: ProcessModel) -> Seq<GroupModel> {
    Seq::new(
        groups.len(),
        |i: int|
            if groups[i].parent_process.pid == pid {
                with_child(groups[i], child)
            } else {
                groups[i]
            },
    )
}

/// The groups after one more report. A report that is not kept changes
/// nothing. A kept process with a reported parent joins the parent's group,
/// which is made from the resolved parent where it is new; where the parent
/// does not resolve the process is dropped. A kept process without a
/// reported parent stands alone in a group of its own, unless its children
/// made that group already.
pub open spec fn step(table: Seq<RawModel>, groups: Seq<GroupModel>, raw: RawModel) -> Seq<
    GroupModel,
> {
    match survivor(raw) {
        None => groups,
        Some(process) => match raw.parent {
            Some(parent_pid) => match resolve(table, parent_pid) {
                None => groups,
                Some(parent) => if has_group(groups, parent_pid) {
                    attach(groups, parent_pid, process)
                } else {
                    groups.push(
                        GroupModel { parent_process: parent, forked_threads: seq![process] },
                    )
                },
            },
            None => if has_group(groups, process.pid) {
                groups
            } else {
                groups.push(GroupModel { parent_process: process, forked_threads: Seq::empty() })
            },
        },
    }
}

/// The groups after the first `n` reports of `table`, in the order in which
/// the groups were made.
pub open spec fn grouped(table: Seq<RawModel>, n: int) -> Seq<GroupModel>
    decreases n,
{
    if n <= 0 {
        Seq::empty()
    } else {
        step(table, grouped(table, n - 1), table[n - 1])
    }
}

/// A resolved process has the pid that was asked for.
pub proof fn lemma_resolve_pid(table: Seq<RawModel>, pid: u32)
    ensures
        resolve(table, pid) matches Some(process) ==> process.pid == pid && alive(process.status),
    decreases table.len(),
{
    if table.len() > 0 && table[0].pid != pid {
        lemma_resolve_pid(table.drop_first(), pid);
    }
}

/// Every member of every group is alive.
pub open spec fn all_alive(groups: Seq<GroupModel>) -> bool {
    forall|i: int|
        0 <= i < groups.len() ==> {
            &&& alive((#[trigger] groups[i]).parent_process.status)
            &&& forall|j: int|
                0 <= j < groups[i].forked_threads.len() ==> alive(
                    (#[trigger] groups[i].forked_threads[j]).status,
                )
        }
}

/// One more report leaves the groups that exist in place, with the parent
/// they had and the children they had in front of any new one.
pub proof fn lemma_step_extends(table: Seq<RawModel>, groups: Seq<GroupModel>, raw: RawModel)
    ensures
        step(table, groups, raw).len() >= groups.len(),
        forall|i: int|
            0 <= i < groups.len() ==> {
                let after = #[trigger] step(table, groups, raw)[i];
                &&& after.parent_process == groups[i].parent_process
                &&& after.forked_threads.len() >= groups[i].forked_threads.len()
                &&& after.forked_threads.take(groups[i].forked_threads.len() as int)
                    == groups[i].forked_threads
            },
{
    assert forall|i: int| 0 <= i < groups.len() implies {
        let after = #[trigger] step(table, groups, raw)[i];
        &&& after.parent_process == groups[i].parent_process
        &&& after.forked_threads.len() >= groups[i].forked_threads.len()
        &&& after.forked_threads.take(groups[i].forked_threads.len() as int)
            == groups[i].forked_threads
    } by {
        let after = step(table, groups, raw)[i];
        assert(after.forked_threads.take(groups[i].forked_threads.len() as int)
            =~= groups[i].forked_threads);
    }
}

/// One more report keeps the parents' pids distinct.
pub proof fn lemma_step_distinct(table: Seq<RawModel>, groups: Seq<GroupModel>, raw: RawModel)
    requires
        distinct_parents(groups),
    ensures
        distinct_parents(step(table, groups, raw)),
{
    if let Some(process) = survivor(raw) {
        if let Some(parent_pid) = raw.parent {
            lemma_resolve_pid(table, parent_pid);
        }
    }
}

/// One more report keeps every member alive.
pub proof fn lemma_step_alive(table: Seq<RawModel>, groups: Seq<GroupModel>, raw: RawModel)
    requires
        all_alive(groups),
    ensures
        all_alive(step(table, groups, raw)),
{
    let after = step(table, groups, raw);
    if let Some(process) = survivor(raw) {
        if let Some(parent_pid) = raw.parent {
            lemma_resolve_pid(table, parent_pid);
        }
    }
    assert forall|i: int| 0 <= i < after.len() implies {
        &&& alive((#[trigger] after[i]).parent_process.status)
        &&& forall|j: int|
            0 <= j < after[i].forked_threads.len() ==> alive(
                (#[trigger] after[i].forked_threads[j]).status,
            )
    } by {
        if i < groups.len() {
            assert(alive(groups[i].parent_process.status));
            assert forall|j: int| 0 <= j < after[i].forked_threads.len() implies alive(
                (#[trigger] after[i].forked_threads[j]).status,
            ) by {
                if j < groups[i].forked_threads.len() {
                    assert(alive(groups[i].forked_threads[j].status));
                }
            }
        }
    }
}

/// The parents of the groups have distinct pids: a pid names at most one
/// group.
pub proof fn lemma_grouped_distinct(table: Seq<RawModel>, n: int)
    ensures
        distinct_parents(grouped(table, n)),
    decreases n,
{
    if n > 0 {
        lemma_grouped_distinct(table, n - 1);
        lemma_step_distinct(table, grouped(table, n - 1), table[n - 1]);
    }
}

/// A process whose status says dead or idle is in no group, neither as a
/// parent nor as a child.
pub proof fn lemma_grouped_alive(table: Seq<RawModel>, n: int)
    ensures
        all_alive(grouped(table, n)),
    decreases n,
{
    if n > 0 {
        lemma_grouped_alive(table, n - 1);
        lemma_step_alive(table, grouped(table, n - 1), table[n - 1]);
    }
}

/// A kept process whose reported parent resolves is a child in the group of
/// that parent: among the groups made from the first `n` reports, with the
/// process among them, one has a parent with the parent's pid and holds the
/// process as a child.
pub proof fn lemma_child_joins_parent(table: Seq<RawModel>, n: int, i: int)
    requires
        0 <= i < n <= table.len(),
        survivor(table[i]) is Some,
        table[i].parent is Some,
        resolve(table, table[i].parent->0) is Some,
    ensures
        exists|g: int|
            0 <= g < grouped(table, n).len() && (#[trigger] grouped(
                table,
                n,
            )[g]).parent_process.pid == table[i].parent->0 && grouped(
                table,
                n,
            )[g].forked_threads.contains(survivor(table[i])->0),
    decreases n,
{
    let child = survivor(table[i])->0;
    let parent_pid = table[i].parent->0;
    let before = grouped(table, n - 1);
    let after = grouped(table, n);
    if i == n - 1 {
        lemma_resolve_pid(table, parent_pid);
        if has_group(before, parent_pid) {
            let g = choose|g: int|
                0 <= g < before.len() && (#[trigger] before[g]).parent_process.pid == parent_pid;
            assert(after[g].forked_threads[before[g].forked_threads.len() as int] == child);
        } else {
            let g = before.len() as int;
            assert(after[g].forked_threads[0] == child);
        }
    } else {
        lemma_child_joins_parent(table, n - 1, i);
        let g = choose|g: int|
            0 <= g < before.len() && (#[trigger] before[g]).parent_process.pid == parent_pid
                && before[g].forked_threads.contains(child);
        lemma_step_extends(table, before, table[n - 1]);
        let k = choose|k: int|
            0 <= k < before[g].forked_threads.len() && before[g].forked_threads[k] == child;
        assert(after[g].parent_process.pid == parent_pid);
    }
}

/// A kept process without a reported parent is the root of a group: among
/// the groups made from the first `n` reports, with the process among them,
/// one has a parent with the process's pid.
pub proof fn lemma_root_has_group(table: Seq<RawModel>, n: int, i: int)
    requires
        0 <= i < n <= table.len(),
        survivor(table[i]) is Some,
        table[i].parent is None,
    ensures
        has_group(grouped(table, n), survivor(table[i])->0.pid),
    decreases n,
{
    let pid = survivor(table[i])->0.pid;
    let before = grouped(table, n - 1);
    let after = grouped(table, n);
    if i == n - 1 {
        if !has_group(before, pid) {
            assert(after[before.len() as int].parent_process.pid == pid);
        }
    } else {
        lemma_root_has_group(table, n - 1, i);
        let g = choose|g: int|
            0 <= g < before.len() && (#[trigger] before[g]).parent_process.pid == pid;
        lemma_step_extends(table, before, table[n - 1]);
        assert(after[g].parent_process.pid == pid);
    }
}

/// `process` is what some report of the table is kept as.
pub open spec fn reported(table: Seq<RawModel>, process: ProcessModel) -> bool {
    exists|k: int| 0 <= k < table.len() && survivor(#[trigger] table[k]) == Some(process)
}

/// A resolved process is what some report of the table is kept as.
proof fn lemma_resolve_reported(table: Seq<RawModel>, pid: u32)
    ensures
        resolve(table, pid) matches Some(process) ==> reported(table, process),
    decreases table.len(),
{
    if table.len() > 0 {
        if table[0].pid == pid {
            if survivor(table[0]) is Some {
                assert(survivor(table[0]) == Some(resolve(table, pid)->0));
            }
        } else {
            let rest = table.drop_first();
            lemma_resolve_reported(rest, pid);
            if let Some(process) = resolve(rest, pid) {
                let k = choose|k: int|
                    0 <= k < rest.len() && survivor(#[trigger] rest[k]) == Some(process);
                assert(rest[k] == table[k + 1]);
                assert(survivor(table[k + 1]) == Some(process));
            }
        }
    }
}

/// Every member of every group is what some report of the table is kept
/// as: no group holds a process that was not reported.
pub proof fn lemma_grouped_reported(table: Seq<RawModel>, n: int)
    requires
        0 <= n <= table.len(),
    ensures
        forall|g: int|
            0 <= g < grouped(table, n).len() ==> {
                &&& reported(table, (#[trigger] grouped(table, n)[g]).parent_process)
                &&& forall|c: int|
                    0 <= c < grouped(table, n)[g].forked_threads.len() ==> reported(
                        table,
                        #[trigger] grouped(table, n)[g].forked_threads[c],
                    )
            },
    decreases n,
{
    if n > 0 {
        let before = grouped(table, n - 1);
        let after = grouped(table, n);
        let raw = table[n - 1];
        lemma_grouped_reported(table, n - 1);
        lemma_step_extends(table, before, raw);
        if let Some(process) = survivor(raw) {
            assert(reported(table, process));
            if let Some(parent_pid) = raw.parent {
                lemma_resolve_reported(table, parent_pid);
            }
        }
        assert forall|g: int| 0 <= g < after.len() implies {
            &&& reported(table, (#[trigger] after[g]).parent_process)
            &&& forall|c: int|
                0 <= c < after[g].forked_threads.len() ==> reported(
                    table,
                    #[trigger] after[g].forked_threads[c],
                )
        } by {
            if g < before.len() {
                assert(after[g].parent_process == before[g].parent_process);
                assert forall|c: int| 0 <= c < after[g].forked_threads.len() implies reported(
                    table,
                    #[trigger] after[g].forked_threads[c],
                ) by {
                    if c < before[g].forked_threads.len() {
                        assert(after[g].forked_threads.take(
                            before[g].forked_threads.len() as int,
                        )[c] == before[g].forked_threads[c]);
                    }
                }
            }
        }
    }
}

/// No two reports have the same pid.
pub open spec fn unique_pids(table: Seq<RawModel>) -> bool {
    forall|i: int, j: int|
        0 <= i < j < table.len() ==> (#[trigger] table[i]).pid != (#[trigger] table[j]).pid
}

/// A pid resolves to the first report that has it.
proof fn lemma_resolve_first(table: Seq<RawModel>, i: int)
    requires
        0 <= i < table.len(),
        forall|j: int| 0 <= j < i ==> (#[trigger] table[j]).pid != table[i].pid,
    ensures
        resolve(table, table[i].pid) == survivor(table[i]),
    decreases i,
{
    if i > 0 {
        let rest = table.drop_first();
        assert(table[0].pid != table[i].pid);
        assert(rest[i - 1] == table[i]);
        assert forall|j: int| 0 <= j < i - 1 implies (#[trigger] rest[j]).pid != rest[i
            - 1].pid by {
            assert(rest[j] == table[j + 1]);
        }
        lemma_resolve_first(rest, i - 1);
    }
}

/// Where no two reports have the same pid, the parent of every group is
/// the process that its pid resolves to.
pub proof fn lemma_parents_resolve(table: Seq<RawModel>, n: int)
    requires
        unique_pids(table),
        0 <= n <= table.len(),
    ensures
        forall|g: int|
            0 <= g < grouped(table, n).len() ==> resolve(
                table,
                (#[trigger] grouped(table, n)[g]).parent_process.pid,
            ) == Some(grouped(table, n)[g].parent_process),
    decreases n,
{
    if n > 0 {
        let before = grouped(table, n - 1);
        let after = grouped(table, n);
        let raw = table[n - 1];
        lemma_parents_resolve(table, n - 1);
        lemma_step_extends(table, before, raw);
        assert forall|g: int| 0 <= g < after.len() implies resolve(
            table,
            (#[trigger] after[g]).parent_process.pid,
        ) == Some(after[g].parent_process) by {
            if g < before.len() {
                assert(after[g].parent_process == before[g].parent_process);
            } else {
                if let Some(parent_pid) = raw.parent {
                    lemma_resolve_pid(table, parent_pid);
                } else {
                    lemma_resolve_first(table, n - 1);
                }
            }
        }
    }
}

/// What a report is kept as, if it is kept.
fn keep(raw: &ProcessRaw) -> (kept: Option<OsProcessInformation>)
    ensures
        match kept {
            Some(process) => survivor(raw@) == Some(process@),
            None => survivor(raw@) is None,
        },
{
    match OsProcessInformation::try_from(raw) {
        Ok(process) => if is_process_alive(&process) {
            Some(process)
        } else {
            None
        },
        Err(_) => None,
    }
}

/// The process that `pid` resolves to among the reports.
fn resolve_parent(processes: &Vec<ProcessRaw>, pid: u32) -> (found: Option<OsProcessInformation>)
    ensures
        match found {
            Some(process) => resolve(processes.deep_view(), pid) == Some(process@),
            None => resolve(processes.deep_view(), pid) is None,
        },
{
    let ghost table = processes.deep_view();
    let n = processes.len();
    let mut i: usize = 0;
    assert(table.skip(0) =~= table);
    while i < n
        invariant
            n == processes.len(),
            i <= n,
            table == processes.deep_view(),
            resolve(table, pid) == resolve(table.skip(i as int), pid),
        decreases n - i,
    {
        if processes[i].pid == pid {
            return keep(&processes[i]);
        }
        assert(table.skip(i as int).drop_first() =~= table.skip(i + 1));
        i = i + 1;
    }
    None
}

/// The position of the group whose parent has this pid.
fn find_group(groups: &Vec<OsProcessGroup>, pid: u32) -> (found: Option<usize>)
    ensures
        match found {
            Some(i) => i < groups.len() && groups[i as int].parent_process.pid == pid,
            None => !has_group(groups.deep_view(), pid),
        },
{
    let n = groups.len();
    let mut i: usize = 0;
    while i < n
        invariant
            n == groups.len(),
            i <= n,
            forall|j: int|
                0 <= j < i ==> (#[trigger] groups.deep_view()[j]).parent_process.pid != pid,
        decreases n - i,
    {
        if groups[i].parent_process.pid == pid {
            return Some(i);
        }
        i = i + 1;
    }
    None
}

/// Groups the reported processes by parent.
fn group_processes(processes: &Vec<ProcessRaw>) -> (groups: Vec<OsProcessGroup>)
    ensures
        groups.deep_view() == grouped(processes.deep_view(), processes.len() as int),
{
    let ghost table = processes.deep_view();
    let n = processes.len();
    let mut groups: Vec<OsProcessGroup> = Vec::new();
    let mut t: usize = 0;
    while t < n
        invariant
            n == processes.len(),
            t <= n,
            table == processes.deep_view(),
            groups.deep_view() == grouped(table, t as int),
        decreases n - t,
    {
        let raw = &processes[t];
        let ghost before = groups.deep_view();
        proof {
            lemma_grouped_distinct(table, t as int);
        }
        match keep(raw) {
            None => {},
            Some(process) => match raw.parent {
                Some(parent_pid) => match resolve_parent(processes, parent_pid) {
                    None => {},
                    Some(parent) => match find_group(&groups, parent_pid) {
                        Some(at) => {
                            assert(before[at as int].parent_process.pid == parent_pid);
                            let ghost held = groups@;
                            groups[at].forked_threads.push(process);
                            assert(groups@[at as int]@.forked_threads =~= held[at
                                as int]@.forked_threads.push(process@));
                        },
                        None => {
                            let mut forked_threads: Vec<OsProcessInformation> = Vec::new();
                            forked_threads.push(process);
                            let group = OsProcessGroup { parent_process: parent, forked_threads };
                            assert(group@.forked_threads =~= seq![process@]);
                            groups.push(group);
                        },
                    },
                },
                None => match find_group(&groups, process.pid) {
                    Some(at) => {
                        assert(before[at as int].parent_process.pid == process.pid);
                    },
                    None => {
                        let group = OsProcessGroup {
                            parent_process: process,
                            forked_threads: Vec::new(),
                        };
                        assert(group@.forked_threads =~= Seq::<ProcessModel>::empty());
                        groups.push(group);
                    },
                },
            },
        }
        t = t + 1;
    }
    groups
}

/// The processor shares of `children` added up, in hundredths of a percent.
pub open spec fn cpu_sum(children: Seq<ProcessModel>) -> nat
    decreases children.len(),
{
    if children.len() == 0 {
        0
    } else {
        cpu_sum(children.drop_last()) + children.last().cpu as nat
    }
}

/// The memory of `children` added up, in megabytes.
pub open spec fn memory_sum(children: Seq<ProcessModel>) -> nat
    decreases children.len(),
{
    if children.len() == 0 {
        0
    } else {
        memory_sum(children.drop_last()) + children.last().memory_usage as nat
    }
}

/// The file descriptors of `children` added up.
pub open spec fn fd_sum(children: Seq<ProcessModel>) -> nat
    decreases children.len(),
{
    if children.len() == 0 {
        0
    } else {
        fd_sum(children.drop_last()) + children.last().fd_count as nat
    }
}

/// `group` with the totals of the parent and all its children written on
/// the parent, and on the parent only.
pub open spec fn with_totals(group: GroupModel) -> GroupModel {
    let parent = group.parent_process;
    let children = group.forked_threads;
    GroupModel {
        parent_process: with_attributes(
            parent,
            parent.attributes.insert(
                MetadataTags::TotalCpu,
                percent(parent.cpu as nat + cpu_sum(children)),
            ).insert(
                MetadataTags::TotalMemory,
                decimal(parent.memory_usage as nat + memory_sum(children)),
            ).insert(
                MetadataTags::TotalFileDescriptors,
                decimal(parent.fd_count as nat + fd_sum(children)),
            ),
        ),
        forked_threads: children,
    }
}

/// `group` with `rule` applied to every child and to the parent.
pub open spec fn tagged_group<R: ProcessAttribute>(rule: R, group: GroupModel) -> GroupModel {
    GroupModel {
        parent_process: rule.tagged(group.parent_process),
        forked_threads: group.forked_threads.map_values(|child: ProcessModel| rule.tagged(child)),
    }
}

/// `group` with the rules applied one after the other, the first rule
/// first.
pub open spec fn ruled<R: ProcessAttribute>(rules: Seq<R>, group: GroupModel) -> GroupModel
    decreases rules.len(),
{
    if rules.len() == 0 {
        group
    } else {
        tagged_group(rules.last(), ruled(rules.drop_last(), group))
    }
}

/// `group` with the rules applied and then, in a second pass, the totals
/// written on the parent.
pub open spec fn annotated<R: ProcessAttribute>(rules: Seq<R>, group: GroupModel) -> GroupModel {
    with_totals(ruled(rules, group))
}

/// Groups processes by parent and applies an ordered list of tagging rules.
pub struct SystemScanner<R: ProcessAttribute> {
    attributes: Vec<R>,
}

impl SystemScanner<ResourceUsageAttribute> {
    /// A scanner with the one default rule: processor share above 60
    /// percent, memory above 7200 megabytes.
    pub fn new() -> (scanner: Self)
        ensures
            scanner.rules() == seq![
                ResourceUsageAttribute {
                    cpu_threshold: DEFAULT_CPU_THRESHOLD,
                    memory_threshold: DEFAULT_MEMORY_THRESHOLD,
                },
            ],
    {
        let mut attributes: Vec<ResourceUsageAttribute> = Vec::new();
        attributes.push(
            ResourceUsageAttribute::new(DEFAULT_CPU_THRESHOLD, DEFAULT_MEMORY_THRESHOLD),
        );
        Self { attributes }
    }
}

impl<R: ProcessAttribute> SystemScanner<R> {
    /// The rules, in the order in which they are applied.
    pub closed spec fn rules(&self) -> Seq<R> {
        self.attributes@
    }

    /// A scanner with the given rules.
    pub fn with_rules(rules: Vec<R>) -> (scanner: Self)
        ensures
            scanner.rules() == rules@,
    {
        Self { attributes: rules }
    }

    /// Writes the totals of the parent and all its children on the parent.
    fn calculate_total_resource_usage(&self, input: &mut OsProcessGroup)
        ensures
            final(input)@ == with_totals(old(input)@),
    {
        let mut total_cpu: u128 = input.parent_process.cpu as u128;
        let mut total_memory: u128 = input.parent_process.memory_usage as u128;
        let mut total_fd: u128 = input.parent_process.fd_count as u128;
        let ghost children = input@.forked_threads;
        let n = input.forked_threads.len();
        let mut i: usize = 0;
        while i < n
            invariant
                n == input.forked_threads.len(),
                i <= n,
                *input == *old(input),
                children == input@.forked_threads,
                total_cpu == input.parent_process.cpu + cpu_sum(children.take(i as int)),
                total_memory == input.parent_process.memory_usage + memory_sum(
                    children.take(i as int),
                ),
                total_fd == input.parent_process.fd_count + fd_sum(children.take(i as int)),
                total_cpu <= (i + 1) * 0xFFFF_FFFF_FFFF_FFFF,
                total_memory <= (i + 1) * 0xFFFF_FFFF_FFFF_FFFF,
                total_fd <= (i + 1) * 0xFFFF_FFFF_FFFF_FFFF,
            decreases n - i,
        {
            let child = &input.forked_threads[i];
            proof {
                assert(children.take(i + 1).drop_last() =~= children.take(i as int));
                assert((i + 2) * 0xFFFF_FFFF_FFFF_FFFF <= 0xFFFF_FFFF_FFFF_FFFF_FFFF_FFFF_FFFF_FFFF)
                    by (nonlinear_arith)
                    requires
                        0 <= i + 2 <= 0x1_0000_0000_0000_0000,
                ;
                assert((i + 1) * 0xFFFF_FFFF_FFFF_FFFF + 0xFFFF_FFFF_FFFF_FFFF == (i + 2)
                    * 0xFFFF_FFFF_FFFF_FFFF) by (nonlinear_arith);
            }
            total_cpu = total_cpu + child.cpu as u128;
            total_memory = total_memory + child.memory_usage as u128;
            total_fd = total_fd + child.fd_count as u128;
            i = i + 1;
        }
        assert(children.take(n as int) =~= children);
        input.parent_process.attributes.insert(MetadataTags::TotalCpu, percent_text(total_cpu));
        input.parent_process.attributes.insert(
            MetadataTags::TotalMemory,
            decimal_text(total_memory),
        );
        input.parent_process.attributes.insert(
            MetadataTags::TotalFileDescriptors,
            decimal_text(total_fd),
        );
    }

    /// Applies every rule, in order, to the children and to the parent of
    /// `group`, then writes the totals on the parent.
    fn annotate(&self, group: &mut OsProcessGroup)
        ensures
            final(group)@ == annotated(self.rules(), old(group)@),
    {
        let ghost given = group@;
        let rules = self.attributes.len();
        let mut k: usize = 0;
        assert(self.rules().take(0) =~= Seq::<R>::empty());
        while k < rules
            invariant
                rules == self.attributes.len(),
                k <= rules,
                group@ == ruled(self.rules().take(k as int), given),
            decreases rules - k,
        {
            let rule = &self.attributes[k];
            let ghost before = group@;
            let n = group.forked_threads.len();
            let mut j: usize = 0;
            while j < n
                invariant
                    n == group.forked_threads.len(),
                    n == before.forked_threads.len(),
                    j <= n,
                    group@.parent_process == before.parent_process,
                    forall|c: int|
                        0 <= c < j ==> (#[trigger] group.forked_threads@[c])@ == rule.tagged(
                            before.forked_threads[c],
                        ),
                    forall|c: int|
                        j <= c < n ==> (#[trigger] group.forked_threads@[c])@
                            == before.forked_threads[c],
                decreases n - j,
            {
                let ghost held = group.forked_threads@;
                rule.tag(&mut group.forked_threads[j]);
                assert(forall|c: int|
                    0 <= c < n && c != j ==> #[trigger] group.forked_threads@[c] == held[c]);
                j = j + 1;
            }
            rule.tag(&mut group.parent_process);
            proof {
                assert(group@.forked_threads =~= tagged_group(*rule, before).forked_threads);
                assert(self.rules().take(k + 1).drop_last() =~= self.rules().take(k as int));
                assert(self.rules().take(k + 1).last() == *rule);
            }
            k = k + 1;
        }
        assert(self.rules().take(rules as int) =~= self.rules());
        self.calculate_total_resource_usage(group);
    }

    /// Applies, on every group, every rule, in order, to the children and
    /// to the parent, and then writes the totals on the parent.
    pub fn apply_attributes(&self, input: &mut Vec<OsProcessGroup>)
        ensures
            final(input).deep_view() == old(input).deep_view().map_values(
                |group: GroupModel| annotated(self.rules(), group),
            ),
    {
        let ghost initial = input.deep_view();
        let n = input.len();
        let mut i: usize = 0;
        while i < n
            invariant
                n == input.len(),
                n == initial.len(),
                i <= n,
                forall|g: int|
                    0 <= g < i ==> (#[trigger] input@[g])@ == annotated(self.rules(), initial[g]),
                forall|g: int| i <= g < n ==> (#[trigger] input@[g])@ == initial[g],
            decreases n - i,
        {
            let ghost held = input@;
            self.annotate(&mut input[i]);
            assert(forall|g: int| 0 <= g < n && g != i ==> #[trigger] input@[g] == held[g]);
            i = i + 1;
        }
        assert(input.deep_view() =~= initial.map_values(
            |group: GroupModel| annotated(self.rules(), group),
        ));
    }

    /// Groups the reported processes by parent. Reports that do not convert
    /// and processes that are dead or idle are left out; the rest of the
    /// scan goes on.
    pub fn scan_running_proccess(&self, processes: &Vec<ProcessRaw>) -> (groups: Vec<
        OsProcessGroup,
    >)
        ensures
            groups.deep_view() == grouped(processes.deep_view(), processes.len() as int),
    {
        group_processes(processes)
    }
}

} // verus!
