//! One observed process, a parent with its children, and the rules that
//! derive attributes from what was observed.

use super::memory::BYTES_PER_MEGABYTE;
use super::{AttributeMap, MetadataTags};
use crate::text::{decimal, decimal_text, digit_char, digit_text, str_equal};
use vstd::prelude::*;

verus! {

/// One process as the operating system reports it. A text that the system
/// holds in a form that is not valid Unicode is absent here.
#[derive(Debug)]
pub struct ProcessRaw {
    pub pid: u32,
    /// The pid of the parent, where the system reports one.
    pub parent: Option<u32>,
    /// Processor share in hundredths of a percent.
    pub cpu: u32,
    /// Resident memory in bytes.
    pub memory: u64,
    /// Seconds since the process started.
    pub run_time: u64,
    pub name: Option<String>,
    pub status: String,
    /// The command line, argument by argument.
    pub command: Vec<Option<String>>,
    /// The effective user, where the system reports one.
    pub user_id: Option<String>,
}

/// A reported process as contracts speak of it.
pub struct RawModel {
    pub pid: u32,
    pub parent: Option<u32>,
    pub cpu: u32,
    pub memory: u64,
    pub run_time: u64,
    pub name: Option<Seq<char>>,
    pub status: Seq<char>,
    pub command: Seq<Option<Seq<char>>>,
    pub user_id: Option<Seq<char>>,
}

impl DeepView for ProcessRaw {
    type V = RawModel;

    open spec fn deep_view(&self) -> RawModel {
        RawModel {
            pid: self.pid,
            parent: self.parent,
            cpu: self.cpu,
            memory: self.memory,
            run_time: self.run_time,
            name: self.name.deep_view(),
            status: self.status@,
            command: self.command.deep_view(),
            user_id: self.user_id.deep_view(),
        }
    }
}

impl View for ProcessRaw {
    type V = RawModel;

    open spec fn view(&self) -> RawModel {
        self.deep_view()
    }
}

/// One observation of a process.
#[derive(Debug, PartialEq, Eq)]
pub struct OsProcessInformation {
    pub pid: u32,
    /// Processor share in hundredths of a percent.
    pub cpu: u32,
    /// Resident memory in megabytes.
    pub memory_usage: u64,
    /// Seconds since the process started.
    pub run_time: u64,
    pub name: String,
    pub status: String,
    pub command: Vec<String>,
    pub user_id: String,
    /// Derived by tagging, never observed.
    pub attributes: AttributeMap,
    pub fd_count: u64,
}

/// An observation of a process as contracts speak of it.
pub struct ProcessModel {
    pub pid: u32,
    pub cpu: u32,
    pub memory_usage: u64,
    pub run_time: u64,
    pub name: Seq<char>,
    pub status: Seq<char>,
    pub command: Seq<Seq<char>>,
    pub user_id: Seq<char>,
    pub attributes: Map<MetadataTags, Seq<char>>,
    pub fd_count: u64,
}

impl DeepView for OsProcessInformation {
    type V = ProcessModel;

    open spec fn deep_view(&self) -> ProcessModel {
        ProcessModel {
            pid: self.pid,
            cpu: self.cpu,
            memory_usage: self.memory_usage,
            run_time: self.run_time,
            name: self.name@,
            status: self.status@,
            command: self.command.deep_view(),
            user_id: self.user_id@,
            attributes: self.attributes@,
            fd_count: self.fd_count,
        }
    }
}

impl View for OsProcessInformation {
    type V = ProcessModel;

    open spec fn view(&self) -> ProcessModel {
        self.deep_view()
    }
}

impl Clone for OsProcessInformation {
    fn clone(&self) -> (copy: Self)
        ensures
            copy@ == self@,
    {
        OsProcessInformation {
            pid: self.pid,
            cpu: self.cpu,
            memory_usage: self.memory_usage,
            run_time: self.run_time,
            name: self.name.clone(),
            status: self.status.clone(),
            command: self.command.clone(),
            user_id: self.user_id.clone(),
            attributes: self.attributes.clone(),
            fd_count: self.fd_count,
        }
    }
}

/// A process of which nothing is known.
pub open spec fn blank_process() -> ProcessModel {
    ProcessModel {
        pid: 0,
        cpu: 0,
        memory_usage: 0,
        run_time: 0,
        name: Seq::empty(),
        status: Seq::empty(),
        command: Seq::empty(),
        user_id: Seq::empty(),
        attributes: Map::empty(),
        fd_count: 0,
    }
}

impl Default for OsProcessInformation {
    fn default() -> (process: Self)
        ensures
            process@ == blank_process(),
    {
        let process = OsProcessInformation {
            pid: 0,
            cpu: 0,
            memory_usage: 0,
            run_time: 0,
            name: String::new(),
            status: String::new(),
            command: Vec::new(),
            user_id: String::new(),
            attributes: AttributeMap::new(),
            fd_count: 0,
        };
        assert(process@.command =~= Seq::<Seq<char>>::empty());
        process
    }
}

/// A parent process and the processes whose reported parent it is.
#[derive(Debug, PartialEq, Eq)]
pub struct OsProcessGroup {
    pub parent_process: OsProcessInformation,
    pub forked_threads: Vec<OsProcessInformation>,
}

/// A group as contracts speak of it.
pub struct GroupModel {
    pub parent_process: ProcessModel,
    pub forked_threads: Seq<ProcessModel>,
}

impl DeepView for OsProcessGroup {
    type V = GroupModel;

    open spec fn deep_view(&self) -> GroupModel {
        GroupModel {
            parent_process: self.parent_process@,
            forked_threads: self.forked_threads.deep_view(),
        }
    }
}

impl View for OsProcessGroup {
    type V = GroupModel;

    open spec fn view(&self) -> GroupModel {
        self.deep_view()
    }
}

impl Clone for OsProcessGroup {
    fn clone(&self) -> (copy: Self)
        ensures
            copy@ == self@,
    {
        OsProcessGroup {
            parent_process: self.parent_process.clone(),
            forked_threads: self.forked_threads.clone(),
        }
    }
}

impl Default for OsProcessGroup {
    fn default() -> (group: Self)
        ensures
            group@.parent_process == blank_process(),
            group@.forked_threads == Seq::<ProcessModel>::empty(),
    {
        OsProcessGroup {
            parent_process: OsProcessInformation::default(),
            forked_threads: Vec::new(),
        }
    }
}

/// Why a reported process could not be taken over.
#[derive(Debug, Clone, Copy, PartialEq, Eq, Structural)]
pub enum ProcessConversionError {
    NameError,
    PathError,
    InvalidState,
    CommandConversionError,
}

impl ProcessConversionError {
    /// What the error says.
    pub fn message(&self) -> (text: &'static str)
        ensures
            text@ == match *self {
                ProcessConversionError::NameError => "Failed to get process name"@,
                ProcessConversionError::PathError => "Failed to get process path"@,
                ProcessConversionError::InvalidState => "Invalid process state"@,
                ProcessConversionError::CommandConversionError => "Failed to convert command string"@,
            },
    {
        match self {
            ProcessConversionError::NameError => "Failed to get process name",
            ProcessConversionError::PathError => "Failed to get process path",
            ProcessConversionError::InvalidState => "Invalid process state",
            ProcessConversionError::CommandConversionError => "Failed to convert command string",
        }
    }
}

/// Every argument of the command line is valid Unicode.
pub open spec fn command_readable(command: Seq<Option<Seq<char>>>) -> bool {
    forall|i: int| 0 <= i < command.len() ==> #[trigger] command[i] is Some
}

/// What a reported process is taken over as: the name and every argument
/// must be readable, memory is given in whole megabytes, an unreported user
/// is the empty text, and nothing is derived yet.
pub open spec fn converted(raw: RawModel) -> Result<ProcessModel, ProcessConversionError> {
    if raw.name is None {
        Err(ProcessConversionError::NameError)
    } else if !command_readable(raw.command) {
        Err(ProcessConversionError::CommandConversionError)
    } else {
        Ok(
            ProcessModel {
                pid: raw.pid,
                cpu: raw.cpu,
                memory_usage: raw.memory / BYTES_PER_MEGABYTE,
                run_time: raw.run_time,
                name: raw.name->0,
                status: raw.status,
                command: raw.command.map_values(|a: Option<Seq<char>>| a->0),
                user_id: match raw.user_id {
                    Some(user) => user,
                    None => Seq::empty(),
                },
                attributes: Map::empty(),
                fd_count: 0,
            },
        )
    }
}

impl OsProcessInformation {
    /// Takes a reported process over.
    pub fn try_from(process: &ProcessRaw) -> (result: Result<Self, ProcessConversionError>)
        ensures
            match converted(process@) {
                Ok(model) => result is Ok && result->Ok_0@ == model,
                Err(error) => result == Err::<Self, ProcessConversionError>(error),
            },
    {
        let name = match &process.name {
            Some(name) => name.clone(),
            None => {
                return Err(ProcessConversionError::NameError);
            },
        };
        let mut command: Vec<String> = Vec::new();
        let n = process.command.len();
        let mut i: usize = 0;
        while i < n
            invariant
                process@.name is Some,
                n == process.command.len(),
                i <= n,
                command.len() == i,
                forall|j: int| 0 <= j < i ==> #[trigger] process@.command[j] is Some,
                forall|j: int| 0 <= j < i ==> #[trigger] command[j]@ == process@.command[j]->0,
            decreases n - i,
        {
            match &process.command[i] {
                Some(argument) => {
                    command.push(argument.clone());
                },
                None => {
                    assert(process@.command[i as int] is None);
                    return Err(ProcessConversionError::CommandConversionError);
                },
            }
            i = i + 1;
        }
        let user_id = match &process.user_id {
            Some(user) => user.clone(),
            None => String::new(),
        };
        let taken = OsProcessInformation {
            pid: process.pid,
            cpu: process.cpu,
            memory_usage: process.memory / BYTES_PER_MEGABYTE,
            run_time: process.run_time,
            name,
            status: process.status.clone(),
            command,
            user_id,
            attributes: AttributeMap::new(),
            fd_count: 0,
        };
        assert(taken@.command =~= process@.command.map_values(|a: Option<Seq<char>>| a->0));
        Ok(taken)
    }
}

/// A process is alive unless its status says that it is dead or idle.
pub open spec fn alive(status: Seq<char>) -> bool {
    status != "Dead"@ && status != "dead"@ && status != "Idle"@ && status != "idle"@
}

/// Whether a process is worth watching: dead and idle ones are not.
pub fn is_process_alive(process: &OsProcessInformation) -> (live: bool)
    ensures
        live == alive(process@.status),
{
    let status = process.status.as_str();
    !(str_equal(status, "Dead") || str_equal(status, "dead") || str_equal(status, "Idle")
        || str_equal(status, "idle"))
}

/// The text of a share given in hundredths of a percent: the whole
/// percents, then, where the share is not whole, a point and one or two
/// decimals, without a zero at the end.
pub open spec fn percent(hundredths: nat) -> Seq<char> {
    let whole = decimal(hundredths / 100);
    let rest = hundredths % 100;
    if rest == 0 {
        whole
    } else if rest % 10 == 0 {
        whole + seq!['.', digit_char(rest / 10)]
    } else {
        whole + seq!['.', digit_char(rest / 10), digit_char(rest % 10)]
    }
}

/// The text of a share given in hundredths of a percent.
pub fn percent_text(hundredths: u128) -> (text: String)
    ensures
        text@ == percent(hundredths as nat),
{
    let mut text = decimal_text(hundredths / 100);
    let rest = (hundredths % 100) as u8;
    if rest != 0 {
        proof {
            reveal_strlit(".");
        }
        text.append(".");
        text.append(digit_text(rest / 10));
        if rest % 10 != 0 {
            text.append(digit_text(rest % 10));
        }
    }
    text
}

/// `process` with `attributes` in place of its own.
pub open spec fn with_attributes(
    process: ProcessModel,
    attributes: Map<MetadataTags, Seq<char>>,
) -> ProcessModel {
    ProcessModel {
        pid: process.pid,
        cpu: process.cpu,
        memory_usage: process.memory_usage,
        run_time: process.run_time,
        name: process.name,
        status: process.status,
        command: process.command,
        user_id: process.user_id,
        attributes,
        fd_count: process.fd_count,
    }
}

/// A rule that inspects one process and writes derived attributes on it.
pub trait ProcessAttribute: Send {
    /// The process after `tag`.
    spec fn tagged(&self, process: ProcessModel) -> ProcessModel;

    /// The process after `untag`.
    spec fn untagged(&self, process: ProcessModel) -> ProcessModel;

    /// Writes what the rule derives.
    fn tag(&self, process: &mut OsProcessInformation)
        ensures
            final(process)@ == self.tagged(old(process)@),
    ;

    /// Takes back what the rule marks.
    fn untag(&self, process: &mut OsProcessInformation)
        ensures
            final(process)@ == self.untagged(old(process)@),
    ;
}

/// Marks a process whose processor share or memory is above a threshold.
#[derive(Debug, Clone, Copy, PartialEq, Eq)]
pub struct ResourceUsageAttribute {
    /// In hundredths of a percent.
    pub cpu_threshold: u32,
    /// In megabytes.
    pub memory_threshold: u64,
}

impl ResourceUsageAttribute {
    /// A rule with the given thresholds: the processor share in hundredths
    /// of a percent, the memory in megabytes.
    pub fn new(cpu_threshold: u32, memory_threshold: u64) -> (rule: Self)
        ensures
            rule.cpu_threshold == cpu_threshold,
            rule.memory_threshold == memory_threshold,
    {
        Self { cpu_threshold, memory_threshold }
    }

    /// The attributes after the processor share was judged: `HighCpu` above
    /// the threshold, `CpuUsage` otherwise, never both.
    pub open spec fn cpu_judged(
        &self,
        attributes: Map<MetadataTags, Seq<char>>,
        cpu: u32,
    ) -> Map<MetadataTags, Seq<char>> {
        if cpu > self.cpu_threshold {
            attributes.remove(MetadataTags::CpuUsage).insert(
                MetadataTags::HighCpu,
                percent(cpu as nat),
            )
        } else {
            attributes.remove(MetadataTags::HighCpu).insert(
                MetadataTags::CpuUsage,
                percent(cpu as nat),
            )
        }
    }

    /// The attributes after the memory was judged: `HighMemory` above the
    /// threshold, `MemoryUsage` otherwise, never both.
    pub open spec fn memory_judged(
        &self,
        attributes: Map<MetadataTags, Seq<char>>,
        memory_usage: u64,
    ) -> Map<MetadataTags, Seq<char>> {
        if memory_usage > self.memory_threshold {
            attributes.remove(MetadataTags::MemoryUsage).insert(
                MetadataTags::HighMemory,
                decimal(memory_usage as nat),
            )
        } else {
            attributes.remove(MetadataTags::HighMemory).insert(
                MetadataTags::MemoryUsage,
                decimal(memory_usage as nat),
            )
        }
    }

    /// After tagging, a process carries `HighCpu` exactly when its share is
    /// above the threshold and `CpuUsage` exactly when it is not, with the
    /// share as the text; the same holds of its memory.
    pub proof fn lemma_marks_are_exclusive(&self, process: ProcessModel)
        ensures
            ({
                let marks = self.tagged(process).attributes;
                &&& marks.contains_key(MetadataTags::HighCpu) <==> process.cpu > self.cpu_threshold
                &&& marks.contains_key(MetadataTags::CpuUsage) <==> process.cpu
                    <= self.cpu_threshold
                &&& marks.contains_key(MetadataTags::HighMemory) <==> process.memory_usage
                    > self.memory_threshold
                &&& marks.contains_key(MetadataTags::MemoryUsage) <==> process.memory_usage
                    <= self.memory_threshold
                &&& process.cpu > self.cpu_threshold ==> marks[MetadataTags::HighCpu] == percent(
                    process.cpu as nat,
                )
                &&& process.cpu <= self.cpu_threshold ==> marks[MetadataTags::CpuUsage] == percent(
                    process.cpu as nat,
                )
                &&& process.memory_usage > self.memory_threshold ==> marks[MetadataTags::HighMemory]
                    == decimal(process.memory_usage as nat)
                &&& process.memory_usage <= self.memory_threshold
                    ==> marks[MetadataTags::MemoryUsage] == decimal(process.memory_usage as nat)
            }),
    {
    }
}

impl ProcessAttribute for ResourceUsageAttribute {
    open spec fn tagged(&self, process: ProcessModel) -> ProcessModel {
        with_attributes(
            process,
            self.memory_judged(
                self.cpu_judged(process.attributes, process.cpu),
                process.memory_usage,
            ),
        )
    }

    open spec fn untagged(&self, process: ProcessModel) -> ProcessModel {
        with_attributes(
            process,
            process.attributes.remove(MetadataTags::HighCpu).remove(MetadataTags::HighMemory),
        )
    }

    fn tag(&self, process: &mut OsProcessInformation) {
        let cpu_text = percent_text(process.cpu as u128);
        if process.cpu > self.cpu_threshold {
            process.attributes.remove(&MetadataTags::CpuUsage);
            process.attributes.insert(MetadataTags::HighCpu, cpu_text);
        } else {
            process.attributes.remove(&MetadataTags::HighCpu);
            process.attributes.insert(MetadataTags::CpuUsage, cpu_text);
        }
        let memory_text = decimal_text(process.memory_usage as u128);
        if process.memory_usage > self.memory_threshold {
            process.attributes.remove(&MetadataTags::MemoryUsage);
            process.attributes.insert(MetadataTags::HighMemory, memory_text);
        } else {
            process.attributes.remove(&MetadataTags::HighMemory);
            process.attributes.insert(MetadataTags::MemoryUsage, memory_text);
        }
    }

    fn untag(&self, process: &mut OsProcessInformation) {
        process.attributes.remove(&MetadataTags::HighCpu);
        process.attributes.remove(&MetadataTags::HighMemory);
    }
}

} // verus!
