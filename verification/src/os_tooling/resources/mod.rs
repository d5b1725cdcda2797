//! What is observed of a machine's resources, and the attributes that are
//! derived from the observations.

pub mod cpu;
pub mod disk;
pub mod memory;
pub mod network;
pub mod process;

use vstd::prelude::*;

verus! {

/// The kinds of attribute that tagging can write on a process.
#[derive(Debug, Clone, Copy, Hash, PartialEq, Eq, Structural)]
pub enum MetadataTags {
    TotalCpu,
    TotalMemory,
    TotalFileDescriptors,
    CpuUsage,
    HighCpu,
    HighMemory,
    MemoryUsage,
    ThreatScore,
    ThreatScoreReason,
}

/// How many kinds of attribute there are.
pub const TAG_COUNT: usize = 9;

impl MetadataTags {
    /// The place of the kind in the order in which the kinds are listed.
    pub open spec fn ordinal(self) -> int {
        match self {
            MetadataTags::TotalCpu => 0,
            MetadataTags::TotalMemory => 1,
            MetadataTags::TotalFileDescriptors => 2,
            MetadataTags::CpuUsage => 3,
            MetadataTags::HighCpu => 4,
            MetadataTags::HighMemory => 5,
            MetadataTags::MemoryUsage => 6,
            MetadataTags::ThreatScore => 7,
            MetadataTags::ThreatScoreReason => 8,
        }
    }

    /// Every kind, in the order in which the kinds are listed.
    pub fn all() -> (tags: Vec<MetadataTags>)
        ensures
            tags.len() == TAG_COUNT,
            forall|i: int| 0 <= i < TAG_COUNT ==> (#[trigger] tags[i]).ordinal() == i,
    {
        let mut tags: Vec<MetadataTags> = Vec::new();
        tags.push(MetadataTags::TotalCpu);
        tags.push(MetadataTags::TotalMemory);
        tags.push(MetadataTags::TotalFileDescriptors);
        tags.push(MetadataTags::CpuUsage);
        tags.push(MetadataTags::HighCpu);
        tags.push(MetadataTags::HighMemory);
        tags.push(MetadataTags::MemoryUsage);
        tags.push(MetadataTags::ThreatScore);
        tags.push(MetadataTags::ThreatScoreReason);
        tags
    }

    /// The name of the kind.
    pub fn name(self) -> (name: &'static str)
        ensures
            name@ == match self {
                MetadataTags::TotalCpu => "TotalCpu"@,
                MetadataTags::TotalMemory => "TotalMemory"@,
                MetadataTags::TotalFileDescriptors => "TotalFileDescriptors"@,
                MetadataTags::CpuUsage => "CpuUsage"@,
                MetadataTags::HighCpu => "HighCpu"@,
                MetadataTags::HighMemory => "HighMemory"@,
                MetadataTags::MemoryUsage => "MemoryUsage"@,
                MetadataTags::ThreatScore => "ThreatScore"@,
                MetadataTags::ThreatScoreReason => "ThreatScoreReason"@,
            },
    {
        match self {
            MetadataTags::TotalCpu => "TotalCpu",
            MetadataTags::TotalMemory => "TotalMemory",
            MetadataTags::TotalFileDescriptors => "TotalFileDescriptors",
            MetadataTags::CpuUsage => "CpuUsage",
            MetadataTags::HighCpu => "HighCpu",
            MetadataTags::HighMemory => "HighMemory",
            MetadataTags::MemoryUsage => "MemoryUsage",
            MetadataTags::ThreatScore => "ThreatScore",
            MetadataTags::ThreatScoreReason => "ThreatScoreReason",
        }
    }
}

/// The attributes of one process: at most one text per kind.
#[derive(Debug, PartialEq, Eq)]
pub struct AttributeMap {
    total_cpu: Option<String>,
    total_memory: Option<String>,
    total_file_descriptors: Option<String>,
    cpu_usage: Option<String>,
    high_cpu: Option<String>,
    high_memory: Option<String>,
    memory_usage: Option<String>,
    threat_score: Option<String>,
    threat_score_reason: Option<String>,
}

impl AttributeMap {
    /// What is held for `tag`.
    spec fn held(&self, tag: MetadataTags) -> Option<String> {
        match tag {
            MetadataTags::TotalCpu => self.total_cpu,
            MetadataTags::TotalMemory => self.total_memory,
            MetadataTags::TotalFileDescriptors => self.total_file_descriptors,
            MetadataTags::CpuUsage => self.cpu_usage,
            MetadataTags::HighCpu => self.high_cpu,
            MetadataTags::HighMemory => self.high_memory,
            MetadataTags::MemoryUsage => self.memory_usage,
            MetadataTags::ThreatScore => self.threat_score,
            MetadataTags::ThreatScoreReason => self.threat_score_reason,
        }
    }
}

impl View for AttributeMap {
    type V = Map<MetadataTags, Seq<char>>;

    closed spec fn view(&self) -> Map<MetadataTags, Seq<char>> {
        Map::new(|tag: MetadataTags| self.held(tag) is Some, |tag: MetadataTags| self.held(tag)->0@)
    }
}

impl DeepView for AttributeMap {
    type V = Map<MetadataTags, Seq<char>>;

    open spec fn deep_view(&self) -> Map<MetadataTags, Seq<char>> {
        self@
    }
}

impl AttributeMap {
    /// A map without attributes.
    pub fn new() -> (attributes: Self)
        ensures
            attributes@ == Map::<MetadataTags, Seq<char>>::empty(),
    {
        AttributeMap {
            total_cpu: None,
            total_memory: None,
            total_file_descriptors: None,
            cpu_usage: None,
            high_cpu: None,
            high_memory: None,
            memory_usage: None,
            threat_score: None,
            threat_score_reason: None,
        }
    }

    /// Writes `value` for `tag`, in place of what was held for it.
    pub fn insert(&mut self, tag: MetadataTags, value: String)
        ensures
            final(self)@ == old(self)@.insert(tag, value@),
    {
        match tag {
            MetadataTags::TotalCpu => self.total_cpu = Some(value),
            MetadataTags::TotalMemory => self.total_memory = Some(value),
            MetadataTags::TotalFileDescriptors => self.total_file_descriptors = Some(value),
            MetadataTags::CpuUsage => self.cpu_usage = Some(value),
            MetadataTags::HighCpu => self.high_cpu = Some(value),
            MetadataTags::HighMemory => self.high_memory = Some(value),
            MetadataTags::MemoryUsage => self.memory_usage = Some(value),
            MetadataTags::ThreatScore => self.threat_score = Some(value),
            MetadataTags::ThreatScoreReason => self.threat_score_reason = Some(value),
        }
    }

    /// Deletes what is held for `tag`, if anything.
    pub fn remove(&mut self, tag: &MetadataTags)
        ensures
            final(self)@ == old(self)@.remove(*tag),
    {
        match tag {
            MetadataTags::TotalCpu => self.total_cpu = None,
            MetadataTags::TotalMemory => self.total_memory = None,
            MetadataTags::TotalFileDescriptors => self.total_file_descriptors = None,
            MetadataTags::CpuUsage => self.cpu_usage = None,
            MetadataTags::HighCpu => self.high_cpu = None,
            MetadataTags::HighMemory => self.high_memory = None,
            MetadataTags::MemoryUsage => self.memory_usage = None,
            MetadataTags::ThreatScore => self.threat_score = None,
            MetadataTags::ThreatScoreReason => self.threat_score_reason = None,
        }
    }

    /// The text held for `tag`, if any.
    pub fn get(&self, tag: &MetadataTags) -> (value: Option<&String>)
        ensures
            match value {
                Some(text) => self@.contains_key(*tag) && self@[*tag] == text@,
                None => !self@.contains_key(*tag),
            },
    {
        match tag {
            MetadataTags::TotalCpu => self.total_cpu.as_ref(),
            MetadataTags::TotalMemory => self.total_memory.as_ref(),
            MetadataTags::TotalFileDescriptors => self.total_file_descriptors.as_ref(),
            MetadataTags::CpuUsage => self.cpu_usage.as_ref(),
            MetadataTags::HighCpu => self.high_cpu.as_ref(),
            MetadataTags::HighMemory => self.high_memory.as_ref(),
            MetadataTags::MemoryUsage => self.memory_usage.as_ref(),
            MetadataTags::ThreatScore => self.threat_score.as_ref(),
            MetadataTags::ThreatScoreReason => self.threat_score_reason.as_ref(),
        }
    }

    /// The attributes that are held, each kind with its text, in the order
    /// in which the kinds are listed.
    pub fn entries(&self) -> (pairs: Vec<(MetadataTags, String)>)
        ensures
            forall|i: int|
                0 <= i < pairs.len() ==> self@.contains_key((#[trigger] pairs[i]).0)
                    && self@[pairs[i].0] == pairs[i].1@,
            forall|tag: MetadataTags|
                self@.contains_key(tag) ==> exists|i: int|
                    0 <= i < pairs.len() && (#[trigger] pairs[i]).0 == tag,
            forall|i: int, j: int|
                0 <= i < j < pairs.len() ==> (#[trigger] pairs[i]).0.ordinal() < (
                #[trigger] pairs[j]).0.ordinal(),
    {
        let tags = MetadataTags::all();
        let mut pairs: Vec<(MetadataTags, String)> = Vec::new();
        let mut t: usize = 0;
        while t < TAG_COUNT
            invariant
                t <= TAG_COUNT,
                tags.len() == TAG_COUNT,
                forall|i: int| 0 <= i < TAG_COUNT ==> (#[trigger] tags[i]).ordinal() == i,
                forall|i: int|
                    0 <= i < pairs.len() ==> self@.contains_key((#[trigger] pairs[i]).0)
                        && self@[pairs[i].0] == pairs[i].1@ && pairs[i].0.ordinal() < t,
                forall|k: int|
                    0 <= k < t && self@.contains_key(#[trigger] tags[k]) ==> exists|i: int|
                        0 <= i < pairs.len() && (#[trigger] pairs[i]).0 == tags[k],
                forall|i: int, j: int|
                    0 <= i < j < pairs.len() ==> (#[trigger] pairs[i]).0.ordinal() < (
                    #[trigger] pairs[j]).0.ordinal(),
            decreases TAG_COUNT - t,
        {
            let tag = tags[t];
            let ghost held = pairs@;
            match self.get(&tag) {
                Some(text) => {
                    pairs.push((tag, text.clone()));
                    assert(pairs[held.len() as int].0 == tag);
                    assert(forall|i: int| 0 <= i < held.len() ==> pairs[i] == held[i]);
                },
                None => {},
            }
            t = t + 1;
        }
        assert forall|tag: MetadataTags| self@.contains_key(tag) implies exists|i: int|
            0 <= i < pairs.len() && (#[trigger] pairs[i]).0 == tag by {
            let k = tag.ordinal();
            assert(tags[k] == tag);
        }
        pairs
    }

    /// Whether a text is held for `tag`.
    pub fn contains_key(&self, tag: &MetadataTags) -> (held: bool)
        ensures
            held == self@.contains_key(*tag),
    {
        self.get(tag).is_some()
    }
}

impl Clone for AttributeMap {
    fn clone(&self) -> (copy: Self)
        ensures
            copy@ == self@,
    {
        AttributeMap {
            total_cpu: self.total_cpu.clone(),
            total_memory: self.total_memory.clone(),
            total_file_descriptors: self.total_file_descriptors.clone(),
            cpu_usage: self.cpu_usage.clone(),
            high_cpu: self.high_cpu.clone(),
            high_memory: self.high_memory.clone(),
            memory_usage: self.memory_usage.clone(),
            threat_score: self.threat_score.clone(),
            threat_score_reason: self.threat_score_reason.clone(),
        }
    }
}

impl Default for AttributeMap {
    fn default() -> (attributes: Self)
        ensures
            attributes@ == Map::<MetadataTags, Seq<char>>::empty(),
    {
        AttributeMap::new()
    }
}

} // verus!
