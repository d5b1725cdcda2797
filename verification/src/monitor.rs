//! The stores of recent samples, the store of scores, and the snapshot that
//! is put together from them.

use crate::cache::blob::{clones_of, put, recent, Cache, Entry, NANOS_PER_SECOND};
use crate::configuration::{CollectorIntervals, Settings};
use crate::ollama::client::{
    name_of, project_names, response_outcome, scores_from_response, ScoringError,
};
use crate::ollama::ollama_types::{NameModel, OllamaNameInput, ProcessScore, ScoreModel};
use crate::os_tooling::resources::cpu::{CPUGroup, CpuModel};
use crate::os_tooling::resources::disk::{DiskGroup, DiskResource};
use crate::os_tooling::resources::memory::SystemMemory;
use crate::os_tooling::resources::network::{InterfaceModel, NetworkInterfaceGroup};
use crate::os_tooling::resources::process::{
    with_attributes, GroupModel, OsProcessGroup, ProcessRaw, RawModel, ResourceUsageAttribute,
};
use crate::os_tooling::scanner::{
    annotated, grouped, SystemScanner, DEFAULT_CPU_THRESHOLD, DEFAULT_MEMORY_THRESHOLD,
};
use crate::os_tooling::MetadataTags;
use crate::text::{
    decimal, decimal_text, lemma_lex_prefix, lemma_padded_order, lex_less, padded, pow10,
    push_padded,
};
use std::collections::HashMap;
use vstd::prelude::*;

verus! {

broadcast use vstd::std_specs::hash::group_hash_axioms;

/// The width of the time stamp in a key.
pub const STAMP_WIDTH: usize = 20;

/// What stands in a key between the kind of metric and the time stamp.
pub const KEY_SEPARATOR: &'static str = "_";

/// What is kept of the score of one process.
#[derive(Debug, PartialEq, Eq)]
pub struct ProcessAnalysis {
    pub name: String,
    pub score: u8,
    pub reason: String,
}

/// A kept score as contracts speak of it.
pub struct AnalysisModel {
    pub name: Seq<char>,
    pub score: u8,
    pub reason: Seq<char>,
}

impl DeepView for ProcessAnalysis {
    type V = AnalysisModel;

    open spec fn deep_view(&self) -> AnalysisModel {
        AnalysisModel { name: self.name@, score: self.score, reason: self.reason@ }
    }
}

impl View for ProcessAnalysis {
    type V = AnalysisModel;

    open spec fn view(&self) -> AnalysisModel {
        self.deep_view()
    }
}

impl Clone for ProcessAnalysis {
    fn clone(&self) -> (copy: Self)
        ensures
            copy@ == self@,
    {
        ProcessAnalysis { name: self.name.clone(), score: self.score, reason: self.reason.clone() }
    }
}

/// What is kept of a score.
pub open spec fn analysis_of(score: ScoreModel) -> AnalysisModel {
    AnalysisModel { name: score.name, score: score.score, reason: score.reason }
}

/// The kept scores after `scores` were written one after the other, each
/// in place of what was kept for its pid.
pub open spec fn updated(kept: Map<u32, AnalysisModel>, scores: Seq<ScoreModel>) -> Map<
    u32,
    AnalysisModel,
>
    decreases scores.len(),
{
    if scores.len() == 0 {
        kept
    } else {
        updated(kept, scores.drop_last()).insert(scores.last().pid, analysis_of(scores.last()))
    }
}

/// The latest score of every process that was ever scored. Scores do not
/// expire.
#[derive(Debug)]
pub struct AnalysisStore {
    cache: HashMap<u32, ProcessAnalysis>,
}

impl View for AnalysisStore {
    type V = Map<u32, AnalysisModel>;

    closed spec fn view(&self) -> Map<u32, AnalysisModel> {
        self.cache@.map_values(|analysis: ProcessAnalysis| analysis@)
    }
}

impl AnalysisStore {
    /// A store without scores.
    pub fn new() -> (store: Self)
        ensures
            store@ == Map::<u32, AnalysisModel>::empty(),
    {
        Self { cache: HashMap::new() }
    }

    /// Writes every score, in order, in place of what was kept for its pid.
    pub fn update(&mut self, analyses: Vec<ProcessScore>)
        ensures
            final(self)@ == updated(old(self)@, analyses.deep_view()),
    {
        let ghost scores = analyses.deep_view();
        let n = analyses.len();
        let mut i: usize = 0;
        assert(scores.take(0) =~= Seq::<ScoreModel>::empty());
        while i < n
            invariant
                n == analyses.len(),
                i <= n,
                scores == analyses.deep_view(),
                self@ == updated(old(self)@, scores.take(i as int)),
            decreases n - i,
        {
            let analysis = &analyses[i];
            let ghost before = self@;
            let kept = ProcessAnalysis {
                name: analysis.name.clone(),
                score: analysis.score,
                reason: analysis.reason.clone(),
            };
            self.cache.insert(analysis.pid, kept);
            proof {
                assert(scores.take(i + 1).drop_last() =~= scores.take(i as int));
                assert(scores.take(i + 1).last() == analysis@);
                assert(self@ =~= before.insert(analysis.pid, analysis_of(analysis@)));
            }
            i = i + 1;
        }
        assert(scores.take(n as int) =~= scores);
    }

    /// What is kept for `pid`.
    pub fn get_analysis(&self, pid: u32) -> (kept: Option<ProcessAnalysis>)
        ensures
            match kept {
                Some(analysis) => self@.contains_key(pid) && self@[pid] == analysis@,
                None => !self@.contains_key(pid),
            },
    {
        match self.cache.get(&pid) {
            Some(analysis) => Some(analysis.clone()),
            None => None,
        }
    }
}

/// The key under which a sample of the kind `metric_type` taken at `stamp`
/// is stored: the kind, a separator, and the stamp as a numeral of fixed
/// width, so that the keys of one kind are ordered as their stamps are.
pub open spec fn metric_key(metric_type: Seq<char>, stamp: u64) -> Seq<char> {
    metric_type + KEY_SEPARATOR@ + padded(stamp as nat, STAMP_WIDTH as nat)
}

/// The keys of one kind of metric are ordered as their stamps: a sample
/// with a later stamp has the greater key.
pub proof fn lemma_keys_order_as_stamps(metric_type: Seq<char>, earlier: u64, later: u64)
    requires
        earlier < later,
    ensures
        lex_less(metric_key(metric_type, earlier), metric_key(metric_type, later)),
{
    assert(pow10(STAMP_WIDTH as nat) == 100_000_000_000_000_000_000nat) by {
        reveal_with_fuel(pow10, 21);
    }
    lemma_padded_order(earlier as nat, later as nat, STAMP_WIDTH as nat);
    let prefix = metric_type + KEY_SEPARATOR@;
    lemma_lex_prefix(
        prefix,
        padded(earlier as nat, STAMP_WIDTH as nat),
        padded(later as nat, STAMP_WIDTH as nat),
    );
}

/// The key under which a sample of the kind `metric_type` taken at `stamp`
/// is stored.
pub fn mint_key(metric_type: &str, stamp: u64) -> (key: String)
    ensures
        key@ == metric_key(metric_type@, stamp),
{
    let mut key = String::from_str(metric_type);
    key.append(KEY_SEPARATOR);
    push_padded(&mut key, stamp, STAMP_WIDTH);
    key
}

/// `chrono::Utc::now` and `DateTime::timestamp_millis`: the wall clock in
/// milliseconds since the start of 1970. Nothing is claimed of the number.
/// `chrono` does not return where the system's clock stands before 1970.
#[verifier::external_body]
fn wall_clock_millis() -> (millis: i64) {
    chrono::Utc::now().timestamp_millis()
}

/// The time stamp for a reading of the wall clock: the reading, and zero
/// for a reading before 1970.
pub fn stamp_of(millis: i64) -> (stamp: u64)
    ensures
        stamp == if millis < 0 {
            0
        } else {
            millis
        },
{
    if millis < 0 {
        0
    } else {
        millis as u64
    }
}

/// The recent samples of one kind of metric.
#[derive(Debug)]
pub struct MetricStore<T> {
    cache: Cache<T>,
}

impl<T> View for MetricStore<T> {
    type V = Seq<Entry<T>>;

    /// The entries, newest key first.
    closed spec fn view(&self) -> Seq<Entry<T>> {
        self.cache@
    }
}

impl<T: Clone> MetricStore<T> {
    /// The time-to-live of a sample in nanoseconds.
    pub closed spec fn ttl_nanos(&self) -> nat {
        self.cache.ttl_nanos()
    }

    /// An empty store whose samples live for `ttl_seconds`.
    pub fn new(ttl_seconds: u64) -> (store: Self)
        ensures
            store@ == Seq::<Entry<T>>::empty(),
            store.ttl_nanos() == ttl_seconds * NANOS_PER_SECOND,
    {
        Self { cache: Cache::new(ttl_seconds) }
    }

    /// The reading of this store's clock.
    pub fn now(&self) -> (nanos: u128) {
        self.cache.now()
    }

    /// Stores a sample of the kind `metric_type` that was taken at the wall
    /// clock reading `stamp`, as of the clock reading `now`.
    pub fn store_at(&mut self, metric_type: &str, value: T, stamp: u64, now: u128)
        ensures
            final(self)@ == put(old(self)@, metric_key(metric_type@, stamp), value, now as nat),
            final(self).ttl_nanos() == old(self).ttl_nanos(),
    {
        let key = mint_key(metric_type, stamp);
        self.cache.insert_at(key, value, now);
    }

    /// Stores a sample of the kind `metric_type` under a key minted from
    /// the wall clock.
    pub fn store(&mut self, metric_type: &str, value: T)
        ensures
            exists|stamp: u64, now: nat|
                final(self)@ == #[trigger] put(
                    old(self)@,
                    metric_key(metric_type@, stamp),
                    value,
                    now,
                ),
            final(self).ttl_nanos() == old(self).ttl_nanos(),
    {
        let stamp = stamp_of(wall_clock_millis());
        let now = self.now();
        self.store_at(metric_type, value, stamp, now);
    }

    /// The keys of the stored samples, expired ones included, newest
    /// first.
    pub fn keys(&self) -> (keys: Vec<String>)
        ensures
            keys.len() == self@.len(),
            forall|i: int| 0 <= i < keys.len() ==> (#[trigger] keys[i])@ == self@[i].key,
    {
        self.cache.keys()
    }

    /// Clones of the `count` newest samples that are live at the clock
    /// reading `now`, newest first.
    pub fn get_recent_at(&self, count: usize, now: u128) -> (values: Vec<T>)
        ensures
            clones_of(recent(self@, self.ttl_nanos(), now as nat, count as nat), values@),
            values.len() <= count,
    {
        self.cache.most_recent_at(count, now)
    }

    /// Clones of the `count` newest samples that have not expired, newest
    /// first.
    pub fn get_recent(&self, count: usize) -> (values: Vec<T>)
        ensures
            exists|now: nat|
                clones_of(#[trigger] recent(self@, self.ttl_nanos(), now, count as nat), values@),
            values.len() <= count,
    {
        let now = self.now();
        self.get_recent_at(count, now)
    }
}

/// The snapshot that is shown: the newest sample of every kind.
#[derive(Debug, PartialEq, Eq)]
pub struct MonitorOutput {
    pub processes: Vec<OsProcessGroup>,
    pub cpu: CPUGroup,
    pub memory: SystemMemory,
    pub disks: DiskGroup,
    pub network: NetworkInterfaceGroup,
}

/// A snapshot as contracts speak of it.
pub struct OutputModel {
    pub processes: Seq<GroupModel>,
    pub cpu: Seq<CpuModel>,
    pub memory: SystemMemory,
    pub disks: Seq<DiskResource>,
    pub network: Seq<InterfaceModel>,
}

impl DeepView for MonitorOutput {
    type V = OutputModel;

    open spec fn deep_view(&self) -> OutputModel {
        OutputModel {
            processes: self.processes.deep_view(),
            cpu: self.cpu@,
            memory: self.memory,
            disks: self.disks@,
            network: self.network@,
        }
    }
}

impl View for MonitorOutput {
    type V = OutputModel;

    open spec fn view(&self) -> OutputModel {
        self.deep_view()
    }
}

/// The snapshot of a machine of which nothing was sampled yet.
pub open spec fn empty_output() -> OutputModel {
    OutputModel {
        processes: Seq::empty(),
        cpu: Seq::empty(),
        memory: SystemMemory { total_memory: 0, used_memory: 0, total_swap: 0, used_swap: 0 },
        disks: Seq::empty(),
        network: Seq::empty(),
    }
}

impl Default for MonitorOutput {
    fn default() -> (output: Self)
        ensures
            output@ == empty_output(),
    {
        let output = MonitorOutput {
            processes: Vec::new(),
            cpu: CPUGroup::default(),
            memory: SystemMemory::default(),
            disks: DiskGroup::default(),
            network: NetworkInterfaceGroup::default(),
        };
        assert(output@.processes =~= Seq::<GroupModel>::empty());
        output
    }
}

impl MonitorOutput {
    /// The snapshot of a machine of which nothing was sampled yet.
    pub fn new() -> (output: Self)
        ensures
            output@ == empty_output(),
    {
        MonitorOutput::default()
    }

    /// This snapshot with `processes` as its processes.
    pub fn with_processes(self, processes: Vec<OsProcessGroup>) -> (output: Self)
        ensures
            output@ == (OutputModel { processes: processes.deep_view(), ..self@ }),
    {
        let mut output = self;
        output.processes = processes;
        output
    }

    /// This snapshot with `cpus` as its cores.
    pub fn with_cpu(self, cpus: CPUGroup) -> (output: Self)
        ensures
            output@ == (OutputModel { cpu: cpus@, ..self@ }),
    {
        let mut output = self;
        output.cpu = cpus;
        output
    }

    /// This snapshot with `memory` as its memory figures.
    pub fn with_memory(self, memory: SystemMemory) -> (output: Self)
        ensures
            output@ == (OutputModel { memory, ..self@ }),
    {
        let mut output = self;
        output.memory = memory;
        output
    }

    /// This snapshot with `disks` as its disks.
    pub fn with_disks(self, disks: DiskGroup) -> (output: Self)
        ensures
            output@ == (OutputModel { disks: disks@, ..self@ }),
    {
        let mut output = self;
        output.disks = disks;
        output
    }

    /// This snapshot with `networks` as its network interfaces.
    pub fn with_networks(self, networks: NetworkInterfaceGroup) -> (output: Self)
        ensures
            output@ == (OutputModel { network: networks@, ..self@ }),
    {
        let mut output = self;
        output.network = networks;
        output
    }
}

/// Seconds between two rounds with the scoring service.
pub const ANALYSIS_INTERVAL_SECONDS: u64 = 5;

/// Seconds to wait after a round with the scoring service that failed.
pub const ANALYSIS_RETRY_DELAY_SECONDS: u64 = 5;

/// The five collectors, one for each kind of metric.
#[derive(Debug, Clone, Copy, PartialEq, Eq, Hash, Structural)]
pub enum Collector {
    Process,
    Cpu,
    Memory,
    Disk,
    Network,
}

impl Collector {
    /// Seconds between two samples.
    pub open spec fn interval(self) -> u64 {
        match self {
            Collector::Process => 5,
            Collector::Cpu => 2,
            Collector::Memory => 10,
            Collector::Disk => 10,
            Collector::Network => 10,
        }
    }

    /// Seconds for which a sample is kept.
    pub open spec fn lifetime(self) -> u64 {
        match self {
            Collector::Process => 30,
            Collector::Cpu => 10,
            Collector::Memory => 10,
            Collector::Disk => 300,
            Collector::Network => 10,
        }
    }

    /// The name of the kind of metric, with which its keys begin.
    pub open spec fn kind(self) -> Seq<char> {
        match self {
            Collector::Process => "process"@,
            Collector::Cpu => "cpu"@,
            Collector::Memory => "memory"@,
            Collector::Disk => "disk"@,
            Collector::Network => "network"@,
        }
    }

    /// The interval that is configured for the collector, if any.
    pub open spec fn configured(self, intervals: CollectorIntervals) -> Option<u64> {
        match self {
            Collector::Process => intervals.process,
            Collector::Cpu => intervals.cpu,
            Collector::Memory => intervals.memory,
            Collector::Disk => intervals.disk,
            Collector::Network => intervals.network,
        }
    }

    /// Seconds between two samples under the given configuration: the
    /// configured interval, and the default where none is configured or
    /// the configured one is zero.
    pub open spec fn interval_under(self, intervals: CollectorIntervals) -> u64 {
        match self.configured(intervals) {
            Some(seconds) => if seconds > 0 {
                seconds
            } else {
                self.interval()
            },
            None => self.interval(),
        }
    }

    /// Seconds between two samples under the given settings. Never zero.
    pub fn interval_for(self, settings: &Settings) -> (seconds: u64)
        ensures
            seconds == self.interval_under(settings.monitor.intervals),
            seconds > 0,
    {
        let intervals = &settings.monitor.intervals;
        let configured = match self {
            Collector::Process => intervals.process,
            Collector::Cpu => intervals.cpu,
            Collector::Memory => intervals.memory,
            Collector::Disk => intervals.disk,
            Collector::Network => intervals.network,
        };
        match configured {
            Some(seconds) => if seconds > 0 {
                seconds
            } else {
                self.interval_seconds()
            },
            None => self.interval_seconds(),
        }
    }

    /// Seconds between two samples.
    pub fn interval_seconds(self) -> (seconds: u64)
        ensures
            seconds == self.interval(),
    {
        match self {
            Collector::Process => 5,
            Collector::Cpu => 2,
            Collector::Memory => 10,
            Collector::Disk => 10,
            Collector::Network => 10,
        }
    }

    /// Seconds for which a sample is kept.
    pub fn ttl_seconds(self) -> (seconds: u64)
        ensures
            seconds == self.lifetime(),
    {
        match self {
            Collector::Process => 30,
            Collector::Cpu => 10,
            Collector::Memory => 10,
            Collector::Disk => 300,
            Collector::Network => 10,
        }
    }

    /// The name of the kind of metric.
    pub fn metric_type(self) -> (name: &'static str)
        ensures
            name@ == self.kind(),
    {
        match self {
            Collector::Process => "process",
            Collector::Cpu => "cpu",
            Collector::Memory => "memory",
            Collector::Disk => "disk",
            Collector::Network => "network",
        }
    }
}

/// The value of the newest sample that is live at `now`.
pub open spec fn latest<V>(entries: Seq<Entry<V>>, ttl: nat, now: nat) -> Option<V> {
    let newest = recent(entries, ttl, now, 1);
    if newest.len() > 0 {
        Some(newest[0].value)
    } else {
        None
    }
}

/// A group with the score that is kept for its parent written on the
/// parent, where one is kept.
pub open spec fn enriched_group(
    group: GroupModel,
    analyses: Map<u32, AnalysisModel>,
) -> GroupModel {
    let parent = group.parent_process;
    if analyses.contains_key(parent.pid) {
        let analysis = analyses[parent.pid];
        GroupModel {
            parent_process: with_attributes(
                parent,
                parent.attributes.insert(
                    MetadataTags::ThreatScore,
                    decimal(analysis.score as nat),
                ).insert(MetadataTags::ThreatScoreReason, analysis.reason),
            ),
            forked_threads: group.forked_threads,
        }
    } else {
        group
    }
}

/// The groups, each with the score that is kept for its parent.
pub open spec fn enriched(groups: Seq<GroupModel>, analyses: Map<u32, AnalysisModel>) -> Seq<
    GroupModel,
> {
    groups.map_values(|group: GroupModel| enriched_group(group, analyses))
}

/// The groups that a table of reported processes is stored as: grouped by
/// parent, with the marks of the default rule and with totals.
pub open spec fn collected(table: Seq<RawModel>) -> Seq<GroupModel> {
    grouped(table, table.len() as int).map_values(
        |group: GroupModel|
            annotated(
                seq![
                    ResourceUsageAttribute {
                        cpu_threshold: DEFAULT_CPU_THRESHOLD,
                        memory_threshold: DEFAULT_MEMORY_THRESHOLD,
                    },
                ],
                group,
            ),
    )
}

/// The clone of the newest sample of `store` that is live at `now`.
fn newest<T: Clone>(store: &MetricStore<T>, now: u128) -> (found: Option<T>)
    ensures
        match latest(store@, store.ttl_nanos(), now as nat) {
            Some(value) => found is Some && cloned(value, found->0),
            None => found is None,
        },
{
    let mut values = store.get_recent_at(1, now);
    values.pop()
}

/// Owns the stores of samples and the store of scores, and puts snapshots
/// together from them.
#[derive(Debug)]
pub struct SystemMonitor {
    process_store: MetricStore<Vec<OsProcessGroup>>,
    cpu_store: MetricStore<CPUGroup>,
    memory_store: MetricStore<SystemMemory>,
    disk_store: MetricStore<DiskGroup>,
    network_store: MetricStore<NetworkInterfaceGroup>,
    analysis_store: AnalysisStore,
    settings: Settings,
}

impl SystemMonitor {
    /// The stored process samples, newest first.
    pub closed spec fn process_entries(&self) -> Seq<Entry<Vec<OsProcessGroup>>> {
        self.process_store@
    }

    /// The stored samples of the cores, newest first.
    pub closed spec fn cpu_entries(&self) -> Seq<Entry<CPUGroup>> {
        self.cpu_store@
    }

    /// The stored memory samples, newest first.
    pub closed spec fn memory_entries(&self) -> Seq<Entry<SystemMemory>> {
        self.memory_store@
    }

    /// The stored disk samples, newest first.
    pub closed spec fn disk_entries(&self) -> Seq<Entry<DiskGroup>> {
        self.disk_store@
    }

    /// The stored network samples, newest first.
    pub closed spec fn network_entries(&self) -> Seq<Entry<NetworkInterfaceGroup>> {
        self.network_store@
    }

    /// The kept scores by pid.
    pub closed spec fn analyses(&self) -> Map<u32, AnalysisModel> {
        self.analysis_store@
    }

    /// The settings that the monitor was made with.
    pub closed spec fn configured(&self) -> Settings {
        self.settings
    }

    /// The time-to-live of the samples of a collector, in nanoseconds.
    pub closed spec fn ttl(&self, collector: Collector) -> nat {
        match collector {
            Collector::Process => self.process_store.ttl_nanos(),
            Collector::Cpu => self.cpu_store.ttl_nanos(),
            Collector::Memory => self.memory_store.ttl_nanos(),
            Collector::Disk => self.disk_store.ttl_nanos(),
            Collector::Network => self.network_store.ttl_nanos(),
        }
    }

    /// `self` and `other` hold the same, but for the samples of
    /// `collector`.
    pub open spec fn same_except(&self, other: &Self, collector: Collector) -> bool {
        &&& collector != Collector::Process ==> self.process_entries() == other.process_entries()
        &&& collector != Collector::Cpu ==> self.cpu_entries() == other.cpu_entries()
        &&& collector != Collector::Memory ==> self.memory_entries() == other.memory_entries()
        &&& collector != Collector::Disk ==> self.disk_entries() == other.disk_entries()
        &&& collector != Collector::Network ==> self.network_entries() == other.network_entries()
        &&& self.analyses() == other.analyses()
        &&& self.configured() == other.configured()
        &&& forall|c: Collector| self.ttl(c) == other.ttl(c)
    }

    /// `self` and `other` hold the same samples.
    pub open spec fn same_samples(&self, other: &Self) -> bool {
        &&& self.process_entries() == other.process_entries()
        &&& self.cpu_entries() == other.cpu_entries()
        &&& self.memory_entries() == other.memory_entries()
        &&& self.disk_entries() == other.disk_entries()
        &&& self.network_entries() == other.network_entries()
        &&& self.configured() == other.configured()
        &&& forall|c: Collector| self.ttl(c) == other.ttl(c)
    }

    /// A monitor without samples and without scores. Every store keeps its
    /// samples for the lifetime of its collector.
    pub fn new(settings: Settings) -> (monitor: Self)
        ensures
            monitor.process_entries() == Seq::<Entry<Vec<OsProcessGroup>>>::empty(),
            monitor.cpu_entries() == Seq::<Entry<CPUGroup>>::empty(),
            monitor.memory_entries() == Seq::<Entry<SystemMemory>>::empty(),
            monitor.disk_entries() == Seq::<Entry<DiskGroup>>::empty(),
            monitor.network_entries() == Seq::<Entry<NetworkInterfaceGroup>>::empty(),
            monitor.analyses() == Map::<u32, AnalysisModel>::empty(),
            monitor.configured() == settings,
            forall|c: Collector|
                monitor.ttl(c) == c.lifetime() * NANOS_PER_SECOND,
    {
        Self {
            process_store: MetricStore::new(Collector::Process.ttl_seconds()),
            cpu_store: MetricStore::new(Collector::Cpu.ttl_seconds()),
            memory_store: MetricStore::new(Collector::Memory.ttl_seconds()),
            disk_store: MetricStore::new(Collector::Disk.ttl_seconds()),
            network_store: MetricStore::new(Collector::Network.ttl_seconds()),
            analysis_store: AnalysisStore::new(),
            settings,
        }
    }

    /// The settings that the monitor was made with.
    pub fn settings(&self) -> (settings: &Settings)
        ensures
            *settings == self.configured(),
    {
        &self.settings
    }

    /// The reading of the monitor's clock, in nanoseconds.
    pub fn now(&self) -> (nanos: u128) {
        self.process_store.now()
    }

    /// Groups and tags the reported processes and stores the result as the
    /// process sample taken at the wall clock reading `stamp`, as of the
    /// clock reading `now`.
    pub fn record_processes_at(&mut self, processes: &Vec<ProcessRaw>, stamp: u64, now: u128)
        ensures
            exists|groups: Vec<OsProcessGroup>|
                groups.deep_view() == collected(processes.deep_view())
                    && final(self).process_entries() == #[trigger] put(
                    old(self).process_entries(),
                    metric_key(Collector::Process.kind(), stamp),
                    groups,
                    now as nat,
                ),
            final(self).same_except(old(self), Collector::Process),
    {
        let scanner = SystemScanner::new();
        let mut groups = scanner.scan_running_proccess(processes);
        scanner.apply_attributes(&mut groups);
        let ghost stored = groups;
        self.process_store.store_at(Collector::Process.metric_type(), groups, stamp, now);
        assert(stored.deep_view() == collected(processes.deep_view()) && self.process_entries()
            == put(
            old(self).process_entries(),
            metric_key(Collector::Process.kind(), stamp),
            stored,
            now as nat,
        ));
    }

    /// Stores a sample of the cores.
    pub fn record_cpu_at(&mut self, cpu: CPUGroup, stamp: u64, now: u128)
        ensures
            final(self).cpu_entries() == put(
                old(self).cpu_entries(),
                metric_key(Collector::Cpu.kind(), stamp),
                cpu,
                now as nat,
            ),
            final(self).same_except(old(self), Collector::Cpu),
    {
        self.cpu_store.store_at(Collector::Cpu.metric_type(), cpu, stamp, now);
    }

    /// Stores a sample of the memory figures.
    pub fn record_memory_at(&mut self, memory: SystemMemory, stamp: u64, now: u128)
        ensures
            final(self).memory_entries() == put(
                old(self).memory_entries(),
                metric_key(Collector::Memory.kind(), stamp),
                memory,
                now as nat,
            ),
            final(self).same_except(old(self), Collector::Memory),
    {
        self.memory_store.store_at(Collector::Memory.metric_type(), memory, stamp, now);
    }

    /// Stores a sample of the disks.
    pub fn record_disks_at(&mut self, disks: DiskGroup, stamp: u64, now: u128)
        ensures
            final(self).disk_entries() == put(
                old(self).disk_entries(),
                metric_key(Collector::Disk.kind(), stamp),
                disks,
                now as nat,
            ),
            final(self).same_except(old(self), Collector::Disk),
    {
        self.disk_store.store_at(Collector::Disk.metric_type(), disks, stamp, now);
    }

    /// Stores a sample of the network interfaces.
    pub fn record_network_at(&mut self, network: NetworkInterfaceGroup, stamp: u64, now: u128)
        ensures
            final(self).network_entries() == put(
                old(self).network_entries(),
                metric_key(Collector::Network.kind(), stamp),
                network,
                now as nat,
            ),
            final(self).same_except(old(self), Collector::Network),
    {
        self.network_store.store_at(Collector::Network.metric_type(), network, stamp, now);
    }

    /// The snapshot at the clock reading `now`: of every kind the newest
    /// live sample, and nothing where there is none; every group of
    /// processes with the score that is kept for its parent.
    pub open spec fn snapshot(&self, now: nat) -> OutputModel {
        OutputModel {
            processes: match latest(self.process_entries(), self.ttl(Collector::Process), now) {
                Some(groups) => enriched(groups.deep_view(), self.analyses()),
                None => Seq::empty(),
            },
            cpu: match latest(self.cpu_entries(), self.ttl(Collector::Cpu), now) {
                Some(cpu) => cpu@,
                None => Seq::empty(),
            },
            memory: match latest(self.memory_entries(), self.ttl(Collector::Memory), now) {
                Some(memory) => memory,
                None => SystemMemory {
                    total_memory: 0,
                    used_memory: 0,
                    total_swap: 0,
                    used_swap: 0,
                },
            },
            disks: match latest(self.disk_entries(), self.ttl(Collector::Disk), now) {
                Some(disks) => disks@,
                None => Seq::empty(),
            },
            network: match latest(self.network_entries(), self.ttl(Collector::Network), now) {
                Some(network) => network@,
                None => Seq::empty(),
            },
        }
    }

    /// The groups, each with the score that is kept for its parent written
    /// on the parent.
    fn enrich(&self, groups: &mut Vec<OsProcessGroup>)
        ensures
            final(groups).deep_view() == enriched(old(groups).deep_view(), self.analyses()),
    {
        let ghost initial = groups.deep_view();
        let n = groups.len();
        let mut i: usize = 0;
        while i < n
            invariant
                n == groups.len(),
                n == initial.len(),
                i <= n,
                forall|g: int|
                    0 <= g < i ==> (#[trigger] groups@[g])@ == enriched_group(
                        initial[g],
                        self.analyses(),
                    ),
                forall|g: int| i <= g < n ==> (#[trigger] groups@[g])@ == initial[g],
            decreases n - i,
        {
            let ghost held = groups@;
            match self.analysis_store.get_analysis(groups[i].parent_process.pid) {
                Some(analysis) => {
                    groups[i].parent_process.attributes.insert(
                        MetadataTags::ThreatScore,
                        decimal_text(analysis.score as u128),
                    );
                    groups[i].parent_process.attributes.insert(
                        MetadataTags::ThreatScoreReason,
                        analysis.reason,
                    );
                    assert(forall|g: int|
                        0 <= g < n && g != i ==> #[trigger] groups@[g] == held[g]);
                    assert(groups@[i as int]@.forked_threads == held[i as int]@.forked_threads);
                },
                None => {},
            }
            i = i + 1;
        }
        assert(groups.deep_view() =~= enriched(initial, self.analyses()));
    }

    /// The snapshot at the clock reading `now`. Nothing that is stored
    /// changes.
    pub fn get_latest_snapshot_at(&self, now: u128) -> (output: MonitorOutput)
        ensures
            output@ == self.snapshot(now as nat),
    {
        let ghost shown = self.snapshot(now as nat);
        let mut processes = match newest(&self.process_store, now) {
            Some(groups) => groups,
            None => Vec::new(),
        };
        self.enrich(&mut processes);
        assert(processes.deep_view() =~= shown.processes);
        let cpu = match newest(&self.cpu_store, now) {
            Some(cpu) => cpu,
            None => CPUGroup::default(),
        };
        let memory = match newest(&self.memory_store, now) {
            Some(memory) => memory,
            None => SystemMemory::default(),
        };
        let disks = match newest(&self.disk_store, now) {
            Some(disks) => disks,
            None => DiskGroup::default(),
        };
        let network = match newest(&self.network_store, now) {
            Some(network) => network,
            None => NetworkInterfaceGroup::default(),
        };
        MonitorOutput::new().with_processes(processes).with_cpu(cpu).with_memory(memory).with_disks(
            disks,
        ).with_networks(network)
    }
}

/// How a round with the scoring service ended.
#[derive(Debug, Clone, Copy, PartialEq, Eq, Structural)]
pub enum TickOutcome {
    /// There was no process sample to ask about.
    Skipped,
    /// The answer was read and this many scores were stored.
    Stored(usize),
    /// The round failed and nothing was stored.
    Failed(ScoringError),
}

/// Seconds to wait, beyond the interval, before the next round.
pub open spec fn pause(outcome: TickOutcome) -> u64 {
    match outcome {
        TickOutcome::Failed(_) => ANALYSIS_RETRY_DELAY_SECONDS,
        _ => 0,
    }
}

/// Seconds to wait, beyond the interval, before the next round: a fixed
/// delay after a failure, none otherwise. A failure never ends the rounds.
pub fn pause_after(outcome: TickOutcome) -> (seconds: u64)
    ensures
        seconds == pause(outcome),
{
    match outcome {
        TickOutcome::Failed(_) => ANALYSIS_RETRY_DELAY_SECONDS,
        _ => 0,
    }
}

impl SystemMonitor {
    /// Groups and tags the reported processes and stores the result as the
    /// newest process sample.
    pub fn record_processes(&mut self, processes: &Vec<ProcessRaw>)
        ensures
            exists|groups: Vec<OsProcessGroup>, stamp: u64, now: nat|
                groups.deep_view() == collected(processes.deep_view())
                    && final(self).process_entries() == #[trigger] put(
                    old(self).process_entries(),
                    metric_key(Collector::Process.kind(), stamp),
                    groups,
                    now,
                ),
            final(self).same_except(old(self), Collector::Process),
    {
        let stamp = stamp_of(wall_clock_millis());
        let now = self.now();
        self.record_processes_at(processes, stamp, now);
        proof {
            let groups = choose|groups: Vec<OsProcessGroup>|
                groups.deep_view() == collected(processes.deep_view()) && self.process_entries()
                    == #[trigger] put(
                    old(self).process_entries(),
                    metric_key(Collector::Process.kind(), stamp),
                    groups,
                    now as nat,
                );
        }
    }

    /// Stores a sample of the cores as the newest.
    pub fn record_cpu(&mut self, cpu: CPUGroup)
        ensures
            exists|stamp: u64, now: nat|
                final(self).cpu_entries() == #[trigger] put(
                    old(self).cpu_entries(),
                    metric_key(Collector::Cpu.kind(), stamp),
                    cpu,
                    now,
                ),
            final(self).same_except(old(self), Collector::Cpu),
    {
        let stamp = stamp_of(wall_clock_millis());
        let now = self.now();
        self.record_cpu_at(cpu, stamp, now);
    }

    /// Stores a sample of the memory figures as the newest.
    pub fn record_memory(&mut self, memory: SystemMemory)
        ensures
            exists|stamp: u64, now: nat|
                final(self).memory_entries() == #[trigger] put(
                    old(self).memory_entries(),
                    metric_key(Collector::Memory.kind(), stamp),
                    memory,
                    now,
                ),
            final(self).same_except(old(self), Collector::Memory),
    {
        let stamp = stamp_of(wall_clock_millis());
        let now = self.now();
        self.record_memory_at(memory, stamp, now);
    }

    /// Stores a sample of the disks as the newest.
    pub fn record_disks(&mut self, disks: DiskGroup)
        ensures
            exists|stamp: u64, now: nat|
                final(self).disk_entries() == #[trigger] put(
                    old(self).disk_entries(),
                    metric_key(Collector::Disk.kind(), stamp),
                    disks,
                    now,
                ),
            final(self).same_except(old(self), Collector::Disk),
    {
        let stamp = stamp_of(wall_clock_millis());
        let now = self.now();
        self.record_disks_at(disks, stamp, now);
    }

    /// Stores a sample of the network interfaces as the newest.
    pub fn record_network(&mut self, network: NetworkInterfaceGroup)
        ensures
            exists|stamp: u64, now: nat|
                final(self).network_entries() == #[trigger] put(
                    old(self).network_entries(),
                    metric_key(Collector::Network.kind(), stamp),
                    network,
                    now,
                ),
            final(self).same_except(old(self), Collector::Network),
    {
        let stamp = stamp_of(wall_clock_millis());
        let now = self.now();
        self.record_network_at(network, stamp, now);
    }

    /// The snapshot as of now. Always succeeds: what was never sampled, or
    /// has expired, is shown as nothing.
    pub fn get_latest_snapshot(&self) -> (output: MonitorOutput)
        ensures
            exists|now: nat| output@ == #[trigger] self.snapshot(now),
    {
        let now = self.now();
        self.get_latest_snapshot_at(now)
    }

    /// What a round with the scoring service asks about at the clock
    /// reading `now`: the pid and name of the parent of every group of the
    /// newest live process sample, and nothing where there is no such
    /// sample.
    pub open spec fn asked(&self, now: nat) -> Option<Seq<NameModel>> {
        match latest(self.process_entries(), self.ttl(Collector::Process), now) {
            Some(groups) => Some(groups.deep_view().map_values(|group: GroupModel| name_of(group))),
            None => None,
        }
    }

    /// What a round with the scoring service asks about at the clock
    /// reading `now`. Where this is nothing the round is skipped.
    pub fn analysis_names_at(&self, now: u128) -> (names: Option<Vec<OllamaNameInput>>)
        ensures
            match names {
                Some(sent) => self.asked(now as nat) == Some(sent.deep_view()),
                None => self.asked(now as nat) is None,
            },
    {
        match newest(&self.process_store, now) {
            Some(groups) => {
                let names = project_names(&groups);
                Some(names)
            },
            None => None,
        }
    }

    /// What a round with the scoring service asks about as of now.
    pub fn analysis_names(&self) -> (names: Option<Vec<OllamaNameInput>>)
        ensures
            exists|now: nat|
                match names {
                    Some(sent) => #[trigger] self.asked(now) == Some(sent.deep_view()),
                    None => self.asked(now) is None,
                },
    {
        let now = self.now();
        self.analysis_names_at(now)
    }

    /// Ends a round with the scoring service that asked about `sent`.
    /// `reply` is the text that the model wrote, or the failure of the
    /// request. The scores that the answer comes to are stored, each in
    /// place of what was kept for its pid. After a failure nothing that is
    /// stored has changed.
    pub fn conclude_analysis(
        &mut self,
        sent: &Vec<OllamaNameInput>,
        reply: Result<String, ScoringError>,
    ) -> (outcome: TickOutcome)
        ensures
            final(self).same_samples(old(self)),
            match reply {
                Err(error) => outcome == TickOutcome::Failed(error) && final(self).analyses()
                    == old(self).analyses(),
                Ok(text) => match response_outcome(text@, sent.deep_view()) {
                    Ok(scores) => outcome == TickOutcome::Stored(scores.len() as usize)
                        && final(self).analyses() == updated(old(self).analyses(), scores),
                    Err(error) => outcome == TickOutcome::Failed(error) && final(self).analyses()
                        == old(self).analyses(),
                },
            },
    {
        match reply {
            Err(error) => TickOutcome::Failed(error),
            Ok(text) => match scores_from_response(text.as_str(), sent) {
                Ok(scores) => {
                    let stored = scores.len();
                    self.analysis_store.update(scores);
                    TickOutcome::Stored(stored)
                },
                Err(error) => TickOutcome::Failed(error),
            },
        }
    }
}

/// Two snapshots at the same clock reading, with nothing stored in
/// between, are the same.
pub proof fn lemma_snapshot_repeats(
    monitor: SystemMonitor,
    now: nat,
    first: MonitorOutput,
    second: MonitorOutput,
)
    requires
        first@ == monitor.snapshot(now),
        second@ == monitor.snapshot(now),
    ensures
        first@ == second@,
{
}

} // verus!
