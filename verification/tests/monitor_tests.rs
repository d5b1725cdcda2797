use odin::configuration::{CollectorIntervals, MonitorSettings, Settings};
use odin::monitor::{
    mint_key, pause_after, stamp_of, AnalysisStore, Collector, MetricStore, MonitorOutput,
    SystemMonitor, TickOutcome,
};
use odin::ollama::{OllamaNameInput, ProcessScore, ScoringError};
use odin::os_tooling::cpu::{CPUGroup, CPUResource};
use odin::os_tooling::disk::{DiskGroup, DiskResource};
use odin::os_tooling::memory::SystemMemory;
use odin::os_tooling::network::{NetworkInterface, NetworkInterfaceGroup};
use odin::os_tooling::{MetadataTags, OsProcessGroup, ProcessRaw};
use std::time::{Duration, Instant};

const SECOND: u128 = 1_000_000_000;

fn raw(pid: u32, parent: Option<u32>, cpu: u32) -> ProcessRaw {
    ProcessRaw {
        pid,
        parent,
        cpu,
        memory: 64 * 1024 * 1024,
        run_time: 1,
        name: Some(format!("p{}", pid)),
        status: "Run".to_string(),
        command: vec![],
        user_id: None,
    }
}

fn cpu(usage: u32) -> CPUGroup {
    CPUGroup {
        cpus: vec![CPUResource { name: "cpu0".to_string(), brand: "b".to_string(), frequency: 2400, usage }],
    }
}

fn score(pid: u32, score: u8, reason: &str) -> ProcessScore {
    ProcessScore { pid, name: format!("p{}", pid), score, reason: reason.to_string() }
}

fn attribute(group: &OsProcessGroup, tag: MetadataTags) -> Option<String> {
    group.parent_process.attributes.get(&tag).cloned()
}

#[test]
fn test_metric_store_basic_operations() {
    let mut store = MetricStore::<i32>::new(10); // 10 second TTL

    // Test storing and retrieving
    store.store("test_metric", 42);
    let recent = store.get_recent(1);
    assert_eq!(recent.len(), 1);
    assert_eq!(recent[0], 42);
}

#[test]
fn test_metric_store_ttl() {
    let mut store = MetricStore::<String>::new(1); // 1 second TTL

    store.store("test_metric", "data".to_string());
    let start = Instant::now();
    while start.elapsed() < Duration::from_secs(2) {
        std::hint::spin_loop();
    }

    let recent = store.get_recent(1);
    assert_eq!(recent.len(), 0, "Store should be empty after TTL");
}

#[test]
fn test_monitor_output_builder() {
    let processes = vec![OsProcessGroup::default()];
    let cpu = CPUGroup::default();
    let memory = SystemMemory::default();
    let disks = DiskGroup::default();
    let network = NetworkInterfaceGroup::default();

    let output = MonitorOutput::new()
        .with_processes(processes.clone())
        .with_cpu(cpu.clone())
        .with_memory(memory.clone())
        .with_disks(disks.clone())
        .with_networks(network.clone());

    assert_eq!(output.processes, processes);
    assert_eq!(output.cpu, cpu);
    assert_eq!(output.memory, memory);
    assert_eq!(output.disks, disks);
    assert_eq!(output.network, network);
}

#[test]
fn test_system_monitor_snapshot() {
    let settings = Settings::default();
    let mut monitor = SystemMonitor::new(settings);
    monitor.record_processes(&vec![raw(1, None, 100), raw(2, Some(1), 100)]);
    monitor.record_memory(SystemMemory { total_memory: 16, used_memory: 8, total_swap: 0, used_swap: 0 });
    monitor.record_disks(DiskGroup {
        disks: vec![DiskResource { total: 10, used: 5, available: 5, usage: 5000 }],
    });

    // Get initial snapshot
    let snapshot = monitor.get_latest_snapshot();

    // Basic sanity checks
    assert!(!snapshot.processes.is_empty(), "Should have some processes");
    assert!(snapshot.memory.total_memory > 0, "Should have non-zero total memory");
    assert!(!snapshot.disks.disks.is_empty(), "Should have some disk info");
}

#[test]
fn test_monitor_continuous_updates() {
    let settings = Settings::default();
    let mut monitor = SystemMonitor::new(settings);

    monitor.record_cpu_at(cpu(1000), 1, 0);
    let snapshot1 = monitor.get_latest_snapshot_at(0);
    monitor.record_cpu_at(cpu(2000), 2, 2 * SECOND);
    let snapshot2 = monitor.get_latest_snapshot_at(2 * SECOND);

    assert_ne!(snapshot1.cpu, snapshot2.cpu, "CPU metrics should update");
    assert_eq!(snapshot2.cpu, cpu(2000));
}

#[test]
fn fresh_monitor_shows_nothing() {
    let monitor = SystemMonitor::new(Settings::default());
    assert_eq!(monitor.get_latest_snapshot_at(0), MonitorOutput::default());
    assert_eq!(monitor.get_latest_snapshot(), MonitorOutput::new());
    assert_eq!(monitor.analysis_names_at(0), None);
    assert_eq!(monitor.analysis_names(), None);
    assert_eq!(monitor.settings(), &Settings::default());
}

#[test]
fn snapshot_twice_is_the_same() {
    let mut monitor = SystemMonitor::new(Settings::default());
    monitor.record_processes_at(&vec![raw(1, None, 7000), raw(2, Some(1), 100)], 5, SECOND);
    monitor.record_cpu_at(cpu(1), 5, SECOND);
    monitor.record_network_at(
        NetworkInterfaceGroup {
            interfaces: vec![NetworkInterface {
                name: "eth0".to_string(),
                received: 1,
                transmitted: 2,
                mac_address: "00:00".to_string(),
                packets_received: 3,
                packets_transmitted: 4,
            }],
        },
        5,
        SECOND,
    );
    let first = monitor.get_latest_snapshot_at(2 * SECOND);
    let second = monitor.get_latest_snapshot_at(2 * SECOND);
    assert_eq!(first, second);
    assert_eq!(first.network.interfaces.len(), 1);
}

#[test]
fn snapshot_takes_newest_live_sample_of_each_kind() {
    let mut monitor = SystemMonitor::new(Settings::default());
    // written out of order: the stamp decides which is newest
    monitor.record_cpu_at(cpu(3), 3000, 0);
    monitor.record_cpu_at(cpu(1), 1000, 0);
    monitor.record_cpu_at(cpu(2), 2000, 0);
    assert_eq!(monitor.get_latest_snapshot_at(10 * SECOND).cpu, cpu(3));
    // cpu samples live 10 s, disk samples 300 s
    monitor.record_disks_at(DiskGroup { disks: vec![DiskResource::default()] }, 1, 0);
    let late = monitor.get_latest_snapshot_at(10 * SECOND + 1);
    assert_eq!(late.cpu, CPUGroup::default());
    assert_eq!(late.disks.disks.len(), 1);
    assert_eq!(monitor.get_latest_snapshot_at(300 * SECOND + 1).disks, DiskGroup::default());
    // an expired newest sample does not hide an older live one
    monitor.record_memory_at(SystemMemory { total_memory: 1, used_memory: 0, total_swap: 0, used_swap: 0 }, 9, 0);
    monitor.record_memory_at(SystemMemory { total_memory: 2, used_memory: 0, total_swap: 0, used_swap: 0 }, 8, 5 * SECOND);
    assert_eq!(monitor.get_latest_snapshot_at(12 * SECOND).memory.total_memory, 2);
}

#[test]
fn processes_are_stored_grouped_and_tagged() {
    let mut monitor = SystemMonitor::new(Settings::default());
    monitor.record_processes_at(&vec![raw(1, None, 7500), raw(2, Some(1), 1000), raw(3, None, 0)], 1, 0);
    let snapshot = monitor.get_latest_snapshot_at(30 * SECOND);
    assert_eq!(snapshot.processes.len(), 2);
    let first = &snapshot.processes[0];
    assert_eq!(first.parent_process.pid, 1);
    assert_eq!(first.forked_threads.len(), 1);
    assert_eq!(attribute(first, MetadataTags::HighCpu), Some("75".to_string()));
    assert_eq!(attribute(first, MetadataTags::TotalCpu), Some("85".to_string()));
    assert_eq!(attribute(first, MetadataTags::TotalMemory), Some("128".to_string()));
    assert_eq!(attribute(first, MetadataTags::ThreatScore), None);
    assert_eq!(
        first.forked_threads[0].attributes.get(&MetadataTags::CpuUsage),
        Some(&"10".to_string())
    );
    assert!(monitor.get_latest_snapshot_at(30 * SECOND + 1).processes.is_empty());
}

#[test]
fn scores_are_merged_on_read_only() {
    let mut monitor = SystemMonitor::new(Settings::default());
    monitor.record_processes_at(&vec![raw(1, None, 0), raw(2, Some(1), 0), raw(3, None, 0)], 1, 0);
    let sent = monitor.analysis_names_at(0).unwrap();
    assert_eq!(
        sent,
        vec![
            OllamaNameInput { pid: 1, name: "p1".to_string() },
            OllamaNameInput { pid: 3, name: "p3".to_string() }
        ]
    );
    let reply = r#"[{"pid":3,"name":"p3","score":88,"reason":"number substitution"},
                    {"pid":2,"name":"p2","score":99,"reason":"not asked"},
                    {"pid":1,"name":"p1","score":5,"reason":"fine"}]..."#;
    let outcome = monitor.conclude_analysis(&sent, Ok(reply.to_string()));
    assert_eq!(outcome, TickOutcome::Stored(1));
    let snapshot = monitor.get_latest_snapshot_at(SECOND);
    assert_eq!(attribute(&snapshot.processes[0], MetadataTags::ThreatScore), None);
    assert_eq!(attribute(&snapshot.processes[1], MetadataTags::ThreatScore), Some("88".to_string()));
    assert_eq!(
        attribute(&snapshot.processes[1], MetadataTags::ThreatScoreReason),
        Some("number substitution".to_string())
    );
    assert!(!snapshot.processes[0].forked_threads[0].attributes.contains_key(&MetadataTags::ThreatScore));
    // a later sample of the same process gains the kept score too
    monitor.record_processes_at(&vec![raw(3, None, 0)], 2, SECOND);
    let later = monitor.get_latest_snapshot_at(SECOND);
    assert_eq!(later.processes.len(), 1);
    assert_eq!(attribute(&later.processes[0], MetadataTags::ThreatScore), Some("88".to_string()));
}

#[test]
fn failed_round_stores_nothing_and_is_retried_after_a_delay() {
    let mut monitor = SystemMonitor::new(Settings::default());
    monitor.record_processes_at(&vec![raw(1, None, 0)], 1, 0);
    let sent = monitor.analysis_names_at(0).unwrap();
    let failed = monitor.conclude_analysis(&sent, Err(ScoringError::RequestFailed));
    assert_eq!(failed, TickOutcome::Failed(ScoringError::RequestFailed));
    let garbled = monitor.conclude_analysis(&sent, Ok("I cannot help with that".to_string()));
    assert_eq!(garbled, TickOutcome::Failed(ScoringError::MalformedResponse));
    assert_eq!(attribute(&monitor.get_latest_snapshot_at(0).processes[0], MetadataTags::ThreatScore), None);
    assert_eq!(pause_after(failed), 5);
    assert_eq!(pause_after(garbled), 5);
    assert_eq!(pause_after(TickOutcome::Stored(3)), 0);
    assert_eq!(pause_after(TickOutcome::Skipped), 0);
}

#[test]
fn analysis_store_keeps_the_latest_score_per_pid() {
    let mut store = AnalysisStore::new();
    assert_eq!(store.get_analysis(1), None);
    store.update(vec![score(1, 70, "a"), score(2, 80, "b"), score(1, 90, "c")]);
    let kept = store.get_analysis(1).unwrap();
    assert_eq!((kept.name.as_str(), kept.score, kept.reason.as_str()), ("p1", 90, "c"));
    assert_eq!(store.get_analysis(2).unwrap().score, 80);
    store.update(vec![score(2, 61, "d")]);
    assert_eq!(store.get_analysis(2).unwrap().reason, "d");
    assert_eq!(store.get_analysis(1).unwrap().score, 90);
    assert_eq!(store.get_analysis(3), None);
}

#[test]
fn keys_are_fixed_width_and_sort_like_stamps() {
    assert_eq!(mint_key("cpu", 0), "cpu_00000000000000000000");
    assert_eq!(mint_key("process", 1730000000123), "process_00000001730000000123");
    assert_eq!(mint_key("", u64::MAX), "_18446744073709551615");
    let stamps = [0u64, 1, 9, 10, 99, 100, 999_999, 1_000_000, u64::MAX - 1, u64::MAX];
    for a in stamps {
        for b in stamps {
            assert_eq!(mint_key("disk", a) < mint_key("disk", b), a < b);
        }
    }
    assert_eq!(stamp_of(-5), 0);
    assert_eq!(stamp_of(0), 0);
    assert_eq!(stamp_of(i64::MAX), i64::MAX as u64);
}

#[test]
fn metric_store_returns_newest_first() {
    let mut store = MetricStore::<u32>::new(10);
    store.store_at("m", 1, 100, 0);
    store.store_at("m", 3, 300, 0);
    store.store_at("m", 2, 200, 5 * SECOND);
    store.store_at("m", 4, 300, SECOND); // same stamp: overwrites
    assert_eq!(store.get_recent_at(10, 5 * SECOND), vec![4, 2, 1]);
    assert_eq!(store.get_recent_at(2, 5 * SECOND), vec![4, 2]);
    assert_eq!(store.get_recent_at(10, 11 * SECOND), vec![4, 2]);
    assert_eq!(store.get_recent_at(10, 12 * SECOND), vec![2]);
    assert_eq!(store.get_recent_at(0, 0), Vec::<u32>::new());
}

#[test]
fn collectors_have_fixed_schedules() {
    let expected = [
        (Collector::Process, 5, 30, "process"),
        (Collector::Cpu, 2, 10, "cpu"),
        (Collector::Memory, 10, 10, "memory"),
        (Collector::Disk, 10, 300, "disk"),
        (Collector::Network, 10, 10, "network"),
    ];
    for (collector, interval, ttl, name) in expected {
        assert_eq!(collector.interval_seconds(), interval);
        assert_eq!(collector.ttl_seconds(), ttl);
        assert_eq!(collector.metric_type(), name);
    }
}

#[test]
fn stored_samples_are_keyed_by_kind_and_wall_clock() {
    let mut store = MetricStore::<u8>::new(10);
    store.store("cpu", 1);
    let keys = store.keys();
    assert_eq!(keys.len(), 1);
    let (kind, stamp) = keys[0].split_at(4);
    assert_eq!(kind, "cpu_");
    assert_eq!(stamp.len(), 20);
    let millis: u64 = stamp.parse().unwrap();
    // later than the start of 2020 and earlier than the year 2200
    assert!(millis > 1_577_836_800_000);
    assert!(millis < 7_258_118_400_000);
    assert!(store.now() < 60 * SECOND);
}

#[test]
fn configured_intervals_take_the_place_of_the_defaults() {
    let settings = Settings {
        monitor: MonitorSettings {
            ollama_url: "http://localhost:11434".to_string(),
            model: "m".to_string(),
            context_size: 2048,
            analysis_enabled: true,
            intervals: CollectorIntervals {
                process: Some(60),
                cpu: Some(0),
                memory: None,
                disk: Some(1),
                network: Some(u64::MAX),
            },
        },
    };
    assert_eq!(Collector::Process.interval_for(&settings), 60);
    assert_eq!(Collector::Cpu.interval_for(&settings), 2);
    assert_eq!(Collector::Memory.interval_for(&settings), 10);
    assert_eq!(Collector::Disk.interval_for(&settings), 1);
    assert_eq!(Collector::Network.interval_for(&settings), u64::MAX);
    assert_eq!(Collector::Process.interval_for(&Settings::default()), 5);
    let copy = settings.clone();
    assert_eq!(copy, settings);
    assert_eq!(SystemMonitor::new(copy).settings(), &settings);
}
