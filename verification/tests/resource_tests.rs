use odin::os_tooling::cpu::{CPUGroup, CPUResource};
use odin::os_tooling::disk::{get_disk_usage, DiskGroup, DiskRaw, DiskResource};
use odin::os_tooling::memory::{get_system_memory, SystemMemory};
use odin::os_tooling::network::{NetworkInterface, NetworkInterfaceGroup};
use odin::os_tooling::{
    AttributeMap, MetadataTags, OsProcessGroup, OsProcessInformation, SystemInformation,
};

#[test]
fn memory_is_given_in_whole_megabytes() {
    let memory = get_system_memory(8 * 1024 * 1024 * 1024, 3 * 1024 * 1024 + 5, 1024 * 1024 - 1, 0);
    assert_eq!(
        memory,
        SystemMemory { total_memory: 8192, used_memory: 3, total_swap: 0, used_swap: 0 }
    );
    assert_eq!(get_system_memory(u64::MAX, 0, 0, 0).total_memory, 17592186044415);
}

#[test]
fn disk_usage_is_computed_from_space() {
    let group = get_disk_usage(&vec![
        DiskRaw { total_space: 1000, available_space: 250 },
        DiskRaw { total_space: 0, available_space: 0 },
        DiskRaw { total_space: 3, available_space: 2 },
        DiskRaw { total_space: 10, available_space: 20 },
        DiskRaw { total_space: u64::MAX, available_space: 0 },
    ]);
    assert_eq!(
        group.disks,
        vec![
            DiskResource { total: 1000, used: 750, available: 250, usage: 7500 },
            DiskResource { total: 0, used: 0, available: 0, usage: 0 },
            DiskResource { total: 3, used: 1, available: 2, usage: 3333 },
            DiskResource { total: 10, used: 0, available: 20, usage: 0 },
            DiskResource { total: u64::MAX, used: u64::MAX, available: 0, usage: 10000 },
        ]
    );
    assert_eq!(get_disk_usage(&Vec::new()), DiskGroup::default());
}

#[test]
fn attribute_map_holds_one_text_per_tag() {
    let mut attributes = AttributeMap::new();
    assert_eq!(attributes.get(&MetadataTags::HighCpu), None);
    attributes.insert(MetadataTags::HighCpu, "75".to_string());
    attributes.insert(MetadataTags::ThreatScoreReason, "r".to_string());
    attributes.insert(MetadataTags::HighCpu, "80".to_string());
    assert_eq!(attributes.get(&MetadataTags::HighCpu), Some(&"80".to_string()));
    assert!(attributes.contains_key(&MetadataTags::ThreatScoreReason));
    assert!(!attributes.contains_key(&MetadataTags::ThreatScore));
    let copy = attributes.clone();
    attributes.remove(&MetadataTags::HighCpu);
    attributes.remove(&MetadataTags::TotalCpu);
    assert_eq!(attributes.get(&MetadataTags::HighCpu), None);
    assert_eq!(copy.get(&MetadataTags::HighCpu), Some(&"80".to_string()));
    assert_eq!(AttributeMap::default(), AttributeMap::new());
}

#[test]
fn system_information_is_described_line_by_line() {
    let machine = SystemInformation {
        name: "Linux".to_string(),
        os_version: "6.1".to_string(),
        host_name: "box".to_string(),
        uptime: 3600,
        total_cpus: 8,
        total_memory: 16384,
        cpu_arch: "x86_64".to_string(),
    };
    assert_eq!(
        machine.describe(),
        "Name Linux \n \n            Os Version 6.1 \n\n            Hostname box \n\n            uptime 3600 \n\n            total cpus 8 \n\n            total memory 16384 \n\n            cpu arch x86_64 \n"
    );
}

#[test]
fn attribute_entries_come_in_the_order_of_the_tags() {
    let mut attributes = AttributeMap::new();
    assert!(attributes.entries().is_empty());
    attributes.insert(MetadataTags::ThreatScoreReason, "why".to_string());
    attributes.insert(MetadataTags::TotalCpu, "1".to_string());
    attributes.insert(MetadataTags::HighMemory, "9000".to_string());
    attributes.insert(MetadataTags::TotalCpu, "2".to_string());
    assert_eq!(
        attributes.entries(),
        vec![
            (MetadataTags::TotalCpu, "2".to_string()),
            (MetadataTags::HighMemory, "9000".to_string()),
            (MetadataTags::ThreatScoreReason, "why".to_string()),
        ]
    );
}

#[test]
fn every_tag_is_listed_once_with_its_name() {
    let tags = MetadataTags::all();
    let names: Vec<&str> = tags.iter().map(|tag| tag.name()).collect();
    assert_eq!(
        names,
        vec![
            "TotalCpu",
            "TotalMemory",
            "TotalFileDescriptors",
            "CpuUsage",
            "HighCpu",
            "HighMemory",
            "MemoryUsage",
            "ThreatScore",
            "ThreatScoreReason"
        ]
    );
    for tag in tags {
        assert_eq!(format!("{:?}", tag), tag.name());
    }
}

#[test]
fn defaults_are_empty() {
    assert!(CPUGroup::default().cpus.is_empty());
    assert_eq!(
        CPUResource::default(),
        CPUResource { name: String::new(), brand: String::new(), frequency: 0, usage: 0 }
    );
    assert!(NetworkInterfaceGroup::default().interfaces.is_empty());
    assert_eq!(NetworkInterface::default().packets_received, 0);
    assert_eq!(DiskResource::default(), DiskResource { total: 0, used: 0, available: 0, usage: 0 });
    assert_eq!(SystemMemory::default().total_memory, 0);
    let blank = OsProcessInformation::default();
    assert_eq!((blank.pid, blank.name.as_str(), blank.command.len()), (0, "", 0));
    assert!(blank.attributes.entries().is_empty());
    let group = OsProcessGroup::default();
    assert_eq!(group.parent_process, blank);
    assert!(group.forked_threads.is_empty());
    assert_eq!(group.clone(), group);
}
