use odin::os_tooling::process::{percent_text, ProcessAttribute};
use odin::os_tooling::{
    is_process_alive, MetadataTags, OsProcessGroup, OsProcessInformation, ProcessConversionError,
    ProcessRaw, ResourceUsageAttribute, SystemScanner,
};

fn raw(pid: u32, parent: Option<u32>, status: &str) -> ProcessRaw {
    ProcessRaw {
        pid,
        parent,
        cpu: 0,
        memory: 0,
        run_time: 1,
        name: Some(format!("p{}", pid)),
        status: status.to_string(),
        command: vec![Some(format!("/bin/p{}", pid))],
        user_id: Some("1000".to_string()),
    }
}

fn sample(pid: u32, cpu: u32, memory_usage: u64, fd_count: u64) -> OsProcessInformation {
    let mut process = OsProcessInformation::try_from(&raw(pid, None, "Run")).unwrap();
    process.cpu = cpu;
    process.memory_usage = memory_usage;
    process.fd_count = fd_count;
    process
}

fn attribute(process: &OsProcessInformation, tag: MetadataTags) -> Option<String> {
    process.attributes.get(&tag).cloned()
}

fn group_of(groups: &[OsProcessGroup], pid: u32) -> Option<&OsProcessGroup> {
    groups.iter().find(|g| g.parent_process.pid == pid)
}

fn child_pids(group: &OsProcessGroup) -> Vec<u32> {
    group.forked_threads.iter().map(|c| c.pid).collect()
}

#[test]
fn parent_with_two_children_is_one_group() {
    let table = vec![raw(100, None, "Run"), raw(101, Some(100), "Sleep"), raw(102, Some(100), "Run")];
    let groups = SystemScanner::new().scan_running_proccess(&table);
    assert_eq!(groups.len(), 1);
    assert_eq!(groups[0].parent_process.pid, 100);
    assert_eq!(child_pids(&groups[0]), vec![101, 102]);
}

#[test]
fn children_reported_before_their_parent_join_its_group() {
    let table = vec![raw(101, Some(100), "Run"), raw(100, None, "Run"), raw(102, Some(100), "Run")];
    let groups = SystemScanner::new().scan_running_proccess(&table);
    assert_eq!(groups.len(), 1);
    assert_eq!(groups[0].parent_process.pid, 100);
    assert_eq!(groups[0].parent_process.name, "p100");
    assert_eq!(child_pids(&groups[0]), vec![101, 102]);
}

#[test]
fn a_child_that_is_a_parent_has_a_group_of_its_own() {
    // 1 <- 2 <- 3
    let table = vec![raw(1, None, "Run"), raw(2, Some(1), "Run"), raw(3, Some(2), "Run")];
    let groups = SystemScanner::new().scan_running_proccess(&table);
    assert_eq!(groups.len(), 2);
    assert_eq!(child_pids(group_of(&groups, 1).unwrap()), vec![2]);
    assert_eq!(child_pids(group_of(&groups, 2).unwrap()), vec![3]);
}

#[test]
fn dead_process_is_absent() {
    let table = vec![
        raw(1, None, "Run"),
        raw(200, Some(1), "dead"),
        raw(201, Some(1), "Dead"),
        raw(202, None, "Idle"),
        raw(203, Some(1), "idle"),
        raw(204, Some(1), "Zombie"),
    ];
    let groups = SystemScanner::new().scan_running_proccess(&table);
    assert_eq!(groups.len(), 1);
    assert_eq!(groups[0].parent_process.pid, 1);
    assert_eq!(child_pids(&groups[0]), vec![204]);
}

#[test]
fn child_of_dead_or_missing_parent_is_dropped() {
    let table = vec![raw(10, None, "Dead"), raw(11, Some(10), "Run"), raw(12, Some(999), "Run"), raw(13, None, "Run")];
    let groups = SystemScanner::new().scan_running_proccess(&table);
    assert_eq!(groups.len(), 1);
    assert_eq!(groups[0].parent_process.pid, 13);
    assert!(groups[0].forked_threads.is_empty());
}

#[test]
fn unreadable_process_is_left_out_and_the_scan_goes_on() {
    let mut nameless = raw(5, None, "Run");
    nameless.name = None;
    let mut garbled = raw(6, Some(7), "Run");
    garbled.command = vec![Some("ok".to_string()), None];
    let table = vec![nameless, garbled, raw(7, None, "Run"), raw(8, Some(7), "Run")];
    let groups = SystemScanner::new().scan_running_proccess(&table);
    assert_eq!(groups.len(), 1);
    assert_eq!(groups[0].parent_process.pid, 7);
    assert_eq!(child_pids(&groups[0]), vec![8]);
}

#[test]
fn empty_table_gives_no_groups() {
    assert!(SystemScanner::new().scan_running_proccess(&Vec::new()).is_empty());
}

#[test]
fn test_process_scanning() {
    let test_runner_pid = 4242;
    let mut table = vec![raw(1, None, "Sleep"), raw(test_runner_pid, Some(1), "Run")];
    for pid in 5000..5004 {
        table.push(raw(pid, Some(test_runner_pid), "Sleep"));
    }
    let processes_found = SystemScanner::new().scan_running_proccess(&table);
    let mut seen = false;
    for p in processes_found {
        if p.parent_process.pid == test_runner_pid {
            seen = true;
            assert_eq!(p.forked_threads.len(), 4)
        }
    }
    assert!(seen);
}

#[test]
fn conversion_takes_fields_over() {
    let mut reported = raw(9, Some(1), "Run");
    reported.cpu = 1234;
    reported.memory = 5 * 1024 * 1024 + 17;
    reported.run_time = 77;
    reported.user_id = None;
    reported.command = vec![Some("a".to_string()), Some("-b".to_string())];
    let process = OsProcessInformation::try_from(&reported).unwrap();
    assert_eq!(process.pid, 9);
    assert_eq!(process.cpu, 1234);
    assert_eq!(process.memory_usage, 5);
    assert_eq!(process.run_time, 77);
    assert_eq!(process.name, "p9");
    assert_eq!(process.status, "Run");
    assert_eq!(process.command, vec!["a".to_string(), "-b".to_string()]);
    assert_eq!(process.user_id, "");
    assert_eq!(process.fd_count, 0);
    for tag in [MetadataTags::TotalCpu, MetadataTags::HighCpu, MetadataTags::ThreatScore] {
        assert!(!process.attributes.contains_key(&tag));
    }
}

#[test]
fn conversion_errors() {
    let mut nameless = raw(5, None, "Run");
    nameless.name = None;
    nameless.command = vec![None];
    assert_eq!(OsProcessInformation::try_from(&nameless), Err(ProcessConversionError::NameError));
    let mut garbled = raw(6, None, "Run");
    garbled.command = vec![Some("x".to_string()), None, Some("y".to_string())];
    assert_eq!(
        OsProcessInformation::try_from(&garbled),
        Err(ProcessConversionError::CommandConversionError)
    );
    assert_eq!(ProcessConversionError::NameError.message(), "Failed to get process name");
    assert_eq!(ProcessConversionError::PathError.message(), "Failed to get process path");
    assert_eq!(ProcessConversionError::InvalidState.message(), "Invalid process state");
    assert_eq!(
        ProcessConversionError::CommandConversionError.message(),
        "Failed to convert command string"
    );
}

#[test]
fn alive_unless_dead_or_idle() {
    for (status, expected) in [("Run", true), ("Sleep", true), ("Dead", false), ("Idle", false), ("dead", false), ("idle", false), ("", true), ("Deadly", true)] {
        let process = OsProcessInformation::try_from(&raw(1, None, status)).unwrap();
        assert_eq!(is_process_alive(&process), expected, "{}", status);
    }
}

#[test]
fn resource_usage_tag_marks_high_cpu() {
    let rule = ResourceUsageAttribute::new(6000, 7200);
    let mut busy = sample(1, 7500, 100, 0);
    rule.tag(&mut busy);
    assert_eq!(attribute(&busy, MetadataTags::HighCpu), Some("75".to_string()));
    assert_eq!(attribute(&busy, MetadataTags::CpuUsage), None);
    assert_eq!(attribute(&busy, MetadataTags::MemoryUsage), Some("100".to_string()));
    assert_eq!(attribute(&busy, MetadataTags::HighMemory), None);

    let mut calm = sample(2, 1000, 8000, 0);
    rule.tag(&mut calm);
    assert_eq!(attribute(&calm, MetadataTags::CpuUsage), Some("10".to_string()));
    assert_eq!(attribute(&calm, MetadataTags::HighCpu), None);
    assert_eq!(attribute(&calm, MetadataTags::HighMemory), Some("8000".to_string()));
    assert_eq!(attribute(&calm, MetadataTags::MemoryUsage), None);
}

#[test]
fn resource_usage_tag_at_the_thresholds() {
    let rule = ResourceUsageAttribute::new(6000, 7200);
    let mut edge = sample(1, 6000, 7200, 0);
    rule.tag(&mut edge);
    assert_eq!(attribute(&edge, MetadataTags::CpuUsage), Some("60".to_string()));
    assert_eq!(attribute(&edge, MetadataTags::MemoryUsage), Some("7200".to_string()));
    let mut above = sample(1, 6001, 7201, 0);
    rule.tag(&mut above);
    assert_eq!(attribute(&above, MetadataTags::HighCpu), Some("60.01".to_string()));
    assert_eq!(attribute(&above, MetadataTags::HighMemory), Some("7201".to_string()));
}

#[test]
fn retagging_keeps_marks_exclusive_and_untag_takes_high_marks_back() {
    let rule = ResourceUsageAttribute::new(6000, 7200);
    let mut process = sample(1, 7500, 9000, 0);
    rule.tag(&mut process);
    process.cpu = 500;
    process.memory_usage = 10;
    rule.tag(&mut process);
    assert_eq!(attribute(&process, MetadataTags::HighCpu), None);
    assert_eq!(attribute(&process, MetadataTags::CpuUsage), Some("5".to_string()));
    assert_eq!(attribute(&process, MetadataTags::HighMemory), None);
    assert_eq!(attribute(&process, MetadataTags::MemoryUsage), Some("10".to_string()));
    process.cpu = 9000;
    rule.tag(&mut process);
    rule.untag(&mut process);
    assert_eq!(attribute(&process, MetadataTags::HighCpu), None);
    assert_eq!(attribute(&process, MetadataTags::CpuUsage), None);
    assert_eq!(attribute(&process, MetadataTags::MemoryUsage), Some("10".to_string()));
}

#[test]
fn percent_text_trims_zeros() {
    assert_eq!(percent_text(0), "0");
    assert_eq!(percent_text(5), "0.05");
    assert_eq!(percent_text(50), "0.5");
    assert_eq!(percent_text(1050), "10.5");
    assert_eq!(percent_text(1055), "10.55");
    assert_eq!(percent_text(7500), "75");
    assert_eq!(percent_text(123456), "1234.56");
}

#[test]
fn totals_are_written_on_the_parent_only() {
    let mut groups = vec![OsProcessGroup {
        parent_process: sample(1, 1000, 100, 3),
        forked_threads: vec![sample(2, 7050, 8000, 4), sample(3, 25, 1, 5)],
    }];
    SystemScanner::new().apply_attributes(&mut groups);
    let parent = &groups[0].parent_process;
    assert_eq!(attribute(parent, MetadataTags::TotalCpu), Some("80.75".to_string()));
    assert_eq!(attribute(parent, MetadataTags::TotalMemory), Some("8101".to_string()));
    assert_eq!(attribute(parent, MetadataTags::TotalFileDescriptors), Some("12".to_string()));
    assert_eq!(attribute(parent, MetadataTags::CpuUsage), Some("10".to_string()));
    let first = &groups[0].forked_threads[0];
    assert_eq!(attribute(first, MetadataTags::TotalCpu), None);
    assert_eq!(attribute(first, MetadataTags::TotalMemory), None);
    assert_eq!(attribute(first, MetadataTags::HighCpu), Some("70.5".to_string()));
    assert_eq!(attribute(first, MetadataTags::HighMemory), Some("8000".to_string()));
    let second = &groups[0].forked_threads[1];
    assert_eq!(attribute(second, MetadataTags::CpuUsage), Some("0.25".to_string()));
    assert_eq!(attribute(second, MetadataTags::MemoryUsage), Some("1".to_string()));
}

#[test]
fn totals_do_not_overflow() {
    let mut groups = vec![OsProcessGroup {
        parent_process: sample(1, u32::MAX, u64::MAX, u64::MAX),
        forked_threads: vec![sample(2, u32::MAX, u64::MAX, u64::MAX)],
    }];
    SystemScanner::new().apply_attributes(&mut groups);
    let parent = &groups[0].parent_process;
    assert_eq!(attribute(parent, MetadataTags::TotalMemory), Some("36893488147419103230".to_string()));
    assert_eq!(attribute(parent, MetadataTags::TotalFileDescriptors), Some("36893488147419103230".to_string()));
    assert_eq!(attribute(parent, MetadataTags::TotalCpu), Some("85899345.9".to_string()));
}

#[test]
fn rules_are_applied_in_order() {
    let strict = ResourceUsageAttribute::new(0, 0);
    let lax = ResourceUsageAttribute::new(10_000, 1_000_000);
    let mut groups = vec![OsProcessGroup { parent_process: sample(1, 50, 5, 0), forked_threads: vec![] }];
    SystemScanner::with_rules(vec![strict, lax]).apply_attributes(&mut groups);
    assert_eq!(attribute(&groups[0].parent_process, MetadataTags::CpuUsage), Some("0.5".to_string()));
    assert_eq!(attribute(&groups[0].parent_process, MetadataTags::HighCpu), None);
    let mut again = vec![OsProcessGroup { parent_process: sample(1, 50, 5, 0), forked_threads: vec![] }];
    SystemScanner::with_rules(vec![lax, strict]).apply_attributes(&mut again);
    assert_eq!(attribute(&again[0].parent_process, MetadataTags::HighCpu), Some("0.5".to_string()));
    assert_eq!(attribute(&again[0].parent_process, MetadataTags::CpuUsage), None);
}
