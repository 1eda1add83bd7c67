use mise_tui::data::system::{
    decode_mount_escape, parse_diskstats, parse_diskstats_line, parse_mounts, sector_deltas,
    should_emit_disk, should_refresh_disk_capacity, should_refresh_mem_net, should_refresh_temps,
    top_processes,
};
use mise_tui::data::types::ProcessInfo;

#[test]
fn staggered_intervals_refresh_pattern() {
    // Over 8 ticks: mem/net on ticks 0, 2, 4, 6; temps on ticks 0, 4.
    let mem_ticks: Vec<u64> = (0..8).filter(|&t| should_refresh_mem_net(t)).collect();
    assert_eq!(mem_ticks, vec![0, 2, 4, 6]);

    let temp_ticks: Vec<u64> = (0..8).filter(|&t| should_refresh_temps(t)).collect();
    assert_eq!(temp_ticks, vec![0, 4]);

    // Temps is always a subset of mem/net ticks
    for t in &temp_ticks {
        assert!(mem_ticks.contains(t), "temps tick {t} should also refresh mem/net");
    }
}

#[test]
fn parse_diskstats_valid_line() {
    let line = "   8       1 sda1 32456 0 1234567 0 28123 0 9876543 0 0 0 0 0 0 0 0";
    let result = parse_diskstats_line(line);
    assert!(result.is_some());
    let (dev, read_sectors, write_sectors) = result.unwrap();
    assert_eq!(dev, "sda1");
    assert_eq!(read_sectors, 1234567);
    assert_eq!(write_sectors, 9876543);
}

#[test]
fn parse_diskstats_nvme() {
    let line = " 259       1 nvme0n1p2 100 0 2000 0 200 0 4000 0 0 0 0 0 0 0 0";
    let result = parse_diskstats_line(line);
    assert!(result.is_some());
    let (dev, r, w) = result.unwrap();
    assert_eq!(dev, "nvme0n1p2");
    assert_eq!(r, 2000);
    assert_eq!(w, 4000);
}

#[test]
fn parse_diskstats_malformed_returns_none() {
    assert!(parse_diskstats_line("").is_none());
    assert!(parse_diskstats_line("not a valid line").is_none());
    assert!(parse_diskstats_line("   8       1 sda1").is_none());
}

#[test]
fn parse_diskstats_full_input() {
    let input = "\
   8       0 sda 32456 0 1000 0 28123 0 2000 0 0 0 0 0 0 0 0
   8       1 sda1 100 0 500 0 200 0 1000 0 0 0 0 0 0 0 0
 259       0 nvme0n1 50 0 300 0 60 0 400 0 0 0 0 0 0 0 0";
    let entries = parse_diskstats(input);
    assert_eq!(entries.len(), 3);
    assert_eq!(entries.get("sda").unwrap().0, 1000);
    assert_eq!(entries.get("sda1").unwrap().1, 1000);
    assert_eq!(entries.get("nvme0n1").unwrap().0, 300);
}

#[test]
fn parse_mounts_standard_partition() {
    let input = "/dev/sda1 / ext4 rw,relatime 0 0\n/dev/nvme0n1p2 /home ext4 rw 0 0\n";
    let map = parse_mounts(input);
    assert_eq!(map.get("/"), Some(&"sda1".to_string()));
    assert_eq!(map.get("/home"), Some(&"nvme0n1p2".to_string()));
}

#[test]
fn parse_mounts_mapper_returns_raw_name() {
    let input = "/dev/mapper/vg-root / ext4 rw 0 0\n";
    let map = parse_mounts(input);
    assert_eq!(map.get("/"), Some(&"mapper/vg-root".to_string()));
}

#[test]
fn parse_mounts_skips_non_dev() {
    let input = "proc /proc proc rw 0 0\nsysfs /sys sysfs rw 0 0\n/dev/sda1 / ext4 rw 0 0\n";
    let map = parse_mounts(input);
    assert_eq!(map.len(), 1);
    assert!(map.contains_key("/"));
}

#[test]
fn parse_mounts_empty() {
    let map = parse_mounts("");
    assert!(map.is_empty());
}

#[test]
fn decode_mount_escape_space() {
    assert_eq!(decode_mount_escape("mount\\040point"), "mount point");
}

#[test]
fn decode_mount_escape_no_escapes() {
    assert_eq!(decode_mount_escape("/home"), "/home");
}

#[test]
fn parse_mounts_escaped_space() {
    let input = "/dev/sda1 /mnt/my\\040drive ext4 rw 0 0\n";
    let map = parse_mounts(input);
    assert_eq!(map.get("/mnt/my drive"), Some(&"sda1".to_string()));
}

#[test]
fn disk_capacity_refresh_schedule() {
    // Capacity refreshes every 4th tick, disk data is emitted every 2nd tick.
    let capacity_ticks: Vec<u64> = (0..8).filter(|&t| should_refresh_disk_capacity(t)).collect();
    assert_eq!(capacity_ticks, vec![0, 4]);
    let emission_ticks: Vec<u64> = (0..8).filter(|&t| should_emit_disk(t)).collect();
    assert_eq!(emission_ticks, vec![0, 2, 4, 6]);
}

// -- further cases --

#[test]
fn schedule_nested_on_many_ticks() {
    for t in 0..64u64 {
        if should_refresh_temps(t) || should_refresh_disk_capacity(t) {
            assert!(should_refresh_mem_net(t));
            assert!(should_emit_disk(t));
        }
    }
}

#[test]
fn sector_deltas_between_readings() {
    let prev = parse_diskstats("   8       1 sda1 0 0 1000 0 0 0 2000 0 0 0 0 0 0 0 0");
    let curr = parse_diskstats(
        "   8       1 sda1 0 0 3000 0 0 0 5000 0 0 0 0 0 0 0 0\n   8       2 sda2 0 0 10 0 0 0 20 0 0 0 0 0 0 0 0",
    );
    let deltas = sector_deltas(&prev, &curr);
    assert_eq!(deltas, vec![("sda1".to_string(), 2000, 3000)]);
}

#[test]
fn sector_deltas_counter_reset_is_zero() {
    let prev = parse_diskstats("   8       1 sda1 0 0 5000 0 0 0 5000 0 0 0 0 0 0 0 0");
    let curr = parse_diskstats("   8       1 sda1 0 0 100 0 0 0 6000 0 0 0 0 0 0 0 0");
    assert_eq!(sector_deltas(&prev, &curr), vec![("sda1".to_string(), 0, 1000)]);
}

#[test]
fn sector_deltas_missing_prev_skipped() {
    let prev = parse_diskstats("");
    let curr = parse_diskstats("   8       1 sda1 0 0 1000 0 0 0 2000 0 0 0 0 0 0 0 0");
    assert!(sector_deltas(&prev, &curr).is_empty());
}

#[test]
fn parse_diskstats_later_line_replaces_earlier() {
    let stats = parse_diskstats(
        "   8       1 sda1 0 0 1 0 0 0 2 0 0 0 0 0 0 0 0\n   8       1 sda1 0 0 7 0 0 0 8 0 0 0 0 0 0 0 0",
    );
    assert_eq!(stats.len(), 1);
    assert_eq!(stats.get("sda1"), Some((7, 8)));
    assert_eq!(stats.get("sdb"), None);
}

#[test]
fn decode_mount_escape_tab_and_backslash() {
    assert_eq!(decode_mount_escape("a\\011b"), "a\tb");
    assert_eq!(decode_mount_escape("a\\134b"), "a\\b");
    assert_eq!(decode_mount_escape("trailing\\04"), "trailing\\04");
}

fn proc(name: &str, pid: u32, mem: u64) -> ProcessInfo {
    ProcessInfo { name: name.to_string(), pid, memory_bytes: mem }
}

#[test]
fn top_processes_sorted_and_capped() {
    let mut procs = Vec::new();
    for i in 0..12u32 {
        procs.push(proc(&format!("p{i}"), i, (i as u64) * 100));
    }
    let top = top_processes(procs);
    assert_eq!(top.len(), 10);
    assert_eq!(top[0].pid, 11);
    assert_eq!(top[9].pid, 2);
}

#[test]
fn top_processes_ties_keep_order() {
    let top = top_processes(vec![proc("a", 1, 50), proc("b", 2, 90), proc("c", 3, 50)]);
    let pids: Vec<u32> = top.iter().map(|p| p.pid).collect();
    assert_eq!(pids, vec![2, 1, 3]);
}
