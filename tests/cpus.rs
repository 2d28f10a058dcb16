use chen_num_cpus::bytes::{parse_decimal, split};
use chen_num_cpus::cgroup::{CgroupVersion, Subsys};
use chen_num_cpus::count::{
    get_num_cpus, get_num_physical_cpus, get_num_physical_cpus_windows, record_count,
};
use chen_num_cpus::mount::{find_cpu_dir, MountInfo};
use chen_num_cpus::quota::{cpu_max_v2, cpu_quota_v1, quota_budget};

fn lines(text: &[&str]) -> Vec<Vec<u8>> {
    text.iter().map(|l| l.as_bytes().to_vec()).collect()
}

#[test]
fn parse_line_v1_with_cpu() {
    let s = Subsys::parse_line(b"11:cpu,cpuacct:/").unwrap();
    assert_eq!(s.version, CgroupVersion::V1);
    assert_eq!(s.base, b"/".to_vec());
}

#[test]
fn parse_line_v2_unified() {
    let s = Subsys::parse_line(b"0::/user.slice").unwrap();
    assert_eq!(s.version, CgroupVersion::V2);
    assert_eq!(s.base, b"/user.slice".to_vec());
}

#[test]
fn parse_line_without_cpu_controller() {
    assert!(Subsys::parse_line(b"4:memory:/").is_none());
}

#[test]
fn parse_line_cpu_must_be_whole_token() {
    assert!(Subsys::parse_line(b"3:cpuacct:/").is_none());
    assert!(Subsys::parse_line(b"3:cpuset:/").is_none());
    let s = Subsys::parse_line(b"3:cpuacct,cpu:/a").unwrap();
    assert_eq!(s.version, CgroupVersion::V1);
    assert_eq!(s.base, b"/a".to_vec());
}

#[test]
fn parse_line_malformed() {
    assert!(Subsys::parse_line(b"").is_none());
    assert!(Subsys::parse_line(b"11:cpu").is_none());
    assert!(Subsys::parse_line(b"garbage").is_none());
}

#[test]
fn load_cpu_v1_beats_earlier_v2() {
    let s = Subsys::load_cpu(&lines(&["0::/user.slice", "11:cpu,cpuacct:/docker/x"])).unwrap();
    assert_eq!(s.version, CgroupVersion::V1);
    assert_eq!(s.base, b"/docker/x".to_vec());
}

#[test]
fn load_cpu_v1_beats_later_v2_and_first_v1_stays() {
    let s = Subsys::load_cpu(&lines(&["4:memory:/m", "5:cpu:/first", "0::/u", "6:cpu:/second"]))
        .unwrap();
    assert_eq!(s.version, CgroupVersion::V1);
    assert_eq!(s.base, b"/first".to_vec());
}

#[test]
fn load_cpu_first_v2_without_v1() {
    let s = Subsys::load_cpu(&lines(&["4:memory:/m", "0::/a", "0::/b"])).unwrap();
    assert_eq!(s.version, CgroupVersion::V2);
    assert_eq!(s.base, b"/a".to_vec());
}

#[test]
fn load_cpu_nothing_relevant() {
    assert!(Subsys::load_cpu(&lines(&[])).is_none());
    assert!(Subsys::load_cpu(&lines(&["4:memory:/", "bad"])).is_none());
}

#[test]
fn select_reducer() {
    let v2 = Subsys { version: CgroupVersion::V2, base: b"/u".to_vec() };
    let v1 = Subsys { version: CgroupVersion::V1, base: b"/c".to_vec() };
    let r = Subsys::select(Some(v2), v1).unwrap();
    assert_eq!(r.base, b"/c".to_vec());
    let v2b = Subsys { version: CgroupVersion::V2, base: b"/w".to_vec() };
    let r = Subsys::select(Some(r), v2b).unwrap();
    assert_eq!(r.base, b"/c".to_vec());
    let v2c = Subsys { version: CgroupVersion::V2, base: b"/z".to_vec() };
    assert_eq!(Subsys::select(None, v2c).unwrap().base, b"/z".to_vec());
}

#[test]
fn mount_parse_v1_cpu() {
    let m = MountInfo::parse_line(
        b"7 5 0:6 / /sys/fs/cgroup/cpu,cpuacct rw,nosuid shared:7 - cgroup cgroup rw,cpu,cpuacct",
    )
    .unwrap();
    assert_eq!(m.version, CgroupVersion::V1);
    assert_eq!(m.root, b"/".to_vec());
    assert_eq!(m.mount_point, b"/sys/fs/cgroup/cpu,cpuacct".to_vec());
}

#[test]
fn mount_parse_v2_and_others() {
    let m = MountInfo::parse_line(b"30 23 0:26 /ctr /sys/fs/cgroup rw - cgroup2 cgroup2 rw").unwrap();
    assert_eq!(m.version, CgroupVersion::V2);
    assert_eq!(m.root, b"/ctr".to_vec());
    assert_eq!(m.mount_point, b"/sys/fs/cgroup".to_vec());
    assert!(MountInfo::parse_line(b"7 5 0:6 / /sys/fs/cgroup/memory rw - cgroup cgroup rw,memory")
        .is_none());
    assert!(MountInfo::parse_line(b"22 1 8:1 / / rw,relatime - ext4 /dev/sda1 rw").is_none());
    assert!(MountInfo::parse_line(b"22 1 8:1 / / rw,relatime").is_none());
}

#[test]
fn translate_paths() {
    let m = MountInfo { root: b"/".to_vec(), mount_point: b"/sys/fs/cgroup".to_vec(), version: CgroupVersion::V2 };
    let s = Subsys { version: CgroupVersion::V2, base: b"/user.slice".to_vec() };
    assert_eq!(m.translate(&s).unwrap(), b"/sys/fs/cgroup/user.slice".to_vec());
    let m = MountInfo { root: b"/docker".to_vec(), mount_point: b"/mnt".to_vec(), version: CgroupVersion::V1 };
    let s = Subsys { version: CgroupVersion::V1, base: b"/docker/abc".to_vec() };
    assert_eq!(m.translate(&s).unwrap(), b"/mnt/abc".to_vec());
    let s = Subsys { version: CgroupVersion::V1, base: b"/docker".to_vec() };
    assert_eq!(m.translate(&s).unwrap(), b"/mnt".to_vec());
    let s = Subsys { version: CgroupVersion::V1, base: b"/dockerx".to_vec() };
    assert!(m.translate(&s).is_none());
    let s = Subsys { version: CgroupVersion::V1, base: b"/other".to_vec() };
    assert!(m.translate(&s).is_none());
}

#[test]
fn find_cpu_dir_end_to_end() {
    let cg = lines(&["0::/user.slice", "11:cpu,cpuacct:/docker/x"]);
    let mi = lines(&[
        "30 23 0:26 / /sys/fs/cgroup/unified rw - cgroup2 cgroup2 rw",
        "31 23 0:27 / /sys/fs/cgroup/cpu rw - cgroup cgroup rw,cpu,cpuacct",
    ]);
    let (v, p) = find_cpu_dir(&cg, &mi).unwrap();
    assert_eq!(v, CgroupVersion::V1);
    assert_eq!(p, b"/sys/fs/cgroup/cpu/docker/x".to_vec());
    let mi2 = lines(&["30 23 0:26 / /sys/fs/cgroup/unified rw - cgroup2 cgroup2 rw"]);
    assert!(find_cpu_dir(&cg, &mi2).is_none());
}

#[test]
fn quota_one_and_a_half_cpus_rounds_up() {
    assert_eq!(quota_budget(150000, 100000), 2);
    assert_eq!(cpu_quota_v1(b"150000\n", b"100000\n"), Some(2));
}

#[test]
fn quota_unlimited_v1() {
    assert_eq!(cpu_quota_v1(b"-1\n", b"100000\n"), Some(0));
}

#[test]
fn quota_exact_and_bad() {
    assert_eq!(quota_budget(200000, 100000), 2);
    assert_eq!(quota_budget(1, 100000), 1);
    assert_eq!(quota_budget(0, 100000), 0);
    assert_eq!(quota_budget(usize::MAX, 2), usize::MAX / 2 + 1);
    assert_eq!(cpu_quota_v1(b"150000\n", b"0\n"), None);
    assert_eq!(cpu_quota_v1(b"abc\n", b"100000\n"), None);
    assert_eq!(cpu_quota_v1(b"-2\n", b"100000\n"), None);
    assert_eq!(cpu_quota_v1(b"150000\n", b""), None);
}

#[test]
fn cpu_max_unified() {
    assert_eq!(cpu_max_v2(b"max 100000\n"), Some(0));
    assert_eq!(cpu_max_v2(b"250000 100000\n"), Some(3));
    assert_eq!(cpu_max_v2(b"100000 100000"), Some(1));
    assert_eq!(cpu_max_v2(b"max\n"), None);
    assert_eq!(cpu_max_v2(b"150000 0\n"), None);
    assert_eq!(cpu_max_v2(b""), None);
}

#[test]
fn decimal_parsing() {
    assert_eq!(parse_decimal(b"0"), Some(0));
    assert_eq!(parse_decimal(b"12345"), Some(12345));
    assert_eq!(parse_decimal(b""), None);
    assert_eq!(parse_decimal(b"12a"), None);
    assert_eq!(parse_decimal(b"-1"), None);
    assert_eq!(parse_decimal(b"99999999999999999999999999"), None);
}

#[test]
fn split_fields_on_separator() {
    assert_eq!(split(b"a:b::c", b':'), vec![b"a".to_vec(), b"b".to_vec(), vec![], b"c".to_vec()]);
    assert_eq!(split(b"", b':'), vec![Vec::<u8>::new()]);
}

#[test]
fn logical_count_with_and_without_budget() {
    assert_eq!(get_num_cpus(Some(2), 8), 2);
    assert_eq!(get_num_cpus(Some(16), 8), 8);
    assert_eq!(get_num_cpus(Some(0), 8), 8);
    assert_eq!(get_num_cpus(None, 8), 8);
    assert_eq!(get_num_cpus(None, 0), 1);
    assert_eq!(get_num_cpus(Some(3), 0), 1);
}

#[test]
fn counts_are_at_least_one() {
    for logical in [0usize, 1, 4] {
        for budget in [None, Some(0usize), Some(1), Some(5)] {
            assert!(get_num_cpus(budget, logical) >= 1);
        }
        for physical in [None, Some(0usize), Some(2)] {
            assert!(get_num_physical_cpus(physical, logical) >= 1);
        }
    }
}

#[test]
fn physical_not_above_logical() {
    assert!(get_num_physical_cpus(Some(4), 8) <= get_num_cpus(None, 8));
    assert_eq!(get_num_physical_cpus(Some(4), 8), 4);
    assert_eq!(get_num_physical_cpus(None, 8), 8);
    assert_eq!(get_num_physical_cpus(Some(0), 0), 1);
}

#[test]
fn record_sizes() {
    assert_eq!(record_count(96, 32), Some(3));
    assert_eq!(record_count(0, 32), None);
    assert_eq!(record_count(16, 32), None);
    assert_eq!(record_count(100, 32), None);
}

#[test]
fn topology_records_counted() {
    // core, cache, core, package
    assert_eq!(get_num_physical_cpus_windows(128, 32, &[0, 2, 0, 3]), Some(2));
    // only the records that the size covers count
    assert_eq!(get_num_physical_cpus_windows(64, 32, &[0, 2, 0, 3]), Some(1));
    assert_eq!(get_num_physical_cpus_windows(64, 32, &[2, 3]), None);
    assert_eq!(get_num_physical_cpus_windows(128, 32, &[0, 0]), None);
}

#[test]
fn misaligned_topology_buffer_falls_back_to_logical() {
    let physical = get_num_physical_cpus_windows(100, 32, &[0, 0, 0]);
    assert_eq!(physical, None);
    assert_eq!(get_num_physical_cpus(physical, 6), get_num_cpus(None, 6));
}
